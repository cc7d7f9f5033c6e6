use speedy::{BoundedBuffer, Context, Endianness, GrowingBuffer, Writer, WriterExt};

fn little() -> GrowingBuffer<Endianness> {
    GrowingBuffer::new(Endianness::LittleEndian)
}

fn big() -> GrowingBuffer<Endianness> {
    GrowingBuffer::new(Endianness::BigEndian)
}

#[test]
fn u32_big_endian_is_most_significant_first() {
    let mut writer = big();
    writer.write_u32(0x01020304).unwrap();
    assert_eq!(writer.bytes(), &[0x01, 0x02, 0x03, 0x04]);
}

#[test]
fn u32_little_endian_is_least_significant_first() {
    let mut writer = little();
    writer.write_u32(0x01020304).unwrap();
    assert_eq!(writer.bytes(), &[0x04, 0x03, 0x02, 0x01]);
}

#[test]
fn u8_is_written_unchanged_in_both_orders() {
    let mut a = little();
    let mut b = big();
    a.write_u8(0xab).unwrap();
    b.write_u8(0xab).unwrap();
    assert_eq!(a.bytes(), &[0xab]);
    assert_eq!(b.bytes(), &[0xab]);
}

#[test]
fn u16_in_both_orders() {
    let mut a = little();
    let mut b = big();
    a.write_u16(0x1234).unwrap();
    b.write_u16(0x1234).unwrap();
    assert_eq!(a.bytes(), &[0x34, 0x12]);
    assert_eq!(b.bytes(), &[0x12, 0x34]);
}

#[test]
fn u64_in_both_orders() {
    let mut a = little();
    let mut b = big();
    a.write_u64(0x0102030405060708).unwrap();
    b.write_u64(0x0102030405060708).unwrap();
    assert_eq!(a.bytes(), &[8, 7, 6, 5, 4, 3, 2, 1]);
    assert_eq!(b.bytes(), &[1, 2, 3, 4, 5, 6, 7, 8]);
}

#[test]
fn writes_agree_with_std_layouts() {
    let values: [u64; 5] = [0, 1, 0x8000_0000_0000_0000, u64::MAX, 0x0123_4567_89ab_cdef];
    for v in values {
        let mut a = little();
        let mut b = big();
        a.write_u64(v).unwrap();
        b.write_u64(v).unwrap();
        assert_eq!(a.bytes(), &v.to_le_bytes());
        assert_eq!(b.bytes(), &v.to_be_bytes());
        let mut a = little();
        let mut b = big();
        a.write_u32(v as u32).unwrap();
        b.write_u32(v as u32).unwrap();
        assert_eq!(a.bytes(), &(v as u32).to_le_bytes());
        assert_eq!(b.bytes(), &(v as u32).to_be_bytes());
        let mut a = little();
        let mut b = big();
        a.write_u16(v as u16).unwrap();
        b.write_u16(v as u16).unwrap();
        assert_eq!(a.bytes(), &(v as u16).to_le_bytes());
        assert_eq!(b.bytes(), &(v as u16).to_be_bytes());
    }
}

#[test]
fn negative_values_are_written_as_their_bit_pattern() {
    let mut signed = big();
    let mut unsigned = big();
    signed.write_i8(-1).unwrap();
    signed.write_i16(-2).unwrap();
    signed.write_i32(-3).unwrap();
    signed.write_i64(-4).unwrap();
    unsigned.write_u8(0xff).unwrap();
    unsigned.write_u16(0xfffe).unwrap();
    unsigned.write_u32(0xffff_fffd).unwrap();
    unsigned.write_u64(0xffff_ffff_ffff_fffc).unwrap();
    assert_eq!(signed.bytes(), unsigned.bytes());
    assert_eq!(
        signed.bytes(),
        &[0xff, 0xff, 0xfe, 0xff, 0xff, 0xff, 0xfd, 0xff, 0xff, 0xff, 0xff, 0xff, 0xff, 0xff, 0xfc]
    );
}

#[test]
fn smallest_signed_values() {
    let mut writer = little();
    writer.write_i8(i8::MIN).unwrap();
    writer.write_i16(i16::MIN).unwrap();
    writer.write_i32(i32::MIN).unwrap();
    writer.write_i64(i64::MIN).unwrap();
    assert_eq!(
        writer.bytes(),
        &[0x80, 0x00, 0x80, 0x00, 0x00, 0x00, 0x80, 0, 0, 0, 0, 0, 0, 0, 0x80]
    );
}

#[test]
fn writer_reports_the_order_of_its_context() {
    assert_eq!(little().endianness(), Endianness::LittleEndian);
    assert_eq!(big().endianness(), Endianness::BigEndian);
    assert_eq!(big().context().endianness(), Endianness::BigEndian);
}

#[test]
fn context_can_be_changed_between_writes() {
    let mut writer = little();
    writer.write_u16(0x0102).unwrap();
    *writer.context_mut() = Endianness::BigEndian;
    writer.write_u16(0x0102).unwrap();
    assert_eq!(writer.bytes(), &[0x02, 0x01, 0x01, 0x02]);
}

#[test]
fn a_full_buffer_refuses_the_whole_value() {
    let mut writer = BoundedBuffer::new(Endianness::BigEndian, 5);
    writer.write_u32(0x0a0b0c0d).unwrap();
    let error = writer.write_u16(0x0102).unwrap_err();
    assert_eq!(error.kind(), std::io::ErrorKind::WriteZero);
    assert_eq!(writer.bytes(), &[0x0a, 0x0b, 0x0c, 0x0d]);
    writer.write_u8(0x0e).unwrap();
    assert_eq!(writer.into_bytes(), vec![0x0a, 0x0b, 0x0c, 0x0d, 0x0e]);
}

#[test]
fn write_value_writes_what_the_type_says() {
    let mut writer = big();
    writer.write_value(&0x0102u16).unwrap();
    writer.write_value(&-1i8).unwrap();
    assert_eq!(writer.bytes(), &[0x01, 0x02, 0xff]);
}

#[test]
fn bit_patterns_of_floats_pass_through_unchanged() {
    let singles: [u32; 4] = [0x7fc0_0001, 0xffc1_2345, 0x8000_0000, 0x3f80_0000];
    for bits in singles {
        let value = f32::from_bits(bits);
        let mut writer = big();
        writer.write_u32(value.to_bits()).unwrap();
        let bytes = writer.into_bytes();
        let back = f32::from_bits(u32::from_be_bytes([bytes[0], bytes[1], bytes[2], bytes[3]]));
        assert_eq!(back.to_bits(), bits);
    }
    let doubles: [u64; 3] = [0x7ff8_0000_0000_0001, 0x8000_0000_0000_0000, 0x3ff0_0000_0000_0000];
    for bits in doubles {
        let value = f64::from_bits(bits);
        let mut writer = little();
        writer.write_u64(value.to_bits()).unwrap();
        let bytes = writer.into_bytes();
        let back = f64::from_bits(u64::from_le_bytes([
            bytes[0], bytes[1], bytes[2], bytes[3], bytes[4], bytes[5], bytes[6], bytes[7],
        ]));
        assert_eq!(back.to_bits(), bits);
    }
    assert!(f32::from_bits(0x7fc0_0001).is_nan());
    assert!(f64::from_bits(0x8000_0000_0000_0000).is_sign_negative());
}
