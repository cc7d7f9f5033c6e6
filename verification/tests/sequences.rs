use speedy::{BoundedBuffer, Endianness, GrowingBuffer, Writable, Writer, WriterExt};

const ORDERS: [Endianness; 2] = [Endianness::LittleEndian, Endianness::BigEndian];

fn host() -> Endianness {
    if u16::from_ne_bytes([1, 0]) == 1 {
        Endianness::LittleEndian
    } else {
        Endianness::BigEndian
    }
}

fn other(order: Endianness) -> Endianness {
    match order {
        Endianness::LittleEndian => Endianness::BigEndian,
        Endianness::BigEndian => Endianness::LittleEndian,
    }
}

fn one_by_one<T: Writable<Endianness>>(order: Endianness, items: &[T]) -> Vec<u8> {
    let mut writer = GrowingBuffer::new(order);
    for item in items {
        writer.write_value(item).unwrap();
    }
    writer.into_bytes()
}

fn as_slice<T: Writable<Endianness>>(order: Endianness, items: &[T]) -> Vec<u8> {
    let mut writer = GrowingBuffer::new(order);
    writer.write_slice(items).unwrap();
    writer.into_bytes()
}

#[test]
fn slice_of_bytes_is_written_as_its_items_in_both_orders() {
    let items: [u8; 5] = [0, 1, 0x7f, 0x80, 0xff];
    for order in ORDERS {
        assert_eq!(as_slice(order, &items), vec![0, 1, 0x7f, 0x80, 0xff]);
        assert_eq!(as_slice(order, &items), one_by_one(order, &items));
    }
}

#[test]
fn slice_of_signed_bytes_is_written_as_its_items_in_both_orders() {
    let items: [i8; 4] = [0, -1, i8::MIN, i8::MAX];
    for order in ORDERS {
        assert_eq!(as_slice(order, &items), vec![0, 0xff, 0x80, 0x7f]);
        assert_eq!(as_slice(order, &items), one_by_one(order, &items));
    }
}

#[test]
fn slice_of_wide_items_is_written_as_its_items_when_a_swap_is_needed() {
    let order = other(host());
    let a: [u16; 3] = [0x0102, 0xfffe, 0];
    let b: [u32; 2] = [0x0102_0304, u32::MAX - 1];
    let c: [u64; 2] = [0x0102_0304_0506_0708, 1];
    let d: [i16; 2] = [-2, 0x0102];
    let e: [i32; 2] = [-3, 7];
    let f: [i64; 2] = [i64::MIN, -1];
    assert_eq!(as_slice(order, &a), one_by_one(order, &a));
    assert_eq!(as_slice(order, &b), one_by_one(order, &b));
    assert_eq!(as_slice(order, &c), one_by_one(order, &c));
    assert_eq!(as_slice(order, &d), one_by_one(order, &d));
    assert_eq!(as_slice(order, &e), one_by_one(order, &e));
    assert_eq!(as_slice(order, &f), one_by_one(order, &f));
}

#[test]
fn slice_of_wide_items_is_written_as_its_items_when_no_swap_is_needed() {
    let order = host();
    let a: [u16; 3] = [0x0102, 0xfffe, 0];
    let b: [u32; 2] = [0x0102_0304, u32::MAX - 1];
    let c: [u64; 2] = [0x0102_0304_0506_0708, 1];
    let d: [i16; 2] = [-2, 0x0102];
    let e: [i32; 2] = [-3, 7];
    let f: [i64; 2] = [i64::MIN, -1];
    assert_eq!(as_slice(order, &a), one_by_one(order, &a));
    assert_eq!(as_slice(order, &b), one_by_one(order, &b));
    assert_eq!(as_slice(order, &c), one_by_one(order, &c));
    assert_eq!(as_slice(order, &d), one_by_one(order, &d));
    assert_eq!(as_slice(order, &e), one_by_one(order, &e));
    assert_eq!(as_slice(order, &f), one_by_one(order, &f));
}

#[test]
fn slice_of_u16_has_exact_bytes_in_each_order() {
    let items: [u16; 2] = [0x0102, 0x0a0b];
    assert_eq!(as_slice(Endianness::LittleEndian, &items), vec![0x02, 0x01, 0x0b, 0x0a]);
    assert_eq!(as_slice(Endianness::BigEndian, &items), vec![0x01, 0x02, 0x0a, 0x0b]);
}

#[test]
fn slice_of_i32_has_exact_bytes_in_each_order() {
    let items: [i32; 2] = [-2, 0x0102_0304];
    assert_eq!(
        as_slice(Endianness::LittleEndian, &items),
        vec![0xfe, 0xff, 0xff, 0xff, 0x04, 0x03, 0x02, 0x01]
    );
    assert_eq!(
        as_slice(Endianness::BigEndian, &items),
        vec![0xff, 0xff, 0xff, 0xfe, 0x01, 0x02, 0x03, 0x04]
    );
}

#[test]
fn empty_slice_writes_nothing() {
    for order in ORDERS {
        let none: [u32; 0] = [];
        assert_eq!(as_slice(order, &none), Vec::<u8>::new());
        let none: [(u8, u16); 0] = [];
        assert_eq!(as_slice(order, &none), Vec::<u8>::new());
    }
}

#[test]
fn empty_collection_writes_nothing_and_succeeds() {
    for order in ORDERS {
        let mut writer = GrowingBuffer::new(order);
        assert!(writer.write_collection(Vec::<u32>::new().into_iter()).is_ok());
        assert_eq!(writer.bytes(), &[] as &[u8]);
        let mut full = BoundedBuffer::new(order, 0);
        assert!(full.write_collection(Vec::<u64>::new().into_iter()).is_ok());
        assert_eq!(full.bytes(), &[] as &[u8]);
    }
}

#[test]
fn collection_is_written_in_the_order_it_yields() {
    let mut writer = GrowingBuffer::new(Endianness::BigEndian);
    writer.write_collection(vec![0x0102u16, 0x0304, 0x0506].into_iter()).unwrap();
    assert_eq!(writer.bytes(), &[1, 2, 3, 4, 5, 6]);
    let mut writer = GrowingBuffer::new(Endianness::LittleEndian);
    writer.write_collection((1u32..=2).map(|n| n * 0x0101)).unwrap();
    assert_eq!(writer.bytes(), &[0x01, 0x01, 0, 0, 0x02, 0x02, 0, 0]);
}

#[test]
fn collection_of_an_iterator_half_way_writes_what_is_left() {
    let mut items = vec![1u8, 2, 3, 4].into_iter();
    items.next();
    let mut writer = GrowingBuffer::new(Endianness::LittleEndian);
    writer.write_collection(items).unwrap();
    assert_eq!(writer.bytes(), &[2, 3, 4]);
}

#[test]
fn failed_collection_keeps_the_items_before_the_one_that_failed() {
    for order in ORDERS {
        let mut writer = BoundedBuffer::new(order, 7);
        let result = writer.write_collection(vec![0x0101_0101u32, 0x0202_0202, 0x0303_0303].into_iter());
        assert_eq!(result.unwrap_err().kind(), std::io::ErrorKind::WriteZero);
        assert_eq!(writer.bytes(), &[1, 1, 1, 1]);
    }
}

#[test]
fn failed_collection_on_its_first_item_writes_nothing() {
    let mut writer = BoundedBuffer::new(Endianness::BigEndian, 1);
    assert!(writer.write_collection(vec![7u16, 8].into_iter()).is_err());
    assert_eq!(writer.bytes(), &[] as &[u8]);
}

#[test]
fn failed_slice_item_by_item_keeps_the_items_before_the_one_that_failed() {
    let mut writer = BoundedBuffer::new(other(host()), 5);
    let items: [u16; 4] = [0x0101, 0x0202, 0x0303, 0x0404];
    assert!(writer.write_slice(&items).is_err());
    assert_eq!(writer.bytes(), &[1, 1, 2, 2]);
}

#[test]
fn failed_slice_in_bulk_writes_nothing() {
    let mut writer = BoundedBuffer::new(host(), 5);
    let items: [u16; 4] = [0x0101, 0x0202, 0x0303, 0x0404];
    assert!(writer.write_slice(&items).is_err());
    assert_eq!(writer.bytes(), &[] as &[u8]);
    for order in ORDERS {
        let mut writer = BoundedBuffer::new(order, 3);
        assert!(writer.write_slice(&[1u8, 2, 3, 4]).is_err());
        assert_eq!(writer.bytes(), &[] as &[u8]);
    }
}

#[test]
fn slice_that_fits_exactly_succeeds() {
    for order in ORDERS {
        let mut writer = BoundedBuffer::new(order, 8);
        writer.write_slice(&[0x0101_0101u32, 0x0202_0202]).unwrap();
        assert_eq!(writer.bytes(), &[1, 1, 1, 1, 2, 2, 2, 2]);
        assert_eq!(writer.can_write_at_least(0), Some(true));
        assert_eq!(writer.can_write_at_least(1), Some(false));
    }
}

#[test]
fn pair_is_written_part_by_part() {
    let mut writer = GrowingBuffer::new(Endianness::BigEndian);
    writer.write_value(&(0x01u8, 0x0203u16)).unwrap();
    writer.write_value(&((-1i8, 0x04u8), 0x0506_0708u32)).unwrap();
    assert_eq!(writer.bytes(), &[1, 2, 3, 0xff, 4, 5, 6, 7, 8]);
}

#[test]
fn slice_of_pairs_is_written_item_by_item() {
    let items = [(1u8, 0x0203u16), (4u8, 0x0506u16)];
    assert_eq!(as_slice(Endianness::BigEndian, &items), vec![1, 2, 3, 4, 5, 6]);
    assert_eq!(as_slice(Endianness::LittleEndian, &items), vec![1, 3, 2, 4, 6, 5]);
    for order in ORDERS {
        assert_eq!(as_slice(order, &items), one_by_one(order, &items));
    }
}

#[test]
fn failed_pair_leaves_its_first_part() {
    let mut writer = BoundedBuffer::new(Endianness::BigEndian, 4);
    let items = [(1u8, 0x0203u16), (4u8, 0x0506u16)];
    assert!(writer.write_slice(&items).is_err());
    assert_eq!(writer.bytes(), &[1, 2, 3, 4]);
}

#[test]
fn integers_are_primitive_and_pairs_are_not() {
    assert!(<u8 as Writable<Endianness>>::speedy_is_primitive());
    assert!(<i8 as Writable<Endianness>>::speedy_is_primitive());
    assert!(<u16 as Writable<Endianness>>::speedy_is_primitive());
    assert!(<i16 as Writable<Endianness>>::speedy_is_primitive());
    assert!(<u32 as Writable<Endianness>>::speedy_is_primitive());
    assert!(<i32 as Writable<Endianness>>::speedy_is_primitive());
    assert!(<u64 as Writable<Endianness>>::speedy_is_primitive());
    assert!(<i64 as Writable<Endianness>>::speedy_is_primitive());
    assert!(!<(u8, u8) as Writable<Endianness>>::speedy_is_primitive());
}

#[test]
fn memory_image_of_a_slice_is_each_item_in_the_order_of_the_machine() {
    let items: [u32; 2] = [0x0102_0304, 0x0a0b_0c0d];
    let image = <u32 as Writable<Endianness>>::speedy_slice_as_bytes(&items);
    let mut expected = Vec::new();
    expected.extend_from_slice(&items[0].to_ne_bytes());
    expected.extend_from_slice(&items[1].to_ne_bytes());
    assert_eq!(image, expected);
    assert_eq!(image, one_by_one(host(), &items));
    let items: [i16; 2] = [-2, 3];
    let image = <i16 as Writable<Endianness>>::speedy_slice_as_bytes(&items);
    assert_eq!(image.len(), 4);
    assert_eq!(image, one_by_one(host(), &items));
    let items: [u8; 3] = [9, 8, 7];
    assert_eq!(<u8 as Writable<Endianness>>::speedy_slice_as_bytes(&items), vec![9, 8, 7]);
}

#[test]
fn a_growing_buffer_cannot_tell_its_room() {
    let writer = GrowingBuffer::new(Endianness::LittleEndian);
    assert_eq!(writer.can_write_at_least(0), None);
    assert_eq!(writer.can_write_at_least(usize::MAX), None);
}

#[test]
fn a_bounded_buffer_tells_its_room_exactly() {
    let mut writer = BoundedBuffer::new(Endianness::LittleEndian, 3);
    assert_eq!(writer.can_write_at_least(3), Some(true));
    assert_eq!(writer.can_write_at_least(4), Some(false));
    writer.write_u16(1).unwrap();
    assert_eq!(writer.can_write_at_least(1), Some(true));
    assert_eq!(writer.can_write_at_least(2), Some(false));
    assert!(writer.write_bytes(&[1, 2]).is_err());
    assert!(writer.write_bytes(&[]).is_ok());
    assert!(writer.write_bytes(&[9]).is_ok());
    assert_eq!(writer.bytes(), &[1, 0, 9]);
}

#[test]
fn decoding_recovers_what_was_written() {
    let values: [u64; 5] = [0, 1, 0x0123_4567_89ab_cdef, u64::MAX, 0x8000_0000_0000_0000];
    for order in ORDERS {
        for v in values {
            let mut writer = GrowingBuffer::new(order);
            writer.write_u16(v as u16).unwrap();
            writer.write_u32(v as u32).unwrap();
            writer.write_u64(v).unwrap();
            let bytes = writer.into_bytes();
            let mut a = u16::from_ne_bytes([bytes[0], bytes[1]]);
            let mut b = u32::from_ne_bytes([bytes[2], bytes[3], bytes[4], bytes[5]]);
            let mut c = u64::from_ne_bytes([
                bytes[6], bytes[7], bytes[8], bytes[9], bytes[10], bytes[11], bytes[12], bytes[13],
            ]);
            order.swap_u16(&mut a);
            order.swap_u32(&mut b);
            order.swap_u64(&mut c);
            assert_eq!(a, v as u16);
            assert_eq!(b, v as u32);
            assert_eq!(c, v);
        }
    }
}
