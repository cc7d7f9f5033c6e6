use speedy::Endianness;

fn host() -> Endianness {
    if u16::from_ne_bytes([1, 0]) == 1 {
        Endianness::LittleEndian
    } else {
        Endianness::BigEndian
    }
}

fn other(order: Endianness) -> Endianness {
    match order {
        Endianness::LittleEndian => Endianness::BigEndian,
        Endianness::BigEndian => Endianness::LittleEndian,
    }
}

#[test]
fn native_is_the_order_of_this_machine() {
    assert_eq!(Endianness::native(), host());
}

#[test]
fn conversion_is_necessary_only_for_the_other_order() {
    assert!(!host().conversion_necessary());
    assert!(other(host()).conversion_necessary());
}

#[test]
fn swap_reverses_all_bytes_when_conversion_is_necessary() {
    let order = other(host());
    let mut a: u16 = 0x0102;
    let mut b: u32 = 0x0102_0304;
    let mut c: u64 = 0x0102_0304_0506_0708;
    order.swap_u16(&mut a);
    order.swap_u32(&mut b);
    order.swap_u64(&mut c);
    assert_eq!(a, 0x0201);
    assert_eq!(b, 0x0403_0201);
    assert_eq!(c, 0x0807_0605_0403_0201);
}

#[test]
fn swap_leaves_the_value_alone_in_the_order_of_the_machine() {
    let order = host();
    let mut a: u16 = 0x0102;
    let mut b: u32 = 0x0102_0304;
    let mut c: u64 = 0x0102_0304_0506_0708;
    order.swap_u16(&mut a);
    order.swap_u32(&mut b);
    order.swap_u64(&mut c);
    assert_eq!(a, 0x0102);
    assert_eq!(b, 0x0102_0304);
    assert_eq!(c, 0x0102_0304_0506_0708);
}

#[test]
fn swap_agrees_with_swap_bytes_of_std() {
    let order = other(host());
    let values: [u64; 6] = [0, 1, 0xff, 0x8000_0000_0000_0001, u64::MAX, 0x0123_4567_89ab_cdef];
    for v in values {
        let mut a = v as u16;
        let mut b = v as u32;
        let mut c = v;
        order.swap_u16(&mut a);
        order.swap_u32(&mut b);
        order.swap_u64(&mut c);
        assert_eq!(a, (v as u16).swap_bytes());
        assert_eq!(b, (v as u32).swap_bytes());
        assert_eq!(c, v.swap_bytes());
    }
}

#[test]
fn swapping_twice_gives_the_value_back() {
    let values: [u64; 5] = [0, 0x00ff, 0x1234_5678_9abc_def0, u64::MAX, 0x8000_0000_0000_0000];
    for order in [Endianness::LittleEndian, Endianness::BigEndian] {
        for v in values {
            let mut a = v as u16;
            let mut b = v as u32;
            let mut c = v;
            order.swap_u16(&mut a);
            order.swap_u16(&mut a);
            order.swap_u32(&mut b);
            order.swap_u32(&mut b);
            order.swap_u64(&mut c);
            order.swap_u64(&mut c);
            assert_eq!(a, v as u16);
            assert_eq!(b, v as u32);
            assert_eq!(c, v);
        }
    }
}

#[test]
fn orders_compare_and_copy() {
    let order = Endianness::BigEndian;
    let copy = order;
    assert_eq!(order, copy);
    assert_ne!(Endianness::LittleEndian, Endianness::BigEndian);
    assert_eq!(format!("{:?}", order), "BigEndian");
}
