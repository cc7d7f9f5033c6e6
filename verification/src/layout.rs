//! Byte layouts of the fixed-width integers.
//!
//! Every layout is given twice: as a sequence of bytes in a chosen order, and
//! as the integer that a sequence of bytes stands for in that order. The only
//! executable functions here hand out the layout that the running machine
//! uses in memory.

use crate::endianness::Endianness;
use vstd::prelude::*;

verus! {

/// The two bytes of `value`, least significant first.
#[verifier::opaque]
pub open spec fn le_bytes_u16(value: u16) -> Seq<u8> {
    seq![(value % 0x100) as u8, (value / 0x100) as u8]
}

/// The two bytes of `value`, most significant first.
#[verifier::opaque]
pub open spec fn be_bytes_u16(value: u16) -> Seq<u8> {
    seq![(value / 0x100) as u8, (value % 0x100) as u8]
}

/// The four bytes of `value`, least significant first.
#[verifier::opaque]
pub open spec fn le_bytes_u32(value: u32) -> Seq<u8> {
    seq![
        (value % 0x100) as u8,
        (value / 0x100 % 0x100) as u8,
        (value / 0x1_0000 % 0x100) as u8,
        (value / 0x100_0000) as u8,
    ]
}

/// The four bytes of `value`, most significant first.
#[verifier::opaque]
pub open spec fn be_bytes_u32(value: u32) -> Seq<u8> {
    seq![
        (value / 0x100_0000) as u8,
        (value / 0x1_0000 % 0x100) as u8,
        (value / 0x100 % 0x100) as u8,
        (value % 0x100) as u8,
    ]
}

/// The eight bytes of `value`, least significant first.
#[verifier::opaque]
pub open spec fn le_bytes_u64(value: u64) -> Seq<u8> {
    seq![
        (value % 0x100) as u8,
        (value / 0x100 % 0x100) as u8,
        (value / 0x1_0000 % 0x100) as u8,
        (value / 0x100_0000 % 0x100) as u8,
        (value / 0x1_0000_0000 % 0x100) as u8,
        (value / 0x100_0000_0000 % 0x100) as u8,
        (value / 0x1_0000_0000_0000 % 0x100) as u8,
        (value / 0x100_0000_0000_0000) as u8,
    ]
}

/// The eight bytes of `value`, most significant first.
#[verifier::opaque]
pub open spec fn be_bytes_u64(value: u64) -> Seq<u8> {
    seq![
        (value / 0x100_0000_0000_0000) as u8,
        (value / 0x1_0000_0000_0000 % 0x100) as u8,
        (value / 0x100_0000_0000 % 0x100) as u8,
        (value / 0x1_0000_0000 % 0x100) as u8,
        (value / 0x100_0000 % 0x100) as u8,
        (value / 0x1_0000 % 0x100) as u8,
        (value / 0x100 % 0x100) as u8,
        (value % 0x100) as u8,
    ]
}

/// The bytes of `value` in the given order.
pub open spec fn bytes_u16(order: Endianness, value: u16) -> Seq<u8> {
    match order {
        Endianness::LittleEndian => le_bytes_u16(value),
        Endianness::BigEndian => be_bytes_u16(value),
    }
}

/// The bytes of `value` in the given order.
pub open spec fn bytes_u32(order: Endianness, value: u32) -> Seq<u8> {
    match order {
        Endianness::LittleEndian => le_bytes_u32(value),
        Endianness::BigEndian => be_bytes_u32(value),
    }
}

/// The bytes of `value` in the given order.
pub open spec fn bytes_u64(order: Endianness, value: u64) -> Seq<u8> {
    match order {
        Endianness::LittleEndian => le_bytes_u64(value),
        Endianness::BigEndian => be_bytes_u64(value),
    }
}

/// The integer whose bytes, least significant first, are `bytes`.
#[verifier::opaque]
pub open spec fn u16_of_le_bytes(bytes: Seq<u8>) -> u16
    recommends
        bytes.len() == 2,
{
    (bytes[0] + 0x100 * bytes[1]) as u16
}

/// The integer whose bytes, least significant first, are `bytes`.
#[verifier::opaque]
pub open spec fn u32_of_le_bytes(bytes: Seq<u8>) -> u32
    recommends
        bytes.len() == 4,
{
    (bytes[0] + 0x100 * bytes[1] + 0x1_0000 * bytes[2] + 0x100_0000 * bytes[3]) as u32
}

/// The integer whose bytes, least significant first, are `bytes`.
#[verifier::opaque]
pub open spec fn u64_of_le_bytes(bytes: Seq<u8>) -> u64
    recommends
        bytes.len() == 8,
{
    (bytes[0] + 0x100 * bytes[1] + 0x1_0000 * bytes[2] + 0x100_0000 * bytes[3] + 0x1_0000_0000
        * bytes[4] + 0x100_0000_0000 * bytes[5] + 0x1_0000_0000_0000 * bytes[6]
        + 0x100_0000_0000_0000 * bytes[7]) as u64
}

/// The integer that `bytes` stand for in the given order.
pub open spec fn u16_of_bytes(order: Endianness, bytes: Seq<u8>) -> u16
    recommends
        bytes.len() == 2,
{
    match order {
        Endianness::LittleEndian => u16_of_le_bytes(bytes),
        Endianness::BigEndian => u16_of_le_bytes(bytes.reverse()),
    }
}

/// The integer that `bytes` stand for in the given order.
pub open spec fn u32_of_bytes(order: Endianness, bytes: Seq<u8>) -> u32
    recommends
        bytes.len() == 4,
{
    match order {
        Endianness::LittleEndian => u32_of_le_bytes(bytes),
        Endianness::BigEndian => u32_of_le_bytes(bytes.reverse()),
    }
}

/// The integer that `bytes` stand for in the given order.
pub open spec fn u64_of_bytes(order: Endianness, bytes: Seq<u8>) -> u64
    recommends
        bytes.len() == 8,
{
    match order {
        Endianness::LittleEndian => u64_of_le_bytes(bytes),
        Endianness::BigEndian => u64_of_le_bytes(bytes.reverse()),
    }
}

/// The unsigned integer with the bit pattern of `value` in two's complement.
pub open spec fn bits_of_i8(value: i8) -> u8 {
    if value >= 0 {
        value as u8
    } else {
        (value + 0x100) as u8
    }
}

/// The unsigned integer with the bit pattern of `value` in two's complement.
pub open spec fn bits_of_i16(value: i16) -> u16 {
    if value >= 0 {
        value as u16
    } else {
        (value + 0x1_0000) as u16
    }
}

/// The unsigned integer with the bit pattern of `value` in two's complement.
pub open spec fn bits_of_i32(value: i32) -> u32 {
    if value >= 0 {
        value as u32
    } else {
        (value + 0x1_0000_0000) as u32
    }
}

/// The unsigned integer with the bit pattern of `value` in two's complement.
pub open spec fn bits_of_i64(value: i64) -> u64 {
    if value >= 0 {
        value as u64
    } else {
        (value + 0x1_0000_0000_0000_0000) as u64
    }
}

/// The big-endian layout is the little-endian one read backwards.
pub proof fn lemma_be_is_le_reversed_u16(value: u16)
    ensures
        le_bytes_u16(value).len() == 2,
        be_bytes_u16(value).len() == 2,
        be_bytes_u16(value) == le_bytes_u16(value).reverse(),
{
    reveal(le_bytes_u16);
    reveal(be_bytes_u16);
    assert(be_bytes_u16(value) =~= le_bytes_u16(value).reverse());
}

/// The big-endian layout is the little-endian one read backwards.
pub proof fn lemma_be_is_le_reversed_u32(value: u32)
    ensures
        le_bytes_u32(value).len() == 4,
        be_bytes_u32(value).len() == 4,
        be_bytes_u32(value) == le_bytes_u32(value).reverse(),
{
    reveal(le_bytes_u32);
    reveal(be_bytes_u32);
    assert(be_bytes_u32(value) =~= le_bytes_u32(value).reverse());
}

/// The big-endian layout is the little-endian one read backwards.
pub proof fn lemma_be_is_le_reversed_u64(value: u64)
    ensures
        le_bytes_u64(value).len() == 8,
        be_bytes_u64(value).len() == 8,
        be_bytes_u64(value) == le_bytes_u64(value).reverse(),
{
    reveal(le_bytes_u64);
    reveal(be_bytes_u64);
    assert(be_bytes_u64(value) =~= le_bytes_u64(value).reverse());
}

/// An integer is the sum of its bytes, each weighted by its place.
proof fn lemma_sum_of_digits_u16(value: u16)
    by (bit_vector)
    ensures
        value % 0x100 + 0x100 * (value / 0x100) == value,
{
}

/// An integer is the sum of its bytes, each weighted by its place.
proof fn lemma_sum_of_digits_u32(value: u32)
    by (bit_vector)
    ensures
        value % 0x100 + 0x100 * (value / 0x100 % 0x100) + 0x1_0000 * (value / 0x1_0000 % 0x100)
            + 0x100_0000 * (value / 0x100_0000) == value,
{
}

/// An integer is the sum of its bytes, each weighted by its place.
proof fn lemma_sum_of_digits_u64(value: u64)
    by (bit_vector)
    ensures
        value % 0x100 + 0x100 * (value / 0x100 % 0x100) + 0x1_0000 * (value / 0x1_0000 % 0x100)
            + 0x100_0000 * (value / 0x100_0000 % 0x100) + 0x1_0000_0000 * (value / 0x1_0000_0000
            % 0x100) + 0x100_0000_0000 * (value / 0x100_0000_0000 % 0x100) + 0x1_0000_0000_0000
            * (value / 0x1_0000_0000_0000 % 0x100) + 0x100_0000_0000_0000 * (value
            / 0x100_0000_0000_0000) == value,
{
}

/// Reading back the bytes of an integer, in the order they were laid out in,
/// gives the integer.
pub proof fn lemma_bytes_round_trip_u16(order: Endianness, value: u16)
    ensures
        bytes_u16(order, value).len() == 2,
        u16_of_bytes(order, bytes_u16(order, value)) == value,
{
    reveal(le_bytes_u16);
    reveal(u16_of_le_bytes);
    lemma_be_is_le_reversed_u16(value);
    lemma_sum_of_digits_u16(value);
    assert(le_bytes_u16(value).reverse().reverse() =~= le_bytes_u16(value));
}

/// Reading back the bytes of an integer, in the order they were laid out in,
/// gives the integer.
pub proof fn lemma_bytes_round_trip_u32(order: Endianness, value: u32)
    ensures
        bytes_u32(order, value).len() == 4,
        u32_of_bytes(order, bytes_u32(order, value)) == value,
{
    reveal(le_bytes_u32);
    reveal(u32_of_le_bytes);
    lemma_be_is_le_reversed_u32(value);
    lemma_sum_of_digits_u32(value);
    assert(le_bytes_u32(value).reverse().reverse() =~= le_bytes_u32(value));
}

/// Reading back the bytes of an integer, in the order they were laid out in,
/// gives the integer.
pub proof fn lemma_bytes_round_trip_u64(order: Endianness, value: u64)
    ensures
        bytes_u64(order, value).len() == 8,
        u64_of_bytes(order, bytes_u64(order, value)) == value,
{
    reveal(le_bytes_u64);
    reveal(u64_of_le_bytes);
    lemma_be_is_le_reversed_u64(value);
    lemma_sum_of_digits_u64(value);
    assert(le_bytes_u64(value).reverse().reverse() =~= le_bytes_u64(value));
}

/// The bytes of a sum of bytes, each weighted by its place, are those bytes.
proof fn lemma_digits_u16(b0: u8, b1: u8)
    by (bit_vector)
    ensures
        ({
            let x = b0 as u64 + 0x100 * (b1 as u64);
            &&& x <= 0xffff
            &&& x % 0x100 == b0 as u64
            &&& x / 0x100 == b1 as u64
        }),
{
}

/// The bytes of a sum of bytes, each weighted by its place, are those bytes.
proof fn lemma_digits_u32(b0: u8, b1: u8, b2: u8, b3: u8)
    by (bit_vector)
    ensures
        ({
            let x = b0 as u64 + 0x100 * (b1 as u64) + 0x1_0000 * (b2 as u64) + 0x100_0000 * (b3
                as u64);
            &&& x <= 0xffff_ffff
            &&& x % 0x100 == b0 as u64
            &&& x / 0x100 % 0x100 == b1 as u64
            &&& x / 0x1_0000 % 0x100 == b2 as u64
            &&& x / 0x100_0000 == b3 as u64
        }),
{
}

/// The bytes of a sum of bytes, each weighted by its place, are those bytes.
proof fn lemma_digits_u64(b0: u8, b1: u8, b2: u8, b3: u8, b4: u8, b5: u8, b6: u8, b7: u8)
    by (bit_vector)
    ensures
        ({
            let x = b0 as u64 + 0x100 * (b1 as u64) + 0x1_0000 * (b2 as u64) + 0x100_0000 * (b3
                as u64) + 0x1_0000_0000 * (b4 as u64) + 0x100_0000_0000 * (b5 as u64)
                + 0x1_0000_0000_0000 * (b6 as u64) + 0x100_0000_0000_0000 * (b7 as u64);
            &&& x <= 0xffff_ffff_ffff_ffff
            &&& x % 0x100 == b0 as u64
            &&& x / 0x100 % 0x100 == b1 as u64
            &&& x / 0x1_0000 % 0x100 == b2 as u64
            &&& x / 0x100_0000 % 0x100 == b3 as u64
            &&& x / 0x1_0000_0000 % 0x100 == b4 as u64
            &&& x / 0x100_0000_0000 % 0x100 == b5 as u64
            &&& x / 0x1_0000_0000_0000 % 0x100 == b6 as u64
            &&& x / 0x100_0000_0000_0000 == b7 as u64
        }),
{
}

/// Laying out the integer that bytes stand for gives those bytes back.
pub proof fn lemma_bytes_of_u16_of_bytes(bytes: Seq<u8>)
    requires
        bytes.len() == 2,
    ensures
        le_bytes_u16(u16_of_le_bytes(bytes)) == bytes,
{
    reveal(le_bytes_u16);
    reveal(u16_of_le_bytes);
    lemma_digits_u16(bytes[0], bytes[1]);
    assert(le_bytes_u16(u16_of_le_bytes(bytes)) =~= bytes);
}

/// Laying out the integer that bytes stand for gives those bytes back.
pub proof fn lemma_bytes_of_u32_of_bytes(bytes: Seq<u8>)
    requires
        bytes.len() == 4,
    ensures
        le_bytes_u32(u32_of_le_bytes(bytes)) == bytes,
{
    reveal(le_bytes_u32);
    reveal(u32_of_le_bytes);
    lemma_digits_u32(bytes[0], bytes[1], bytes[2], bytes[3]);
    assert(le_bytes_u32(u32_of_le_bytes(bytes)) =~= bytes);
}

/// Laying out the integer that bytes stand for gives those bytes back.
pub proof fn lemma_bytes_of_u64_of_bytes(bytes: Seq<u8>)
    requires
        bytes.len() == 8,
    ensures
        le_bytes_u64(u64_of_le_bytes(bytes)) == bytes,
{
    reveal(le_bytes_u64);
    reveal(u64_of_le_bytes);
    lemma_digits_u64(
        bytes[0],
        bytes[1],
        bytes[2],
        bytes[3],
        bytes[4],
        bytes[5],
        bytes[6],
        bytes[7],
    );
    assert(le_bytes_u64(u64_of_le_bytes(bytes)) =~= bytes);
}

/// Calls `u16::to_ne_bytes`: the bytes of an integer as the running machine
/// holds them in memory. The contract takes the machine's byte order to be
/// what vstd calls `endianness()`, and says that the result is the layout of
/// `value` in that order; nothing here proves it.
#[verifier::external_body]
pub(crate) fn native_bytes_u16(value: u16) -> (bytes: [u8; 2])
    ensures
        bytes@ == bytes_u16(Endianness::native_spec(), value),
{
    value.to_ne_bytes()
}

/// Calls `u32::to_ne_bytes`: the bytes of an integer as the running machine
/// holds them in memory. The contract says that the result is the layout of
/// `value` in the machine's byte order; nothing here proves it.
#[verifier::external_body]
pub(crate) fn native_bytes_u32(value: u32) -> (bytes: [u8; 4])
    ensures
        bytes@ == bytes_u32(Endianness::native_spec(), value),
{
    value.to_ne_bytes()
}

/// Calls `u64::to_ne_bytes`: the bytes of an integer as the running machine
/// holds them in memory. The contract says that the result is the layout of
/// `value` in the machine's byte order; nothing here proves it.
#[verifier::external_body]
pub(crate) fn native_bytes_u64(value: u64) -> (bytes: [u8; 8])
    ensures
        bytes@ == bytes_u64(Endianness::native_spec(), value),
{
    value.to_ne_bytes()
}

/// The pieces that `each` gives for the items, one after another.
pub open spec fn concat_of<T>(items: Seq<T>, each: spec_fn(T) -> Seq<u8>) -> Seq<u8> {
    items.map_values(each).flatten()
}

/// No items give no bytes.
pub proof fn lemma_concat_of_none<T>(each: spec_fn(T) -> Seq<u8>)
    ensures
        concat_of(Seq::<T>::empty(), each) == Seq::<u8>::empty(),
{
    assert(Seq::<T>::empty().map_values(each) =~= Seq::<Seq<u8>>::empty());
}

/// One more item adds its piece at the end.
pub proof fn lemma_concat_of_one_more<T>(items: Seq<T>, item: T, each: spec_fn(T) -> Seq<u8>)
    ensures
        concat_of(items.push(item), each) == concat_of(items, each) + each(item),
{
    assert(items.push(item).map_values(each) =~= items.map_values(each).push(each(item)));
    items.map_values(each).lemma_flatten_push(each(item));
}

/// Pieces of one length take that length times their number.
pub proof fn lemma_concat_of_equal_pieces<T>(
    items: Seq<T>,
    each: spec_fn(T) -> Seq<u8>,
    width: nat,
)
    requires
        forall|i: int| 0 <= i < items.len() ==> (#[trigger] each(items[i])).len() == width,
    ensures
        concat_of(items, each).len() == items.len() * width,
    decreases items.len(),
{
    if items.len() == 0 {
        assert(items =~= Seq::<T>::empty());
        lemma_concat_of_none(each);
    } else {
        let front = items.drop_last();
        assert(items =~= front.push(items.last()));
        assert forall|i: int| 0 <= i < front.len() implies (#[trigger] each(front[i])).len()
            == width by {
            assert(front[i] == items[i]);
        }
        lemma_concat_of_equal_pieces(front, each, width);
        lemma_concat_of_one_more(front, items.last(), each);
        assert(each(items[items.len() - 1]).len() == width);
        assert((front.len() + 1) * width == front.len() * width + width) by (nonlinear_arith);
    }
}

/// The bit pattern of `value` as an unsigned integer of the same width.
pub fn bits_i8(value: i8) -> (bits: u8)
    ensures
        bits == bits_of_i8(value),
{
    let bits = value as u8;
    assert(bits == bits_of_i8(value)) by (bit_vector)
        requires
            bits == value as u8,
    ;
    bits
}

/// The bit pattern of `value` as an unsigned integer of the same width.
pub fn bits_i16(value: i16) -> (bits: u16)
    ensures
        bits == bits_of_i16(value),
{
    let bits = value as u16;
    assert(bits == bits_of_i16(value)) by (bit_vector)
        requires
            bits == value as u16,
    ;
    bits
}

/// The bit pattern of `value` as an unsigned integer of the same width.
pub fn bits_i32(value: i32) -> (bits: u32)
    ensures
        bits == bits_of_i32(value),
{
    let bits = value as u32;
    assert(bits == bits_of_i32(value)) by (bit_vector)
        requires
            bits == value as u32,
    ;
    bits
}

/// The bit pattern of `value` as an unsigned integer of the same width.
pub fn bits_i64(value: i64) -> (bits: u64)
    ensures
        bits == bits_of_i64(value),
{
    let bits = value as u64;
    assert(bits == bits_of_i64(value)) by (bit_vector)
        requires
            bits == value as u64,
    ;
    bits
}

/// The memory image of a sequence of `u8`: one byte for each value, in
/// order.
pub fn native_image_u8(slice: &[u8]) -> (bytes: Vec<u8>)
    ensures
        bytes@ == concat_of(slice@, |value: u8| seq![value]),
        bytes@.len() == slice@.len() * 1,
{
    let mut bytes: Vec<u8> = Vec::new();
    let ghost each = |value: u8| seq![value];
    proof {
        lemma_concat_of_none(each);
    }
    for value in taken: slice.iter()
        invariant
            each == |value: u8| seq![value],
            bytes@ == concat_of(slice@.take(taken.index()), each),
    {
        let ghost sofar = bytes@;
        bytes.push(*value);
        proof {
            let done = slice@.take(taken.index());
            assert(slice@.take(taken.index() + 1) =~= done.push(*value));
            lemma_concat_of_one_more(done, *value, each);
            assert(bytes@ =~= sofar + each(*value));
        }
    }
    assert(slice@.take(slice@.len() as int) =~= slice@);
    proof {
        lemma_concat_of_equal_pieces(slice@, each, 1);
    }
    bytes
}

/// The memory image of a sequence of `i8`: one byte for each value, in
/// order.
pub fn native_image_i8(slice: &[i8]) -> (bytes: Vec<u8>)
    ensures
        bytes@ == concat_of(slice@, |value: i8| seq![bits_of_i8(value)]),
        bytes@.len() == slice@.len() * 1,
{
    let mut bytes: Vec<u8> = Vec::new();
    let ghost each = |value: i8| seq![bits_of_i8(value)];
    proof {
        lemma_concat_of_none(each);
    }
    for value in taken: slice.iter()
        invariant
            each == |value: i8| seq![bits_of_i8(value)],
            bytes@ == concat_of(slice@.take(taken.index()), each),
    {
        let ghost sofar = bytes@;
        bytes.push(bits_i8(*value));
        proof {
            let done = slice@.take(taken.index());
            assert(slice@.take(taken.index() + 1) =~= done.push(*value));
            lemma_concat_of_one_more(done, *value, each);
            assert(bytes@ =~= sofar + each(*value));
        }
    }
    assert(slice@.take(slice@.len() as int) =~= slice@);
    proof {
        lemma_concat_of_equal_pieces(slice@, each, 1);
    }
    bytes
}

/// The memory image of a sequence of `u16`: each value as the machine holds
/// it, one after another.
pub fn native_image_u16(slice: &[u16]) -> (bytes: Vec<u8>)
    ensures
        bytes@ == concat_of(
            slice@,
            |value: u16| bytes_u16(Endianness::native_spec(), value),
        ),
        bytes@.len() == slice@.len() * 2,
{
    let mut bytes: Vec<u8> = Vec::new();
    let ghost each = |value: u16| bytes_u16(Endianness::native_spec(), value);
    proof {
        lemma_concat_of_none(each);
    }
    for value in taken: slice.iter()
        invariant
            each == |value: u16| bytes_u16(Endianness::native_spec(), value),
            bytes@ == concat_of(slice@.take(taken.index()), each),
    {
        let ghost sofar = bytes@;
        let image = native_bytes_u16(*value);
        bytes.extend_from_slice(&image);
        proof {
            let done = slice@.take(taken.index());
            assert(slice@.take(taken.index() + 1) =~= done.push(*value));
            lemma_concat_of_one_more(done, *value, each);
            assert(bytes@ =~= sofar + image@);
        }
    }
    assert(slice@.take(slice@.len() as int) =~= slice@);
    proof {
        assert forall|i: int| 0 <= i < slice@.len() implies (#[trigger] each(slice@[i])).len()
            == 2 by {
            lemma_be_is_le_reversed_u16(slice@[i]);
        }
        lemma_concat_of_equal_pieces(slice@, each, 2);
    }
    bytes
}

/// The memory image of a sequence of `i16`: each value as the machine holds
/// it, one after another.
pub fn native_image_i16(slice: &[i16]) -> (bytes: Vec<u8>)
    ensures
        bytes@ == concat_of(
            slice@,
            |value: i16| bytes_u16(Endianness::native_spec(), bits_of_i16(value)),
        ),
        bytes@.len() == slice@.len() * 2,
{
    let mut bytes: Vec<u8> = Vec::new();
    let ghost each = |value: i16| bytes_u16(Endianness::native_spec(), bits_of_i16(value));
    proof {
        lemma_concat_of_none(each);
    }
    for value in taken: slice.iter()
        invariant
            each == |value: i16| bytes_u16(Endianness::native_spec(), bits_of_i16(value)),
            bytes@ == concat_of(slice@.take(taken.index()), each),
    {
        let ghost sofar = bytes@;
        let image = native_bytes_u16(bits_i16(*value));
        bytes.extend_from_slice(&image);
        proof {
            let done = slice@.take(taken.index());
            assert(slice@.take(taken.index() + 1) =~= done.push(*value));
            lemma_concat_of_one_more(done, *value, each);
            assert(bytes@ =~= sofar + image@);
        }
    }
    assert(slice@.take(slice@.len() as int) =~= slice@);
    proof {
        assert forall|i: int| 0 <= i < slice@.len() implies (#[trigger] each(slice@[i])).len()
            == 2 by {
            lemma_be_is_le_reversed_u16(bits_of_i16(slice@[i]));
        }
        lemma_concat_of_equal_pieces(slice@, each, 2);
    }
    bytes
}

/// The memory image of a sequence of `u32`: each value as the machine holds
/// it, one after another.
pub fn native_image_u32(slice: &[u32]) -> (bytes: Vec<u8>)
    ensures
        bytes@ == concat_of(
            slice@,
            |value: u32| bytes_u32(Endianness::native_spec(), value),
        ),
        bytes@.len() == slice@.len() * 4,
{
    let mut bytes: Vec<u8> = Vec::new();
    let ghost each = |value: u32| bytes_u32(Endianness::native_spec(), value);
    proof {
        lemma_concat_of_none(each);
    }
    for value in taken: slice.iter()
        invariant
            each == |value: u32| bytes_u32(Endianness::native_spec(), value),
            bytes@ == concat_of(slice@.take(taken.index()), each),
    {
        let ghost sofar = bytes@;
        let image = native_bytes_u32(*value);
        bytes.extend_from_slice(&image);
        proof {
            let done = slice@.take(taken.index());
            assert(slice@.take(taken.index() + 1) =~= done.push(*value));
            lemma_concat_of_one_more(done, *value, each);
            assert(bytes@ =~= sofar + image@);
        }
    }
    assert(slice@.take(slice@.len() as int) =~= slice@);
    proof {
        assert forall|i: int| 0 <= i < slice@.len() implies (#[trigger] each(slice@[i])).len()
            == 4 by {
            lemma_be_is_le_reversed_u32(slice@[i]);
        }
        lemma_concat_of_equal_pieces(slice@, each, 4);
    }
    bytes
}

/// The memory image of a sequence of `i32`: each value as the machine holds
/// it, one after another.
pub fn native_image_i32(slice: &[i32]) -> (bytes: Vec<u8>)
    ensures
        bytes@ == concat_of(
            slice@,
            |value: i32| bytes_u32(Endianness::native_spec(), bits_of_i32(value)),
        ),
        bytes@.len() == slice@.len() * 4,
{
    let mut bytes: Vec<u8> = Vec::new();
    let ghost each = |value: i32| bytes_u32(Endianness::native_spec(), bits_of_i32(value));
    proof {
        lemma_concat_of_none(each);
    }
    for value in taken: slice.iter()
        invariant
            each == |value: i32| bytes_u32(Endianness::native_spec(), bits_of_i32(value)),
            bytes@ == concat_of(slice@.take(taken.index()), each),
    {
        let ghost sofar = bytes@;
        let image = native_bytes_u32(bits_i32(*value));
        bytes.extend_from_slice(&image);
        proof {
            let done = slice@.take(taken.index());
            assert(slice@.take(taken.index() + 1) =~= done.push(*value));
            lemma_concat_of_one_more(done, *value, each);
            assert(bytes@ =~= sofar + image@);
        }
    }
    assert(slice@.take(slice@.len() as int) =~= slice@);
    proof {
        assert forall|i: int| 0 <= i < slice@.len() implies (#[trigger] each(slice@[i])).len()
            == 4 by {
            lemma_be_is_le_reversed_u32(bits_of_i32(slice@[i]));
        }
        lemma_concat_of_equal_pieces(slice@, each, 4);
    }
    bytes
}

/// The memory image of a sequence of `u64`: each value as the machine holds
/// it, one after another.
pub fn native_image_u64(slice: &[u64]) -> (bytes: Vec<u8>)
    ensures
        bytes@ == concat_of(
            slice@,
            |value: u64| bytes_u64(Endianness::native_spec(), value),
        ),
        bytes@.len() == slice@.len() * 8,
{
    let mut bytes: Vec<u8> = Vec::new();
    let ghost each = |value: u64| bytes_u64(Endianness::native_spec(), value);
    proof {
        lemma_concat_of_none(each);
    }
    for value in taken: slice.iter()
        invariant
            each == |value: u64| bytes_u64(Endianness::native_spec(), value),
            bytes@ == concat_of(slice@.take(taken.index()), each),
    {
        let ghost sofar = bytes@;
        let image = native_bytes_u64(*value);
        bytes.extend_from_slice(&image);
        proof {
            let done = slice@.take(taken.index());
            assert(slice@.take(taken.index() + 1) =~= done.push(*value));
            lemma_concat_of_one_more(done, *value, each);
            assert(bytes@ =~= sofar + image@);
        }
    }
    assert(slice@.take(slice@.len() as int) =~= slice@);
    proof {
        assert forall|i: int| 0 <= i < slice@.len() implies (#[trigger] each(slice@[i])).len()
            == 8 by {
            lemma_be_is_le_reversed_u64(slice@[i]);
        }
        lemma_concat_of_equal_pieces(slice@, each, 8);
    }
    bytes
}

/// The memory image of a sequence of `i64`: each value as the machine holds
/// it, one after another.
pub fn native_image_i64(slice: &[i64]) -> (bytes: Vec<u8>)
    ensures
        bytes@ == concat_of(
            slice@,
            |value: i64| bytes_u64(Endianness::native_spec(), bits_of_i64(value)),
        ),
        bytes@.len() == slice@.len() * 8,
{
    let mut bytes: Vec<u8> = Vec::new();
    let ghost each = |value: i64| bytes_u64(Endianness::native_spec(), bits_of_i64(value));
    proof {
        lemma_concat_of_none(each);
    }
    for value in taken: slice.iter()
        invariant
            each == |value: i64| bytes_u64(Endianness::native_spec(), bits_of_i64(value)),
            bytes@ == concat_of(slice@.take(taken.index()), each),
    {
        let ghost sofar = bytes@;
        let image = native_bytes_u64(bits_i64(*value));
        bytes.extend_from_slice(&image);
        proof {
            let done = slice@.take(taken.index());
            assert(slice@.take(taken.index() + 1) =~= done.push(*value));
            lemma_concat_of_one_more(done, *value, each);
            assert(bytes@ =~= sofar + image@);
        }
    }
    assert(slice@.take(slice@.len() as int) =~= slice@);
    proof {
        assert forall|i: int| 0 <= i < slice@.len() implies (#[trigger] each(slice@[i])).len()
            == 8 by {
            lemma_be_is_le_reversed_u64(bits_of_i64(slice@[i]));
        }
        lemma_concat_of_equal_pieces(slice@, each, 8);
    }
    bytes
}

} // verus!
