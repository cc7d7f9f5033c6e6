//! The byte order of the wire, and the swaps that bring a value from the
//! machine's order into it.

use crate::layout::{
    be_bytes_u16, be_bytes_u32, be_bytes_u64, bytes_u16, bytes_u32, bytes_u64, le_bytes_u16,
    lemma_be_is_le_reversed_u16, lemma_be_is_le_reversed_u32, lemma_be_is_le_reversed_u64,
    lemma_bytes_of_u16_of_bytes, lemma_bytes_of_u32_of_bytes, lemma_bytes_of_u64_of_bytes,
    lemma_bytes_round_trip_u16, lemma_bytes_round_trip_u32, lemma_bytes_round_trip_u64,
    native_bytes_u16, u16_of_bytes, u16_of_le_bytes, u32_of_bytes, u32_of_le_bytes, u64_of_bytes,
    u64_of_le_bytes,
};
use vstd::prelude::*;

verus! {

/// The order in which the bytes of a multi-byte value go over the wire.
#[derive(Clone, Copy, Debug, PartialEq, Eq, Structural, Hash)]
pub enum Endianness {
    /// Least significant byte first.
    LittleEndian,
    /// Most significant byte first.
    BigEndian,
}

/// The integer whose bytes are those of `value` in the opposite order.
pub open spec fn reversed_u16(value: u16) -> u16 {
    u16_of_le_bytes(be_bytes_u16(value))
}

/// The integer whose bytes are those of `value` in the opposite order.
pub open spec fn reversed_u32(value: u32) -> u32 {
    u32_of_le_bytes(be_bytes_u32(value))
}

/// The integer whose bytes are those of `value` in the opposite order.
pub open spec fn reversed_u64(value: u64) -> u64 {
    u64_of_le_bytes(be_bytes_u64(value))
}

impl Endianness {
    /// The byte order of the machine that the program runs on.
    pub open spec fn native_spec() -> Endianness {
        match vstd::endian::endianness() {
            vstd::endian::Endian::Little => Endianness::LittleEndian,
            vstd::endian::Endian::Big => Endianness::BigEndian,
        }
    }

    /// Whether a value held in the machine's order has to be swapped to be in
    /// this one.
    pub open spec fn conversion_necessary_spec(self) -> bool {
        self != Endianness::native_spec()
    }

    /// `value` after the swap that this order asks for, if it asks for one.
    pub open spec fn swapped_u16(self, value: u16) -> u16 {
        if self.conversion_necessary_spec() {
            reversed_u16(value)
        } else {
            value
        }
    }

    /// `value` after the swap that this order asks for, if it asks for one.
    pub open spec fn swapped_u32(self, value: u32) -> u32 {
        if self.conversion_necessary_spec() {
            reversed_u32(value)
        } else {
            value
        }
    }

    /// `value` after the swap that this order asks for, if it asks for one.
    pub open spec fn swapped_u64(self, value: u64) -> u64 {
        if self.conversion_necessary_spec() {
            reversed_u64(value)
        } else {
            value
        }
    }

    /// The byte order of the machine that the program runs on, read off the
    /// memory layout of the integer one.
    pub fn native() -> (order: Endianness)
        ensures
            order == Endianness::native_spec(),
    {
        proof {
            reveal(le_bytes_u16);
            reveal(be_bytes_u16);
        }
        let probe = native_bytes_u16(1);
        if probe[0] == 1 {
            Endianness::LittleEndian
        } else {
            Endianness::BigEndian
        }
    }

    /// True if and only if this order differs from the machine's.
    #[verifier::when_used_as_spec(conversion_necessary_spec)]
    pub fn conversion_necessary(self) -> (necessary: bool)
        ensures
            necessary == self.conversion_necessary_spec(),
    {
        match (self, Endianness::native()) {
            (Endianness::LittleEndian, Endianness::LittleEndian) => false,
            (Endianness::BigEndian, Endianness::BigEndian) => false,
            _ => true,
        }
    }

    /// Reverses the bytes of `value` in place if this order differs from the
    /// machine's, and leaves it alone otherwise.
    pub fn swap_u16(self, value: &mut u16)
        ensures
            *final(value) == self.swapped_u16(*old(value)),
    {
        if self.conversion_necessary() {
            proof {
                reveal(be_bytes_u16);
                reveal(u16_of_le_bytes);
            }
            let v: u16 = *value;
            let r: u16 = (v << 8) | (v >> 8);
            assert(r == v / 0x100 + 0x100 * (v % 0x100)) by (bit_vector)
                requires
                    r == (v << 8) | (v >> 8),
            ;
            *value = r;
        }
    }

    /// Reverses the bytes of `value` in place if this order differs from the
    /// machine's, and leaves it alone otherwise.
    pub fn swap_u32(self, value: &mut u32)
        ensures
            *final(value) == self.swapped_u32(*old(value)),
    {
        if self.conversion_necessary() {
            proof {
                reveal(be_bytes_u32);
                reveal(u32_of_le_bytes);
            }
            let v: u32 = *value;
            let r: u32 = (v << 24) | ((v & 0xff00) << 8) | ((v >> 8) & 0xff00) | (v >> 24);
            assert(r == v / 0x100_0000 + 0x100 * (v / 0x1_0000 % 0x100) + 0x1_0000 * (v / 0x100
                % 0x100) + 0x100_0000 * (v % 0x100)) by (bit_vector)
                requires
                    r == (v << 24) | ((v & 0xff00) << 8) | ((v >> 8) & 0xff00) | (v >> 24),
            ;
            *value = r;
        }
    }

    /// Reverses the bytes of `value` in place if this order differs from the
    /// machine's, and leaves it alone otherwise.
    pub fn swap_u64(self, value: &mut u64)
        ensures
            *final(value) == self.swapped_u64(*old(value)),
    {
        if self.conversion_necessary() {
            proof {
                reveal(be_bytes_u64);
                reveal(u64_of_le_bytes);
            }
            let v: u64 = *value;
            let r: u64 = (v << 56) | ((v & 0xff00) << 40) | ((v & 0xff_0000) << 24) | ((v
                & 0xff00_0000) << 8) | ((v >> 8) & 0xff00_0000) | ((v >> 24) & 0xff_0000) | ((v
                >> 40) & 0xff00) | (v >> 56);
            assert(r == v / 0x100_0000_0000_0000 + 0x100 * (v / 0x1_0000_0000_0000 % 0x100)
                + 0x1_0000 * (v / 0x100_0000_0000 % 0x100) + 0x100_0000 * (v / 0x1_0000_0000
                % 0x100) + 0x1_0000_0000 * (v / 0x100_0000 % 0x100) + 0x100_0000_0000 * (v
                / 0x1_0000 % 0x100) + 0x1_0000_0000_0000 * (v / 0x100 % 0x100)
                + 0x100_0000_0000_0000 * (v % 0x100)) by (bit_vector)
                requires
                    r == (v << 56) | ((v & 0xff00) << 40) | ((v & 0xff_0000) << 24) | ((v
                        & 0xff00_0000) << 8) | ((v >> 8) & 0xff00_0000) | ((v >> 24) & 0xff_0000)
                        | ((v >> 40) & 0xff00) | (v >> 56),
            ;
            *value = r;
        }
    }
}

/// The bytes of a reversed integer are the bytes of the integer, in the
/// opposite order.
pub proof fn lemma_reversed_bytes_u16(order: Endianness, value: u16)
    ensures
        bytes_u16(order, reversed_u16(value)) == bytes_u16(order, value).reverse(),
{
    lemma_be_is_le_reversed_u16(value);
    lemma_be_is_le_reversed_u16(reversed_u16(value));
    lemma_bytes_of_u16_of_bytes(be_bytes_u16(value));
    assert(bytes_u16(order, reversed_u16(value)) =~= bytes_u16(order, value).reverse());
}

/// The bytes of a reversed integer are the bytes of the integer, in the
/// opposite order.
pub proof fn lemma_reversed_bytes_u32(order: Endianness, value: u32)
    ensures
        bytes_u32(order, reversed_u32(value)) == bytes_u32(order, value).reverse(),
{
    lemma_be_is_le_reversed_u32(value);
    lemma_be_is_le_reversed_u32(reversed_u32(value));
    lemma_bytes_of_u32_of_bytes(be_bytes_u32(value));
    assert(bytes_u32(order, reversed_u32(value)) =~= bytes_u32(order, value).reverse());
}

/// The bytes of a reversed integer are the bytes of the integer, in the
/// opposite order.
pub proof fn lemma_reversed_bytes_u64(order: Endianness, value: u64)
    ensures
        bytes_u64(order, reversed_u64(value)) == bytes_u64(order, value).reverse(),
{
    lemma_be_is_le_reversed_u64(value);
    lemma_be_is_le_reversed_u64(reversed_u64(value));
    lemma_bytes_of_u64_of_bytes(be_bytes_u64(value));
    assert(bytes_u64(order, reversed_u64(value)) =~= bytes_u64(order, value).reverse());
}

/// A value swapped for an order and then laid out as the machine holds it in
/// memory is the value laid out in that order.
pub proof fn lemma_swapped_then_native_u16(order: Endianness, value: u16)
    ensures
        bytes_u16(Endianness::native_spec(), order.swapped_u16(value)) == bytes_u16(order, value),
{
    lemma_reversed_bytes_u16(Endianness::native_spec(), value);
    lemma_be_is_le_reversed_u16(value);
    let le = bytes_u16(Endianness::LittleEndian, value);
    assert(le.reverse().reverse() =~= le);
}

/// A value swapped for an order and then laid out as the machine holds it in
/// memory is the value laid out in that order.
pub proof fn lemma_swapped_then_native_u32(order: Endianness, value: u32)
    ensures
        bytes_u32(Endianness::native_spec(), order.swapped_u32(value)) == bytes_u32(order, value),
{
    lemma_reversed_bytes_u32(Endianness::native_spec(), value);
    lemma_be_is_le_reversed_u32(value);
    let le = bytes_u32(Endianness::LittleEndian, value);
    assert(le.reverse().reverse() =~= le);
}

/// A value swapped for an order and then laid out as the machine holds it in
/// memory is the value laid out in that order.
pub proof fn lemma_swapped_then_native_u64(order: Endianness, value: u64)
    ensures
        bytes_u64(Endianness::native_spec(), order.swapped_u64(value)) == bytes_u64(order, value),
{
    lemma_reversed_bytes_u64(Endianness::native_spec(), value);
    lemma_be_is_le_reversed_u64(value);
    let le = bytes_u64(Endianness::LittleEndian, value);
    assert(le.reverse().reverse() =~= le);
}

/// Reversing the bytes of an integer twice gives the integer.
pub proof fn lemma_reversed_twice_u16(value: u16)
    ensures
        reversed_u16(reversed_u16(value)) == value,
{
    lemma_reversed_bytes_u16(Endianness::BigEndian, value);
    lemma_be_is_le_reversed_u16(value);
    let le = bytes_u16(Endianness::LittleEndian, value);
    assert(le.reverse().reverse() =~= le);
    lemma_bytes_round_trip_u16(Endianness::LittleEndian, value);
}

/// Reversing the bytes of an integer twice gives the integer.
pub proof fn lemma_reversed_twice_u32(value: u32)
    ensures
        reversed_u32(reversed_u32(value)) == value,
{
    lemma_reversed_bytes_u32(Endianness::BigEndian, value);
    lemma_be_is_le_reversed_u32(value);
    let le = bytes_u32(Endianness::LittleEndian, value);
    assert(le.reverse().reverse() =~= le);
    lemma_bytes_round_trip_u32(Endianness::LittleEndian, value);
}

/// Reversing the bytes of an integer twice gives the integer.
pub proof fn lemma_reversed_twice_u64(value: u64)
    ensures
        reversed_u64(reversed_u64(value)) == value,
{
    lemma_reversed_bytes_u64(Endianness::BigEndian, value);
    lemma_be_is_le_reversed_u64(value);
    let le = bytes_u64(Endianness::LittleEndian, value);
    assert(le.reverse().reverse() =~= le);
    lemma_bytes_round_trip_u64(Endianness::LittleEndian, value);
}

/// Swapping twice for the same order gives the value back, whichever the
/// order and whichever the machine.
pub proof fn lemma_swap_is_an_involution(order: Endianness, a: u16, b: u32, c: u64)
    ensures
        order.swapped_u16(order.swapped_u16(a)) == a,
        order.swapped_u32(order.swapped_u32(b)) == b,
        order.swapped_u64(order.swapped_u64(c)) == c,
{
    lemma_reversed_twice_u16(a);
    lemma_reversed_twice_u32(b);
    lemma_reversed_twice_u64(c);
}

/// An order equal to the machine's asks for no swap.
pub proof fn lemma_native_order_swaps_nothing(a: u16, b: u32, c: u64)
    ensures
        !Endianness::native_spec().conversion_necessary_spec(),
        Endianness::native_spec().swapped_u16(a) == a,
        Endianness::native_spec().swapped_u32(b) == b,
        Endianness::native_spec().swapped_u64(c) == c,
{
}

/// Decoding undoes encoding. A value is encoded by swapping it for the order
/// and laying it out as the machine holds it in memory; the bytes are decoded
/// by reading them as the machine would and swapping for the same order.
pub proof fn lemma_decoding_recovers_the_value(order: Endianness, a: u16, b: u32, c: u64)
    ensures
        order.swapped_u16(u16_of_bytes(Endianness::native_spec(), bytes_u16(order, a))) == a,
        order.swapped_u32(u32_of_bytes(Endianness::native_spec(), bytes_u32(order, b))) == b,
        order.swapped_u64(u64_of_bytes(Endianness::native_spec(), bytes_u64(order, c))) == c,
{
    let native = Endianness::native_spec();
    lemma_swapped_then_native_u16(order, a);
    lemma_bytes_round_trip_u16(native, order.swapped_u16(a));
    lemma_swapped_then_native_u32(order, b);
    lemma_bytes_round_trip_u32(native, order.swapped_u32(b));
    lemma_swapped_then_native_u64(order, c);
    lemma_bytes_round_trip_u64(native, order.swapped_u64(c));
    lemma_swap_is_an_involution(order, a, b, c);
}

} // verus!
