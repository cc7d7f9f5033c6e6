//! What a type has to say of itself to be written.

use crate::context::Context;
use crate::endianness::Endianness;
use crate::layout::{
    bits_of_i16, bits_of_i32, bits_of_i64, bits_of_i8, bytes_u16, bytes_u32, bytes_u64,
    lemma_be_is_le_reversed_u16, lemma_be_is_le_reversed_u32, lemma_be_is_le_reversed_u64,
    lemma_concat_of_none, lemma_concat_of_one_more, native_image_i16, native_image_i32,
    native_image_i64, native_image_i8, native_image_u16, native_image_u32, native_image_u64,
    native_image_u8,
};
use crate::writer::{lemma_accept_in_two_steps, lemma_accept_nothing, Writer, WriterState};
use vstd::layout::size_of;
use vstd::prelude::*;

verus! {

/// A value that can be written to a [`Writer`].
pub trait Writable<C: Context> {
    /// The bytes that stand for this value on the wire, in the given order.
    spec fn wire(&self, order: Endianness) -> Seq<u8>;

    /// Whether the type is primitive: a scalar of fixed width that is
    /// written in one piece and that the machine holds in memory as it goes
    /// over the wire in the machine's own order.
    spec fn spec_is_primitive() -> bool;

    /// A value of a primitive type takes as many bytes on the wire as in
    /// memory, and its bytes in one order are its bytes in the other, read
    /// backwards.
    proof fn lemma_primitive_layout(&self)
        where Self: Sized
        ensures
            Self::spec_is_primitive() ==> self.wire(Endianness::LittleEndian).len() == size_of::<
                Self,
            >(),
            Self::spec_is_primitive() ==> self.wire(Endianness::BigEndian) == self.wire(
                Endianness::LittleEndian,
            ).reverse(),
    ;

    /// Writes this value through `writer`. A primitive value goes in one
    /// piece; any other may leave some of its leading bytes in the sink when
    /// it fails.
    fn write_to<W: ?Sized + Writer<C>>(&self, writer: &mut W) -> (result: Result<
        (),
        std::io::Error,
    >)
        ensures
            Self::spec_is_primitive() ==> old(writer).state().wrote_whole(
                final(writer).state(),
                result is Ok,
                self.wire(old(writer).state().order()),
            ),
            !Self::spec_is_primitive() ==> old(writer).state().wrote_leading(
                final(writer).state(),
                result is Ok,
                self.wire(old(writer).state().order()),
            ),
    ;

    /// Whether the type is primitive.
    fn speedy_is_primitive() -> (primitive: bool)
        ensures
            primitive == Self::spec_is_primitive(),
    ;

    /// The memory image of a sequence of primitive values: the wire bytes of
    /// each in the machine's order, one after another with nothing between.
    fn speedy_slice_as_bytes(slice: &[Self]) -> (bytes: Vec<u8>)
        where Self: Sized
        requires
            Self::spec_is_primitive(),
        ensures
            bytes@ == slice@.map_values(|item: Self| item.wire(Endianness::native_spec())).flatten(),
            bytes@.len() == slice@.len() * size_of::<Self>(),
    ;
}

/// The wire bytes of `items` in the given order, one item after another.
pub open spec fn wire_of_all<C: Context, T: Writable<C>>(items: Seq<T>, order: Endianness) -> Seq<
    u8,
> {
    items.map_values(|item: T| item.wire(order)).flatten()
}

/// No items take no bytes.
pub proof fn lemma_wire_of_none<C: Context, T: Writable<C>>(order: Endianness)
    ensures
        wire_of_all::<C, T>(Seq::empty(), order) == Seq::<u8>::empty(),
{
    lemma_concat_of_none(|item: T| item.wire(order));
}

/// One more item adds its bytes at the end.
pub proof fn lemma_wire_of_one_more<C: Context, T: Writable<C>>(
    items: Seq<T>,
    item: T,
    order: Endianness,
)
    ensures
        wire_of_all::<C, T>(items.push(item), order) == wire_of_all::<C, T>(items, order)
            + item.wire(order),
{
    lemma_concat_of_one_more(items, item, |item: T| item.wire(order));
}

/// The leading items take no more bytes than all of them.
pub proof fn lemma_wire_of_leading<C: Context, T: Writable<C>>(
    items: Seq<T>,
    k: int,
    order: Endianness,
)
    requires
        0 <= k <= items.len(),
    ensures
        wire_of_all::<C, T>(items.take(k), order).len() <= wire_of_all::<C, T>(items, order).len(),
    decreases items.len() - k,
{
    if k < items.len() {
        lemma_wire_of_leading::<C, T>(items, k + 1, order);
        assert(items.take(k + 1) =~= items.take(k).push(items[k]));
        lemma_wire_of_one_more::<C, T>(items.take(k), items[k], order);
    } else {
        assert(items.take(k) =~= items);
    }
}

/// `u8` is primitive: the integer, in one byte.
impl<C: Context> Writable<C> for u8 {
    open spec fn wire(&self, order: Endianness) -> Seq<u8> {
        seq![*self]
    }

    open spec fn spec_is_primitive() -> bool {
        true
    }

    proof fn lemma_primitive_layout(&self) {
        broadcast use vstd::layout::layout_of_primitives;

        let le = <u8 as Writable<C>>::wire(self, Endianness::LittleEndian);
        assert(le.reverse() =~= le);
    }

    fn write_to<W: ?Sized + Writer<C>>(&self, writer: &mut W) -> (result: Result<
        (),
        std::io::Error,
    >) {
        writer.write_u8(*self)
    }

    fn speedy_is_primitive() -> (primitive: bool) {
        true
    }

    fn speedy_slice_as_bytes(slice: &[Self]) -> (bytes: Vec<u8>) {
        broadcast use vstd::layout::layout_of_primitives;

        let bytes = native_image_u8(slice);
        assert(slice@.map_values(|value: u8| seq![value]) =~= slice@.map_values(
            |item: u8| <u8 as Writable<C>>::wire(&item, Endianness::native_spec()),
        ));
        bytes
    }
}

/// `u16` is primitive: the integer, in two bytes.
impl<C: Context> Writable<C> for u16 {
    open spec fn wire(&self, order: Endianness) -> Seq<u8> {
        bytes_u16(order, *self)
    }

    open spec fn spec_is_primitive() -> bool {
        true
    }

    proof fn lemma_primitive_layout(&self) {
        broadcast use vstd::layout::layout_of_primitives;

        lemma_be_is_le_reversed_u16(*self);
    }

    fn write_to<W: ?Sized + Writer<C>>(&self, writer: &mut W) -> (result: Result<
        (),
        std::io::Error,
    >) {
        writer.write_u16(*self)
    }

    fn speedy_is_primitive() -> (primitive: bool) {
        true
    }

    fn speedy_slice_as_bytes(slice: &[Self]) -> (bytes: Vec<u8>) {
        broadcast use vstd::layout::layout_of_primitives;

        let bytes = native_image_u16(slice);
        assert(slice@.map_values(|value: u16| bytes_u16(Endianness::native_spec(), value)) =~= slice@.map_values(
            |item: u16| <u16 as Writable<C>>::wire(&item, Endianness::native_spec()),
        ));
        bytes
    }
}

/// `u32` is primitive: the integer, in four bytes.
impl<C: Context> Writable<C> for u32 {
    open spec fn wire(&self, order: Endianness) -> Seq<u8> {
        bytes_u32(order, *self)
    }

    open spec fn spec_is_primitive() -> bool {
        true
    }

    proof fn lemma_primitive_layout(&self) {
        broadcast use vstd::layout::layout_of_primitives;

        lemma_be_is_le_reversed_u32(*self);
    }

    fn write_to<W: ?Sized + Writer<C>>(&self, writer: &mut W) -> (result: Result<
        (),
        std::io::Error,
    >) {
        writer.write_u32(*self)
    }

    fn speedy_is_primitive() -> (primitive: bool) {
        true
    }

    fn speedy_slice_as_bytes(slice: &[Self]) -> (bytes: Vec<u8>) {
        broadcast use vstd::layout::layout_of_primitives;

        let bytes = native_image_u32(slice);
        assert(slice@.map_values(|value: u32| bytes_u32(Endianness::native_spec(), value)) =~= slice@.map_values(
            |item: u32| <u32 as Writable<C>>::wire(&item, Endianness::native_spec()),
        ));
        bytes
    }
}

/// `u64` is primitive: the integer, in eight bytes.
impl<C: Context> Writable<C> for u64 {
    open spec fn wire(&self, order: Endianness) -> Seq<u8> {
        bytes_u64(order, *self)
    }

    open spec fn spec_is_primitive() -> bool {
        true
    }

    proof fn lemma_primitive_layout(&self) {
        broadcast use vstd::layout::layout_of_primitives;

        lemma_be_is_le_reversed_u64(*self);
    }

    fn write_to<W: ?Sized + Writer<C>>(&self, writer: &mut W) -> (result: Result<
        (),
        std::io::Error,
    >) {
        writer.write_u64(*self)
    }

    fn speedy_is_primitive() -> (primitive: bool) {
        true
    }

    fn speedy_slice_as_bytes(slice: &[Self]) -> (bytes: Vec<u8>) {
        broadcast use vstd::layout::layout_of_primitives;

        let bytes = native_image_u64(slice);
        assert(slice@.map_values(|value: u64| bytes_u64(Endianness::native_spec(), value)) =~= slice@.map_values(
            |item: u64| <u64 as Writable<C>>::wire(&item, Endianness::native_spec()),
        ));
        bytes
    }
}

/// `i8` is primitive: its bit pattern, in one byte.
impl<C: Context> Writable<C> for i8 {
    open spec fn wire(&self, order: Endianness) -> Seq<u8> {
        seq![bits_of_i8(*self)]
    }

    open spec fn spec_is_primitive() -> bool {
        true
    }

    proof fn lemma_primitive_layout(&self) {
        broadcast use vstd::layout::layout_of_primitives;

        let le = <i8 as Writable<C>>::wire(self, Endianness::LittleEndian);
        assert(le.reverse() =~= le);
    }

    fn write_to<W: ?Sized + Writer<C>>(&self, writer: &mut W) -> (result: Result<
        (),
        std::io::Error,
    >) {
        writer.write_i8(*self)
    }

    fn speedy_is_primitive() -> (primitive: bool) {
        true
    }

    fn speedy_slice_as_bytes(slice: &[Self]) -> (bytes: Vec<u8>) {
        broadcast use vstd::layout::layout_of_primitives;

        let bytes = native_image_i8(slice);
        assert(slice@.map_values(|value: i8| seq![bits_of_i8(value)]) =~= slice@.map_values(
            |item: i8| <i8 as Writable<C>>::wire(&item, Endianness::native_spec()),
        ));
        bytes
    }
}

/// `i16` is primitive: its bit pattern, in two bytes.
impl<C: Context> Writable<C> for i16 {
    open spec fn wire(&self, order: Endianness) -> Seq<u8> {
        bytes_u16(order, bits_of_i16(*self))
    }

    open spec fn spec_is_primitive() -> bool {
        true
    }

    proof fn lemma_primitive_layout(&self) {
        broadcast use vstd::layout::layout_of_primitives;

        lemma_be_is_le_reversed_u16(bits_of_i16(*self));
    }

    fn write_to<W: ?Sized + Writer<C>>(&self, writer: &mut W) -> (result: Result<
        (),
        std::io::Error,
    >) {
        writer.write_i16(*self)
    }

    fn speedy_is_primitive() -> (primitive: bool) {
        true
    }

    fn speedy_slice_as_bytes(slice: &[Self]) -> (bytes: Vec<u8>) {
        broadcast use vstd::layout::layout_of_primitives;

        let bytes = native_image_i16(slice);
        assert(slice@.map_values(|value: i16| bytes_u16(Endianness::native_spec(), bits_of_i16(value))) =~= slice@.map_values(
            |item: i16| <i16 as Writable<C>>::wire(&item, Endianness::native_spec()),
        ));
        bytes
    }
}

/// `i32` is primitive: its bit pattern, in four bytes.
impl<C: Context> Writable<C> for i32 {
    open spec fn wire(&self, order: Endianness) -> Seq<u8> {
        bytes_u32(order, bits_of_i32(*self))
    }

    open spec fn spec_is_primitive() -> bool {
        true
    }

    proof fn lemma_primitive_layout(&self) {
        broadcast use vstd::layout::layout_of_primitives;

        lemma_be_is_le_reversed_u32(bits_of_i32(*self));
    }

    fn write_to<W: ?Sized + Writer<C>>(&self, writer: &mut W) -> (result: Result<
        (),
        std::io::Error,
    >) {
        writer.write_i32(*self)
    }

    fn speedy_is_primitive() -> (primitive: bool) {
        true
    }

    fn speedy_slice_as_bytes(slice: &[Self]) -> (bytes: Vec<u8>) {
        broadcast use vstd::layout::layout_of_primitives;

        let bytes = native_image_i32(slice);
        assert(slice@.map_values(|value: i32| bytes_u32(Endianness::native_spec(), bits_of_i32(value))) =~= slice@.map_values(
            |item: i32| <i32 as Writable<C>>::wire(&item, Endianness::native_spec()),
        ));
        bytes
    }
}

/// `i64` is primitive: its bit pattern, in eight bytes.
impl<C: Context> Writable<C> for i64 {
    open spec fn wire(&self, order: Endianness) -> Seq<u8> {
        bytes_u64(order, bits_of_i64(*self))
    }

    open spec fn spec_is_primitive() -> bool {
        true
    }

    proof fn lemma_primitive_layout(&self) {
        broadcast use vstd::layout::layout_of_primitives;

        lemma_be_is_le_reversed_u64(bits_of_i64(*self));
    }

    fn write_to<W: ?Sized + Writer<C>>(&self, writer: &mut W) -> (result: Result<
        (),
        std::io::Error,
    >) {
        writer.write_i64(*self)
    }

    fn speedy_is_primitive() -> (primitive: bool) {
        true
    }

    fn speedy_slice_as_bytes(slice: &[Self]) -> (bytes: Vec<u8>) {
        broadcast use vstd::layout::layout_of_primitives;

        let bytes = native_image_i64(slice);
        assert(slice@.map_values(|value: i64| bytes_u64(Endianness::native_spec(), bits_of_i64(value))) =~= slice@.map_values(
            |item: i64| <i64 as Writable<C>>::wire(&item, Endianness::native_spec()),
        ));
        bytes
    }
}

/// A pair is written as its first part followed by its second. It is not
/// primitive: where the second part fails, the first is in the sink.
impl<C: Context, A: Writable<C>, B: Writable<C>> Writable<C> for (A, B) {
    open spec fn wire(&self, order: Endianness) -> Seq<u8> {
        self.0.wire(order) + self.1.wire(order)
    }

    open spec fn spec_is_primitive() -> bool {
        false
    }

    proof fn lemma_primitive_layout(&self) {
    }

    fn write_to<W: ?Sized + Writer<C>>(&self, writer: &mut W) -> (result: Result<
        (),
        std::io::Error,
    >) {
        let ghost before = writer.state();
        let ghost first = self.0.wire(before.order());
        let ghost second = self.1.wire(before.order());
        proof {
            lemma_accept_nothing(before);
            assert(first.take(0) =~= Seq::<u8>::empty());
            assert(second.take(0) =~= Seq::<u8>::empty());
        }
        match self.0.write_to(writer) {
            Ok(()) => {},
            Err(error) => {
                proof {
                    let k = choose|k: int|
                        0 <= k <= first.len() && !before.refuses(k as nat) && writer.state()
                            == #[trigger] before.accept(first.take(k));
                    assert((first + second).take(k) =~= first.take(k));
                }
                return Err(error);
            },
        }
        let ghost halfway = writer.state();
        proof {
            lemma_accept_nothing(halfway);
            lemma_accept_in_two_steps(before, first, second);
        }
        match self.1.write_to(writer) {
            Ok(()) => Ok(()),
            Err(error) => {
                proof {
                    let j = choose|j: int|
                        0 <= j <= second.len() && !halfway.refuses(j as nat) && writer.state()
                            == #[trigger] halfway.accept(second.take(j));
                    lemma_accept_in_two_steps(before, first, second.take(j));
                    assert((first + second).take(first.len() + j) =~= first + second.take(j));
                }
                Err(error)
            },
        }
    }

    fn speedy_is_primitive() -> (primitive: bool) {
        false
    }

    /// Never to be called: a pair is not primitive.
    fn speedy_slice_as_bytes(slice: &[Self]) -> (bytes: Vec<u8>) {
        Vec::new()
    }
}

} // verus!
