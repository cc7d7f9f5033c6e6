//! The sink that accepts bytes, and the fixed-width writes built on it.

use crate::context::Context;
use crate::endianness::{
    lemma_swapped_then_native_u16, lemma_swapped_then_native_u32, lemma_swapped_then_native_u64,
    Endianness,
};
use crate::layout::{
    bits_i16, bits_i32, bits_i64, bits_i8, bits_of_i16, bits_of_i32, bits_of_i64, bits_of_i8,
    bytes_u16, bytes_u32, bytes_u64, native_bytes_u16, native_bytes_u32, native_bytes_u64,
};
use crate::writable::{
    lemma_wire_of_leading, lemma_wire_of_none, lemma_wire_of_one_more, wire_of_all, Writable,
};
use vstd::layout::size_of;
use vstd::prelude::*;
use vstd::std_specs::iter::IteratorSpec;

verus! {

/// `std::io::Error`, which a sink reports a refused write with. Nothing is
/// known of what a value of it holds.
#[verifier::external_type_specification]
#[verifier::external_body]
pub struct ExIoError(std::io::Error);

/// What can be seen of a writer from outside.
pub struct WriterState<C> {
    /// The bytes that the sink has accepted so far, in the order it got them.
    pub written: Seq<u8>,
    /// How many more bytes the sink accepts, where it can tell: with
    /// `Some(n)` a write of up to `n` bytes succeeds and a longer one fails.
    pub room: Option<nat>,
    /// The context that the writer holds.
    pub context: C,
}

impl<C> WriterState<C> {
    /// Whether the sink is certain to refuse `len` more bytes.
    pub open spec fn refuses(self, len: nat) -> bool {
        self.room matches Some(n) && len > n
    }

    /// The state after the sink has accepted `bytes`.
    pub open spec fn accept(self, bytes: Seq<u8>) -> Self {
        WriterState {
            written: self.written + bytes,
            room: match self.room {
                Some(n) => Some(
                    if bytes.len() <= n {
                        (n - bytes.len()) as nat
                    } else {
                        0
                    },
                ),
                None => None,
            },
            context: self.context,
        }
    }

    /// A write of `bytes` that takes all of them or none: `after` is the
    /// state that it leaves and `ok` says whether it succeeded. Where the
    /// sink can tell its room, the room decides.
    pub open spec fn wrote_whole(self, after: Self, ok: bool, bytes: Seq<u8>) -> bool {
        &&& ok ==> after == self.accept(bytes)
        &&& !ok ==> after == self
        &&& self.room is Some ==> (ok <==> !self.refuses(bytes.len()))
    }

    /// A write of `bytes` in several steps that stops at the first refusal:
    /// on failure the sink has some of the leading bytes.
    pub open spec fn wrote_leading(self, after: Self, ok: bool, bytes: Seq<u8>) -> bool {
        &&& ok ==> after == self.accept(bytes)
        &&& !ok ==> exists|k: int|
            0 <= k <= bytes.len() && !self.refuses(k as nat) && after == #[trigger] self.accept(
                bytes.take(k),
            )
        &&& self.room is Some ==> (ok <==> !self.refuses(bytes.len()))
    }
}

impl<C: Context> WriterState<C> {
    /// The byte order that the writer is configured with.
    pub open spec fn order(self) -> Endianness {
        self.context.spec_endianness()
    }
}

/// A sink for bytes together with the context of the session.
///
/// An implementation supplies `write_bytes`, `context` and `context_mut`;
/// every other operation is built from these. A sink takes the bytes of one
/// `write_bytes` call whole or not at all.
pub trait Writer<C: Context> {
    /// What can be seen of this writer from outside.
    spec fn state(&self) -> WriterState<C>;

    /// Hands `slice` to the sink.
    fn write_bytes(&mut self, slice: &[u8]) -> (result: Result<(), std::io::Error>)
        ensures
            old(self).state().wrote_whole(final(self).state(), result is Ok, slice@),
    ;

    /// The context of the session.
    fn context(&self) -> (context: &C)
        ensures
            *context == self.state().context,
    ;

    /// The context of the session, to change it.
    fn context_mut(&mut self) -> (context: &mut C)
        ensures
            *context == old(self).state().context,
            final(self).state() == (WriterState { context: *final(context), ..old(self).state() }),
    ;

    /// Whether the sink takes `size` more bytes, where it can tell without
    /// trying. A sink that cannot tell answers `None`, and so does every sink
    /// that does not say otherwise.
    fn can_write_at_least(&self, size: usize) -> (answer: Option<bool>)
        ensures
            answer matches Some(enough) ==> self.state().room is Some && enough
                == !self.state().refuses(size as nat),
        default_ensures
            answer is None,
    {
        None
    }

    /// Writes one byte.
    fn write_u8(&mut self, value: u8) -> (result: Result<(), std::io::Error>)
        ensures
            old(self).state().wrote_whole(final(self).state(), result is Ok, seq![value]),
    {
        let bytes: [u8; 1] = [value];
        assert(bytes@ =~= seq![value]);
        self.write_bytes(&bytes)
    }

    /// Writes the two bytes of `value` in the configured order.
    fn write_u16(&mut self, value: u16) -> (result: Result<(), std::io::Error>)
        ensures
            old(self).state().wrote_whole(
                final(self).state(),
                result is Ok,
                bytes_u16(old(self).state().order(), value),
            ),
    {
        let mut swapped = value;
        self.context().endianness().swap_u16(&mut swapped);
        let bytes = native_bytes_u16(swapped);
        proof {
            lemma_swapped_then_native_u16(self.state().order(), value);
        }
        self.write_bytes(&bytes)
    }

    /// Writes the four bytes of `value` in the configured order.
    fn write_u32(&mut self, value: u32) -> (result: Result<(), std::io::Error>)
        ensures
            old(self).state().wrote_whole(
                final(self).state(),
                result is Ok,
                bytes_u32(old(self).state().order(), value),
            ),
    {
        let mut swapped = value;
        self.context().endianness().swap_u32(&mut swapped);
        let bytes = native_bytes_u32(swapped);
        proof {
            lemma_swapped_then_native_u32(self.state().order(), value);
        }
        self.write_bytes(&bytes)
    }

    /// Writes the eight bytes of `value` in the configured order.
    fn write_u64(&mut self, value: u64) -> (result: Result<(), std::io::Error>)
        ensures
            old(self).state().wrote_whole(
                final(self).state(),
                result is Ok,
                bytes_u64(old(self).state().order(), value),
            ),
    {
        let mut swapped = value;
        self.context().endianness().swap_u64(&mut swapped);
        let bytes = native_bytes_u64(swapped);
        proof {
            lemma_swapped_then_native_u64(self.state().order(), value);
        }
        self.write_bytes(&bytes)
    }

    /// Writes the bit pattern of `value` as one byte.
    fn write_i8(&mut self, value: i8) -> (result: Result<(), std::io::Error>)
        ensures
            old(self).state().wrote_whole(
                final(self).state(),
                result is Ok,
                seq![bits_of_i8(value)],
            ),
    {
        self.write_u8(bits_i8(value))
    }

    /// Writes the bit pattern of `value` as two bytes in the configured order.
    fn write_i16(&mut self, value: i16) -> (result: Result<(), std::io::Error>)
        ensures
            old(self).state().wrote_whole(
                final(self).state(),
                result is Ok,
                bytes_u16(old(self).state().order(), bits_of_i16(value)),
            ),
    {
        self.write_u16(bits_i16(value))
    }

    /// Writes the bit pattern of `value` as four bytes in the configured
    /// order.
    fn write_i32(&mut self, value: i32) -> (result: Result<(), std::io::Error>)
        ensures
            old(self).state().wrote_whole(
                final(self).state(),
                result is Ok,
                bytes_u32(old(self).state().order(), bits_of_i32(value)),
            ),
    {
        self.write_u32(bits_i32(value))
    }

    /// Writes the bit pattern of `value` as eight bytes in the configured
    /// order.
    fn write_i64(&mut self, value: i64) -> (result: Result<(), std::io::Error>)
        ensures
            old(self).state().wrote_whole(
                final(self).state(),
                result is Ok,
                bytes_u64(old(self).state().order(), bits_of_i64(value)),
            ),
    {
        self.write_u64(bits_i64(value))
    }

    /// The byte order that the writer is configured with.
    fn endianness(&self) -> (order: Endianness)
        ensures
            order == self.state().order(),
    {
        self.context().endianness()
    }
}

/// Accepting two pieces, one after the other, is accepting both at once.
pub proof fn lemma_accept_in_two_steps<C>(state: WriterState<C>, first: Seq<u8>, second: Seq<u8>)
    requires
        !state.refuses(first.len()),
    ensures
        state.accept(first).accept(second) == state.accept(first + second),
        state.accept(first).refuses(second.len()) == state.refuses((first + second).len()),
{
    assert((state.written + first) + second =~= state.written + (first + second));
}

/// Accepting nothing changes nothing.
pub proof fn lemma_accept_nothing<C>(state: WriterState<C>)
    ensures
        state.accept(Seq::empty()) == state,
        !state.refuses(0),
{
    assert(state.written + Seq::<u8>::empty() =~= state.written);
}

/// What writing one `item` does: after a primitive item the sink has all of
/// its bytes or none, after any other it may have some of its leading bytes
/// when the write failed.
pub open spec fn wrote_item<C: Context, T: Writable<C>>(
    before: WriterState<C>,
    after: WriterState<C>,
    ok: bool,
    item: T,
) -> bool {
    let bytes = item.wire(before.order());
    if T::spec_is_primitive() {
        before.wrote_whole(after, ok, bytes)
    } else {
        before.wrote_leading(after, ok, bytes)
    }
}

/// A failed write of `items`, one by one, that stopped in the item at index
/// `k`: the items before it are in the sink, in order and whole, the write of
/// that item failed, and no later item was touched.
pub open spec fn stopped_in<C: Context, T: Writable<C>>(
    before: WriterState<C>,
    after: WriterState<C>,
    items: Seq<T>,
    k: int,
) -> bool {
    let done = wire_of_all::<C, T>(items.take(k), before.order());
    &&& 0 <= k < items.len()
    &&& !before.refuses(done.len())
    &&& wrote_item(before.accept(done), after, false, items[k])
}

/// What writing `items` one by one does: on success the sink has the bytes
/// of all of them, in order; on failure the write stopped in the first item
/// that the sink refused. Where the sink can tell its room, the write
/// succeeds if and only if the bytes of all items fit.
pub open spec fn wrote_items<C: Context, T: Writable<C>>(
    before: WriterState<C>,
    after: WriterState<C>,
    ok: bool,
    items: Seq<T>,
) -> bool {
    let bytes = wire_of_all::<C, T>(items, before.order());
    &&& ok ==> after == before.accept(bytes)
    &&& !ok ==> exists|k: int| stopped_in(before, after, items, k)
    &&& before.room is Some ==> (ok <==> !before.refuses(bytes.len()))
}

/// Whether a sequence of `T` goes to the sink in one piece under `order`: the
/// type is primitive, and either one byte wide or in no need of a swap.
pub open spec fn goes_in_bulk<C: Context, T: Writable<C>>(order: Endianness) -> bool {
    T::spec_is_primitive() && (size_of::<T>() == 1 || !order.conversion_necessary_spec())
}

/// What writing a slice of `items` does: a sequence that goes in bulk is
/// taken whole or not at all, any other is written item by item.
pub open spec fn wrote_slice<C: Context, T: Writable<C>>(
    before: WriterState<C>,
    after: WriterState<C>,
    ok: bool,
    items: Seq<T>,
) -> bool {
    if goes_in_bulk::<C, T>(before.order()) {
        before.wrote_whole(after, ok, wire_of_all::<C, T>(items, before.order()))
    } else {
        wrote_items(before, after, ok, items)
    }
}

/// Where a sequence goes in bulk, its memory image is what writing the items
/// one by one would give.
pub proof fn lemma_bulk_image_is_wire<C: Context, T: Writable<C>>(
    items: Seq<T>,
    order: Endianness,
)
    requires
        goes_in_bulk::<C, T>(order),
    ensures
        wire_of_all::<C, T>(items, Endianness::native_spec()) == wire_of_all::<C, T>(items, order),
{
    let native = Endianness::native_spec();
    assert forall|i: int| 0 <= i < items.len() implies (#[trigger] items[i]).wire(native)
        == items[i].wire(order) by {
        if order != native {
            items[i].lemma_primitive_layout();
            let le = items[i].wire(Endianness::LittleEndian);
            assert(le.reverse() =~= le);
        }
    }
    assert(items.map_values(|item: T| item.wire(native)) =~= items.map_values(
        |item: T| item.wire(order),
    ));
}

/// A slice that was written whole is in the sink exactly as if its items had
/// been written one by one, whether it went in bulk or not, whatever the
/// width of the items and whatever the configured order.
pub proof fn lemma_slice_is_written_as_its_items<C: Context, T: Writable<C>>(
    before: WriterState<C>,
    by_slice: WriterState<C>,
    by_items: WriterState<C>,
    items: Seq<T>,
)
    requires
        wrote_slice(before, by_slice, true, items),
        wrote_items(before, by_items, true, items),
    ensures
        by_slice == by_items,
        by_slice.written == before.written + wire_of_all::<C, T>(items, before.order()),
{
}

/// Writing no items succeeds and hands the sink nothing.
pub proof fn lemma_writing_no_items<C: Context, T: Writable<C>>(
    before: WriterState<C>,
    after: WriterState<C>,
    ok: bool,
)
    requires
        wrote_items(before, after, ok, Seq::<T>::empty()),
    ensures
        ok,
        after == before,
{
    lemma_wire_of_none::<C, T>(before.order());
    lemma_accept_nothing(before);
}

/// After a failed write of items one by one, the sink has the bytes of the
/// items before the one whose write failed, whole and in order, then some of
/// the leading bytes of that one, and no byte of a later item. Of a
/// primitive item that fails it has nothing.
pub proof fn lemma_failure_keeps_the_items_before<C: Context, T: Writable<C>>(
    before: WriterState<C>,
    after: WriterState<C>,
    items: Seq<T>,
)
    requires
        wrote_items(before, after, false, items),
    ensures
        exists|k: int, j: int|
            {
                &&& 0 <= k < items.len()
                &&& 0 <= j <= items[k].wire(before.order()).len()
                &&& T::spec_is_primitive() ==> j == 0
                &&& after.written == before.written + #[trigger] wire_of_all::<C, T>(
                    items.take(k),
                    before.order(),
                ) + #[trigger] items[k].wire(before.order()).take(j)
            },
{
    let order = before.order();
    let k = choose|k: int| stopped_in(before, after, items, k);
    let done = wire_of_all::<C, T>(items.take(k), order);
    let bytes = items[k].wire(order);
    let reached = before.accept(done);
    if T::spec_is_primitive() {
        assert(bytes.take(0) =~= Seq::<u8>::empty());
        assert(after.written =~= before.written + done + bytes.take(0));
    } else {
        let j = choose|j: int|
            0 <= j <= bytes.len() && !reached.refuses(j as nat) && after == #[trigger] reached.accept(
                bytes.take(j),
            );
        assert(after.written =~= before.written + done + bytes.take(j));
    }
}

/// After a failed write of a slice of primitive items, the sink has the
/// bytes of some of the leading items, whole and in order, and nothing else:
/// none where the slice went in bulk, else those before the item whose write
/// failed.
pub proof fn lemma_failed_slice_keeps_leading_items<C: Context, T: Writable<C>>(
    before: WriterState<C>,
    after: WriterState<C>,
    items: Seq<T>,
)
    requires
        T::spec_is_primitive(),
        wrote_slice(before, after, false, items),
    ensures
        exists|k: int|
            0 <= k <= items.len() && after.written == before.written + #[trigger] wire_of_all::<
                C,
                T,
            >(items.take(k), before.order()),
{
    let order = before.order();
    if goes_in_bulk::<C, T>(order) {
        assert(items.take(0) =~= Seq::<T>::empty());
        lemma_wire_of_none::<C, T>(order);
        assert(after.written =~= before.written + wire_of_all::<C, T>(items.take(0), order));
    } else {
        let k = choose|k: int| stopped_in(before, after, items, k);
        assert(after.written == before.written + wire_of_all::<C, T>(items.take(k), order));
    }
}

/// Writing values of any writable type, built on [`Writer`]. Every writer has
/// these operations. They stand apart from `Writer` because a writable type
/// is written through a `Writer`, and these in turn write writable types.
pub trait WriterExt<C: Context>: Writer<C> {
    /// Writes `item` as its type says.
    fn write_value<T: Writable<C>>(&mut self, item: &T) -> (result: Result<(), std::io::Error>)
        ensures
            wrote_item(old(self).state(), final(self).state(), result is Ok, *item),
    {
        item.write_to(self)
    }

    /// Writes the items of `slice` in order. A sequence that goes in bulk is
    /// handed to the sink as one piece, which it takes whole or not at all;
    /// any other is written item by item.
    fn write_slice<T: Writable<C>>(&mut self, slice: &[T]) -> (result: Result<(), std::io::Error>)
        ensures
            wrote_slice(old(self).state(), final(self).state(), result is Ok, slice@),
    {
        let ghost before = self.state();
        let ghost order = before.order();
        if T::speedy_is_primitive() && (core::mem::size_of::<T>() == 1
            || !self.endianness().conversion_necessary()) {
            let bytes = T::speedy_slice_as_bytes(slice);
            proof {
                lemma_bulk_image_is_wire::<C, T>(slice@, order);
            }
            self.write_bytes(bytes.as_slice())
        } else {
            proof {
                lemma_wire_of_none::<C, T>(order);
                lemma_accept_nothing(before);
            }
            for item in taken: slice.iter()
                invariant
                    before == old(self).state(),
                    before.order() == order,
                    !goes_in_bulk::<C, T>(order),
                    !before.refuses(wire_of_all::<C, T>(slice@.take(taken.index()), order).len()),
                    self.state() == before.accept(
                        wire_of_all::<C, T>(slice@.take(taken.index()), order),
                    ),
            {
                let ghost k = taken.index();
                let ghost done = wire_of_all::<C, T>(slice@.take(k), order);
                proof {
                    assert(slice@.take(k + 1) =~= slice@.take(k).push(*item));
                    lemma_wire_of_one_more::<C, T>(slice@.take(k), *item, order);
                    lemma_accept_in_two_steps(before, done, item.wire(order));
                    lemma_wire_of_leading::<C, T>(slice@, k + 1, order);
                }
                match self.write_value(item) {
                    Ok(()) => {},
                    Err(error) => {
                        assert(stopped_in(before, self.state(), slice@, k));
                        return Err(error);
                    },
                }
            }
            assert(slice@.take(slice@.len() as int) =~= slice@);
            Ok(())
        }
    }

    /// Writes the items that `collection` yields, each once and in the order
    /// in which they come, and stops at the first that fails. The items are
    /// those that the iterator has left to yield when it is handed over.
    fn write_collection<T: Writable<C>, I: Iterator<Item = T>>(&mut self, collection: I) -> (result:
        Result<(), std::io::Error>)
        requires
            collection.obeys_prophetic_iter_laws(),
            collection.decrease() is Some,
        ensures
            wrote_items(old(self).state(), final(self).state(), result is Ok, collection.remaining()),
    {
        let ghost before = self.state();
        let ghost order = before.order();
        let ghost items = collection.remaining();
        let ghost mut taken: Seq<T> = Seq::empty();
        let mut rest = collection;
        proof {
            lemma_wire_of_none::<C, T>(order);
            lemma_accept_nothing(before);
        }
        loop
            invariant
                before == old(self).state(),
                before.order() == order,
                items == collection.remaining(),
                rest.obeys_prophetic_iter_laws(),
                rest.decrease() is Some,
                items == taken + rest.remaining(),
                !before.refuses(wire_of_all::<C, T>(taken, order).len()),
                self.state() == before.accept(wire_of_all::<C, T>(taken, order)),
            decreases rest.decrease()->0,
        {
            let ghost left = rest.remaining();
            match rest.next() {
                Some(item) => {
                    let ghost k = taken.len() as int;
                    let ghost done = wire_of_all::<C, T>(taken, order);
                    proof {
                        assert(taken.push(item) + rest.remaining() =~= taken + left);
                        assert(items.take(k) =~= taken);
                        assert(items.take(k + 1) =~= taken.push(item));
                        lemma_wire_of_one_more::<C, T>(taken, item, order);
                        lemma_accept_in_two_steps(before, done, item.wire(order));
                        lemma_wire_of_leading::<C, T>(items, k + 1, order);
                    }
                    match item.write_to(self) {
                        Ok(()) => {},
                        Err(error) => {
                            assert(stopped_in(before, self.state(), items, k));
                            return Err(error);
                        },
                    }
                    proof {
                        taken = taken.push(item);
                    }
                },
                None => {
                    assert(items =~= taken);
                    return Ok(());
                },
            }
        }
    }
}

impl<C: Context, W: Writer<C> + ?Sized> WriterExt<C> for W {

}

} // verus!
