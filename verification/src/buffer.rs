//! Two sinks in memory: one that grows and never refuses, and one of a fixed
//! size that refuses what does not fit.

use crate::context::Context;
use crate::writer::{Writer, WriterState};
use vstd::prelude::*;

verus! {

/// Calls `std::io::Error::from` on `std::io::ErrorKind::WriteZero`, the error
/// that std's own writers into fixed memory give when they are full. Nothing
/// is claimed of the value.
#[verifier::external_body]
fn no_room_left() -> std::io::Error {
    std::io::Error::from(std::io::ErrorKind::WriteZero)
}

/// A sink in memory that grows with what is written to it. It cannot tell
/// how much more it takes, and it never refuses.
pub struct GrowingBuffer<C: Context> {
    context: C,
    bytes: Vec<u8>,
}

impl<C: Context> GrowingBuffer<C> {
    /// An empty buffer for a session with `context`.
    pub fn new(context: C) -> (buffer: Self)
        ensures
            buffer.state() == (WriterState { written: Seq::empty(), room: None, context }),
    {
        GrowingBuffer { context, bytes: Vec::new() }
    }

    /// What was written so far.
    pub fn bytes(&self) -> (bytes: &[u8])
        ensures
            bytes@ == self.state().written,
    {
        self.bytes.as_slice()
    }

    /// Ends the session and hands out what was written.
    pub fn into_bytes(self) -> (bytes: Vec<u8>)
        ensures
            bytes@ == self.state().written,
    {
        self.bytes
    }
}

impl<C: Context> Writer<C> for GrowingBuffer<C> {
    closed spec fn state(&self) -> WriterState<C> {
        WriterState { written: self.bytes@, room: None, context: self.context }
    }

    fn write_bytes(&mut self, slice: &[u8]) -> (result: Result<(), std::io::Error>)
        ensures
            result is Ok,
    {
        let ghost before = self.bytes@;
        self.bytes.extend_from_slice(slice);
        assert(self.bytes@ =~= before + slice@);
        Ok(())
    }

    fn context(&self) -> (context: &C) {
        &self.context
    }

    fn context_mut(&mut self) -> (context: &mut C) {
        &mut self.context
    }
}

/// A sink in memory that takes a fixed number of bytes and refuses, whole,
/// any write that would go beyond.
pub struct BoundedBuffer<C: Context> {
    context: C,
    bytes: Vec<u8>,
    room: usize,
}

impl<C: Context> BoundedBuffer<C> {
    /// An empty buffer that takes `capacity` bytes, for a session with
    /// `context`.
    pub fn new(context: C, capacity: usize) -> (buffer: Self)
        ensures
            buffer.state() == (WriterState {
                written: Seq::empty(),
                room: Some(capacity as nat),
                context,
            }),
    {
        BoundedBuffer { context, bytes: Vec::new(), room: capacity }
    }

    /// What was written so far.
    pub fn bytes(&self) -> (bytes: &[u8])
        ensures
            bytes@ == self.state().written,
    {
        self.bytes.as_slice()
    }

    /// Ends the session and hands out what was written.
    pub fn into_bytes(self) -> (bytes: Vec<u8>)
        ensures
            bytes@ == self.state().written,
    {
        self.bytes
    }
}

impl<C: Context> Writer<C> for BoundedBuffer<C> {
    closed spec fn state(&self) -> WriterState<C> {
        WriterState { written: self.bytes@, room: Some(self.room as nat), context: self.context }
    }

    fn write_bytes(&mut self, slice: &[u8]) -> (result: Result<(), std::io::Error>) {
        if slice.len() <= self.room {
            let ghost before = self.bytes@;
            self.bytes.extend_from_slice(slice);
            self.room = self.room - slice.len();
            assert(self.bytes@ =~= before + slice@);
            Ok(())
        } else {
            Err(no_room_left())
        }
    }

    fn context(&self) -> (context: &C) {
        &self.context
    }

    fn context_mut(&mut self) -> (context: &mut C) {
        &mut self.context
    }

    fn can_write_at_least(&self, size: usize) -> (answer: Option<bool>)
        ensures
            answer is Some,
    {
        Some(size <= self.room)
    }
}

} // verus!
