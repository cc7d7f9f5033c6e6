//! The write side of a binary serialization library: a sink that accepts bytes,
//! fixed-width integer encoding in a configurable byte order, and a bulk path
//! for sequences of values whose memory image already is their wire format.

pub mod buffer;
pub mod context;
pub mod endianness;
pub mod layout;
pub mod writable;
pub mod writer;

pub use crate::buffer::{BoundedBuffer, GrowingBuffer};
pub use crate::context::Context;
pub use crate::endianness::Endianness;
pub use crate::writable::Writable;
pub use crate::writer::{Writer, WriterExt, WriterState};
