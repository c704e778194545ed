//! Panic-free, allocation-free reading of untrusted byte input.
//!
//! An [`Input`] is a read-only window over a borrowed byte buffer. A [`Reader`]
//! walks forward through an `Input`, one read at a time; every read either
//! consumes exactly what it asked for or fails with [`EndOfInput`] and leaves the
//! reader as it was. [`Input::read_all`] and [`read_all_optional`] run a parsing
//! function over a fresh reader and reject input that it left partly unread.
//!
//! Every operation here is verified never to panic, and its effect on the bytes
//! is stated over the byte sequences that the types view as.

mod complete;
mod input;
mod reader;

pub use complete::{lemma_whole_read_needs_every_byte, read_all_optional, whole_read_outcome};
pub use input::Input;
pub use reader::{
    byte_read_outcome, bytes_after_byte_reads, is_suffix_of, lemma_byte_reads_walk_the_input,
    rest_after_byte_read, EndOfInput, Reader,
};

