//! Streaming adapters for the DEFLATE compression method.
//!
//! A block-oriented codec (the DEFLATE engine of the `miniz_oxide` crate) is
//! adapted to byte-stream consumers: an [`InflateReader`] drains decompressed
//! bytes out of a byte source one chunk at a time, and a [`DeflateWriter`]
//! accepts plain bytes and forwards their compressed form to a byte sink.
//! Both keep a growable staging buffer with a consumed-up-to offset, compact
//! it under a water-mark policy, and map the codec's status codes onto
//! stream-level outcomes.

use vstd::prelude::*;

pub mod miniz;
pub mod reader;
pub mod stream;
pub mod writer;

pub use miniz::MzError;
pub use reader::InflateReader;
pub use writer::DeflateWriter;

verus! {

/// How many bytes the reader asks its source for in one top-up.
pub const READ_BUFFER_SIZE: usize = 512;

/// A staging buffer is compacted only once it holds at least this many bytes in all...
pub const REDUCE_MIN_TOTAL_LEN: usize = 2048;

/// ...and only while at most this many of them are still unconsumed.
pub const REDUCE_MAX_AVAIL_LEN: usize = 1024;

/// The writer skips flushing while fewer unconsumed bytes than this are staged.
pub const WRITE_FLUSH_MIN_AVAIL: usize = 128;

/// Initial slack added to the staged length when sizing a compression step's output.
pub const WRITE_BUFFER_ADDITIONAL_SIZE: usize = 32;

/// The compression level the writer hands the codec.
pub const FLATE_LEVEL: u8 = 6;

} // verus!
