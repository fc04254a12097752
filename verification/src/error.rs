//! The error type shared by streams, readers and writers.

use vstd::prelude::*;

verus! {

/// Why a read or a write failed.
#[derive(Debug, PartialEq, Eq)]
pub enum BinaryError {
    /// More bytes were asked for than lie between the cursor and the end of
    /// the buffer.
    ReadPastEnd,
    /// A decoded 32-bit value is not a Unicode scalar value.
    InvalidChar,
    /// Decoded bytes are not valid UTF-8.
    TextEncodingError,
    /// A fault of the storage below the stream, with its description. A
    /// memory-backed stream never reports it.
    Io(String),
}

} // verus!
