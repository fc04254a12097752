//! Typed reading and writing of primitive values over an in-memory byte
//! buffer, with explicit byte order.
//!
//! A [`MemoryStream`] holds bytes and a cursor. A [`BinaryReader`] decodes
//! integers, booleans, characters, strings and raw byte ranges from it; a
//! [`BinaryWriter`] encodes them into it. Every executable function carries a
//! contract over the mathematical model of the stream ([`StreamView`]) and of
//! the byte encoding ([`encode`], [`decode`]).

pub mod endian;
pub mod error;
pub mod memory;
pub mod reader;
pub mod round_trip;
pub mod text;
pub mod writer;

pub use endian::{decode, encode, Endian};
pub use error::BinaryError;
pub use reader::BinaryReader;
pub use text::PrefixWidth;
pub use writer::BinaryWriter;
pub use memory::{Backing, MemoryStream, Ownership, SeekStream, StreamView};
