//! The typed reader: decodes values from a stream under a byte order.

use crate::endian::{
    decode, decode_signed, decode_unsigned, from_twos_complement, lemma_pow256_values,
    lemma_word_bytes, pow256, word_bytes, word_width, Endian,
};
use crate::error::BinaryError;
use crate::memory::{Backing, MemoryStream, SeekStream};
use crate::text::{big_string_at, decode_text, is_scalar_value, string_at, PrefixWidth};
use vstd::prelude::*;

verus! {

/// Decodes typed values from a [`MemoryStream`].
///
/// Every read starts at the cursor of the stream and moves it past what was
/// read. A read that finds too few bytes fails with
/// [`BinaryError::ReadPastEnd`] and leaves the cursor where it was.
pub struct BinaryReader<'a> {
    /// The stream that is read.
    pub stream: MemoryStream<'a>,
    /// The byte order under which the next value is decoded.
    pub endian: Endian,
    /// The width of the length prefix that `read_string` expects.
    pub prefix: PrefixWidth,
}

impl<'a> BinaryReader<'a> {
    /// `after` is this reader with its cursor at `position` and nothing else
    /// changed: the same bytes, the same byte order, the same prefix width.
    pub open spec fn moved_to(self, after: Self, position: nat) -> bool {
        &&& after.stream.backing == self.stream.backing
        &&& after.stream.position == position
        &&& after.endian == self.endian
        &&& after.prefix == self.prefix
    }

    /// `after` is this reader once `width` bytes were asked for at the
    /// cursor: moved past them when they were there, unchanged when not.
    pub open spec fn after_taking(self, after: Self, width: nat) -> bool {
        self.moved_to(
            after,
            if self.stream@.readable(width) {
                self.stream@.position + width
            } else {
                self.stream@.position
            },
        )
    }

    /// This reader with its cursor moved to `position`.
    pub open spec fn sought(self, position: usize) -> Self {
        BinaryReader {
            stream: MemoryStream { backing: self.stream.backing, position },
            endian: self.endian,
            prefix: self.prefix,
        }
    }

    /// The unsigned value that the `width` bytes at the cursor stand for.
    pub open spec fn unsigned_at_cursor(self, width: nat) -> nat {
        decode(self.endian, self.stream@.window(width))
    }

    /// The signed value that the `width` bytes at the cursor stand for.
    pub open spec fn signed_at_cursor(self, width: nat) -> int {
        from_twos_complement(self.unsigned_at_cursor(width), width)
    }

    /// Makes a reader over `stream`. Strings are prefixed by a platform
    /// word unless [`Self::with_prefix_width`] says otherwise.
    pub fn new_stream(stream: MemoryStream<'a>, endian: Endian) -> (reader: Self)
        ensures
            reader.stream == stream,
            reader.endian == endian,
            reader.prefix == PrefixWidth::Native,
    {
        BinaryReader { stream, endian, prefix: PrefixWidth::Native }
    }

    /// Makes a reader over a borrowed buffer, with the cursor at its start.
    pub fn new_vec(buffer: &'a mut Vec<u8>, endian: Endian) -> (reader: Self)
        ensures
            reader.stream.backing matches Backing::Growable(held) && *held == *old(buffer)
                && *final(held) == *final(buffer),
            reader.stream.position == 0,
            reader.endian == endian,
            reader.prefix == PrefixWidth::Native,
    {
        BinaryReader { stream: MemoryStream::new_vec(buffer), endian, prefix: PrefixWidth::Native }
    }

    /// Sets the width of the length prefix that `read_string` expects.
    pub fn with_prefix_width(self, width: PrefixWidth) -> (reader: Self)
        ensures
            reader.stream == self.stream,
            reader.endian == self.endian,
            reader.prefix == width,
    {
        BinaryReader { stream: self.stream, endian: self.endian, prefix: width }
    }

    /// Switches between little-endian and big-endian. Values decoded from
    /// here on follow the new order; the stream is not touched.
    pub fn swap_endianness(&mut self)
        ensures
            final(self).stream == old(self).stream,
            final(self).endian == old(self).endian.flipped(),
            final(self).prefix == old(self).prefix,
    {
        self.endian = self.endian.swapped();
    }

    /// Reads `length` bytes at the cursor.
    pub fn read_bytes(&mut self, length: usize) -> (r: Result<Vec<u8>, BinaryError>)
        ensures
            old(self).after_taking(*final(self), length as nat),
            (match r {
                Ok(bytes) => {
                    &&& old(self).stream@.readable(length as nat)
                    &&& bytes@ == old(self).stream@.window(length as nat)
                },
                Err(error) => {
                    &&& !old(self).stream@.readable(length as nat)
                    &&& error == BinaryError::ReadPastEnd
                },
            }),
    {
        let total = match self.stream.len() {
            Ok(total) => total,
            Err(error) => return Err(error),
        };
        if length > total {
            return Err(BinaryError::ReadPastEnd);
        }
        let mut buffer: Vec<u8> = vec![0u8; length];
        match self.stream.read(buffer.as_mut_slice()) {
            Ok(_) => Ok(buffer),
            Err(error) => Err(error),
        }
    }

    /// Moves the cursor to `position` and reads `length` bytes there. The
    /// cursor is left behind the bytes read, or at `position` when they are
    /// not there; it does not go back to where it was.
    pub fn read_bytes_at(&mut self, length: usize, position: usize) -> (r: Result<
        Vec<u8>,
        BinaryError,
    >)
        ensures
            old(self).sought(position).after_taking(*final(self), length as nat),
            (match r {
                Ok(bytes) => {
                    &&& old(self).sought(position).stream@.readable(length as nat)
                    &&& bytes@ == old(self).sought(position).stream@.window(length as nat)
                },
                Err(error) => {
                    &&& !old(self).sought(position).stream@.readable(length as nat)
                    &&& error == BinaryError::ReadPastEnd
                },
            }),
    {
        match self.stream.seek(position) {
            Ok(_) => self.read_bytes(length),
            Err(error) => Err(error),
        }
    }

    /// Reads an unsigned value of `width` bytes.
    fn read_unsigned(&mut self, width: usize) -> (r: Result<u64, BinaryError>)
        requires
            width <= 8,
        ensures
            old(self).after_taking(*final(self), width as nat),
            (match r {
                Ok(value) => {
                    &&& old(self).stream@.readable(width as nat)
                    &&& value == old(self).unsigned_at_cursor(width as nat)
                    &&& value < pow256(width as nat)
                },
                Err(error) => {
                    &&& !old(self).stream@.readable(width as nat)
                    &&& error == BinaryError::ReadPastEnd
                },
            }),
    {
        match self.read_bytes(width) {
            Ok(bytes) => Ok(decode_unsigned(bytes.as_slice(), self.endian)),
            Err(error) => Err(error),
        }
    }

    /// Reads a signed value of `width` bytes.
    fn read_signed(&mut self, width: usize) -> (r: Result<i64, BinaryError>)
        requires
            1 <= width <= 8,
        ensures
            old(self).after_taking(*final(self), width as nat),
            (match r {
                Ok(value) => {
                    &&& old(self).stream@.readable(width as nat)
                    &&& value == old(self).signed_at_cursor(width as nat)
                    &&& -(pow256(width as nat) as int) <= 2 * value < pow256(width as nat)
                },
                Err(error) => {
                    &&& !old(self).stream@.readable(width as nat)
                    &&& error == BinaryError::ReadPastEnd
                },
            }),
    {
        match self.read_bytes(width) {
            Ok(bytes) => Ok(decode_signed(bytes.as_slice(), self.endian)),
            Err(error) => Err(error),
        }
    }

    /// Reads a `u8`.
    pub fn read_u8(&mut self) -> (r: Result<u8, BinaryError>)
        ensures
            old(self).after_taking(*final(self), 1),
            (match r {
                Ok(value) => {
                    &&& old(self).stream@.readable(1)
                    &&& value == old(self).unsigned_at_cursor(1)
                },
                Err(error) => {
                    &&& !old(self).stream@.readable(1)
                    &&& error == BinaryError::ReadPastEnd
                },
            }),
    {
        proof {
            lemma_pow256_values();
        }
        match self.read_unsigned(1) {
            Ok(raw) => Ok(raw as u8),
            Err(error) => Err(error),
        }
    }

    /// Reads a `u16`.
    pub fn read_u16(&mut self) -> (r: Result<u16, BinaryError>)
        ensures
            old(self).after_taking(*final(self), 2),
            (match r {
                Ok(value) => {
                    &&& old(self).stream@.readable(2)
                    &&& value == old(self).unsigned_at_cursor(2)
                },
                Err(error) => {
                    &&& !old(self).stream@.readable(2)
                    &&& error == BinaryError::ReadPastEnd
                },
            }),
    {
        proof {
            lemma_pow256_values();
        }
        match self.read_unsigned(2) {
            Ok(raw) => Ok(raw as u16),
            Err(error) => Err(error),
        }
    }

    /// Reads a `u32`.
    pub fn read_u32(&mut self) -> (r: Result<u32, BinaryError>)
        ensures
            old(self).after_taking(*final(self), 4),
            (match r {
                Ok(value) => {
                    &&& old(self).stream@.readable(4)
                    &&& value == old(self).unsigned_at_cursor(4)
                },
                Err(error) => {
                    &&& !old(self).stream@.readable(4)
                    &&& error == BinaryError::ReadPastEnd
                },
            }),
    {
        proof {
            lemma_pow256_values();
        }
        match self.read_unsigned(4) {
            Ok(raw) => Ok(raw as u32),
            Err(error) => Err(error),
        }
    }

    /// Reads a `u64`.
    pub fn read_u64(&mut self) -> (r: Result<u64, BinaryError>)
        ensures
            old(self).after_taking(*final(self), 8),
            (match r {
                Ok(value) => {
                    &&& old(self).stream@.readable(8)
                    &&& value == old(self).unsigned_at_cursor(8)
                },
                Err(error) => {
                    &&& !old(self).stream@.readable(8)
                    &&& error == BinaryError::ReadPastEnd
                },
            }),
    {
        self.read_unsigned(8)
    }

    /// Reads a `usize`, one platform word wide.
    pub fn read_usize(&mut self) -> (r: Result<usize, BinaryError>)
        ensures
            old(self).after_taking(*final(self), word_bytes()),
            (match r {
                Ok(value) => {
                    &&& old(self).stream@.readable(word_bytes())
                    &&& value == old(self).unsigned_at_cursor(word_bytes())
                },
                Err(error) => {
                    &&& !old(self).stream@.readable(word_bytes())
                    &&& error == BinaryError::ReadPastEnd
                },
            }),
    {
        proof {
            lemma_word_bytes();
        }
        match self.read_unsigned(word_width()) {
            Ok(raw) => Ok(raw as usize),
            Err(error) => Err(error),
        }
    }

    /// Reads an `i8`.
    pub fn read_i8(&mut self) -> (r: Result<i8, BinaryError>)
        ensures
            old(self).after_taking(*final(self), 1),
            (match r {
                Ok(value) => {
                    &&& old(self).stream@.readable(1)
                    &&& value == old(self).signed_at_cursor(1)
                },
                Err(error) => {
                    &&& !old(self).stream@.readable(1)
                    &&& error == BinaryError::ReadPastEnd
                },
            }),
    {
        proof {
            lemma_pow256_values();
        }
        match self.read_signed(1) {
            Ok(raw) => Ok(raw as i8),
            Err(error) => Err(error),
        }
    }

    /// Reads an `i16`.
    pub fn read_i16(&mut self) -> (r: Result<i16, BinaryError>)
        ensures
            old(self).after_taking(*final(self), 2),
            (match r {
                Ok(value) => {
                    &&& old(self).stream@.readable(2)
                    &&& value == old(self).signed_at_cursor(2)
                },
                Err(error) => {
                    &&& !old(self).stream@.readable(2)
                    &&& error == BinaryError::ReadPastEnd
                },
            }),
    {
        proof {
            lemma_pow256_values();
        }
        match self.read_signed(2) {
            Ok(raw) => Ok(raw as i16),
            Err(error) => Err(error),
        }
    }

    /// Reads an `i32`.
    pub fn read_i32(&mut self) -> (r: Result<i32, BinaryError>)
        ensures
            old(self).after_taking(*final(self), 4),
            (match r {
                Ok(value) => {
                    &&& old(self).stream@.readable(4)
                    &&& value == old(self).signed_at_cursor(4)
                },
                Err(error) => {
                    &&& !old(self).stream@.readable(4)
                    &&& error == BinaryError::ReadPastEnd
                },
            }),
    {
        proof {
            lemma_pow256_values();
        }
        match self.read_signed(4) {
            Ok(raw) => Ok(raw as i32),
            Err(error) => Err(error),
        }
    }

    /// Reads an `i64`.
    pub fn read_i64(&mut self) -> (r: Result<i64, BinaryError>)
        ensures
            old(self).after_taking(*final(self), 8),
            (match r {
                Ok(value) => {
                    &&& old(self).stream@.readable(8)
                    &&& value == old(self).signed_at_cursor(8)
                },
                Err(error) => {
                    &&& !old(self).stream@.readable(8)
                    &&& error == BinaryError::ReadPastEnd
                },
            }),
    {
        match self.read_signed(8) {
            Ok(raw) => Ok(raw),
            Err(error) => Err(error),
        }
    }

    /// Reads an `isize`, one platform word wide.
    pub fn read_isize(&mut self) -> (r: Result<isize, BinaryError>)
        ensures
            old(self).after_taking(*final(self), word_bytes()),
            (match r {
                Ok(value) => {
                    &&& old(self).stream@.readable(word_bytes())
                    &&& value == old(self).signed_at_cursor(word_bytes())
                },
                Err(error) => {
                    &&& !old(self).stream@.readable(word_bytes())
                    &&& error == BinaryError::ReadPastEnd
                },
            }),
    {
        proof {
            lemma_word_bytes();
        }
        match self.read_signed(word_width()) {
            Ok(raw) => Ok(raw as isize),
            Err(error) => Err(error),
        }
    }

    /// Reads a `bool`: one byte, true when it is not zero.
    pub fn read_bool(&mut self) -> (r: Result<bool, BinaryError>)
        ensures
            old(self).after_taking(*final(self), 1),
            (match r {
                Ok(value) => {
                    &&& old(self).stream@.readable(1)
                    &&& value == (old(self).unsigned_at_cursor(1) > 0)
                },
                Err(error) => {
                    &&& !old(self).stream@.readable(1)
                    &&& error == BinaryError::ReadPastEnd
                },
            }),
    {
        match self.read_u8() {
            Ok(value) => Ok(value > 0),
            Err(error) => Err(error),
        }
    }

    /// Reads a `char`: a 32-bit value that must be a Unicode scalar value.
    ///
    /// Fails with [`BinaryError::InvalidChar`] when it is not; the cursor is
    /// then behind the four bytes.
    pub fn read_char(&mut self) -> (r: Result<char, BinaryError>)
        ensures
            old(self).after_taking(*final(self), 4),
            (match r {
                Ok(value) => {
                    &&& old(self).stream@.readable(4)
                    &&& is_scalar_value(old(self).unsigned_at_cursor(4))
                    &&& value as u32 == old(self).unsigned_at_cursor(4)
                },
                Err(error) => {
                    if old(self).stream@.readable(4) {
                        &&& !is_scalar_value(old(self).unsigned_at_cursor(4))
                        &&& error == BinaryError::InvalidChar
                    } else {
                        error == BinaryError::ReadPastEnd
                    }
                },
            }),
    {
        match self.read_u32() {
            Ok(raw) => match char::from_u32(raw) {
                Some(value) => Ok(value),
                None => Err(BinaryError::InvalidChar),
            },
            Err(error) => Err(error),
        }
    }

    /// Reads a string: a length prefix of the configured width, then that
    /// many bytes of UTF-8.
    ///
    /// Fails with [`BinaryError::ReadPastEnd`] when the prefix or the bytes
    /// are not there, and with [`BinaryError::TextEncodingError`] when the
    /// bytes are not valid UTF-8. The cursor stays behind whatever was read
    /// before the failure.
    pub fn read_string(&mut self) -> (r: Result<String, BinaryError>)
        ensures
            ({
                let expected = string_at(old(self).stream@, old(self).endian, old(self).prefix);
                &&& old(self).moved_to(*final(self), expected.1)
                &&& match r {
                    Ok(text) => expected.0 == Ok::<Seq<char>, BinaryError>(text@),
                    Err(error) => expected.0 == Err::<Seq<char>, BinaryError>(error),
                }
            }),
    {
        proof {
            lemma_word_bytes();
            lemma_pow256_values();
        }
        let width = self.prefix.width();
        match self.read_unsigned(width) {
            Ok(raw) => match self.read_bytes(raw as usize) {
                Ok(bytes) => decode_text(bytes),
                Err(error) => Err(error),
            },
            Err(error) => Err(error),
        }
    }

    /// Reads a string whose length prefix is a signed 32-bit value in the
    /// current byte order, followed by that many bytes of UTF-8.
    ///
    /// Fails as [`Self::read_string`] does. A negative prefix asks for more
    /// bytes than any buffer holds.
    pub fn read_big_string(&mut self) -> (r: Result<String, BinaryError>)
        ensures
            ({
                let expected = big_string_at(old(self).stream@, old(self).endian);
                &&& old(self).moved_to(*final(self), expected.1)
                &&& match r {
                    Ok(text) => expected.0 == Ok::<Seq<char>, BinaryError>(text@),
                    Err(error) => expected.0 == Err::<Seq<char>, BinaryError>(error),
                }
            }),
    {
        match self.read_i32() {
            Ok(prefix) => {
                let length: usize = if prefix >= 0 {
                    prefix as usize
                } else {
                    usize::MAX - (-(prefix + 1)) as usize
                };
                match self.read_bytes(length) {
                    Ok(bytes) => decode_text(bytes),
                    Err(error) => Err(error),
                }
            },
            Err(error) => Err(error),
        }
    }
}

} // verus!
