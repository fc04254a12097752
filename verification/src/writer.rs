//! The typed writer: encodes values into a stream under a byte order.

use crate::endian::{
    encode, encode_signed, encode_unsigned, lemma_encode_len, lemma_pow256_values,
    lemma_word_bytes, pow256, twos_complement, word_bytes, word_width, Endian,
};
use crate::error::BinaryError;
use crate::memory::{Backing, MemoryStream, SeekStream, StreamView};
use crate::text::{string_prefix, PrefixWidth};
use vstd::prelude::*;
use vstd::utf8::encode_utf8;

verus! {

/// Encodes typed values into a [`MemoryStream`].
///
/// Every write hands its bytes to the stream, which appends them to a
/// growable buffer or lays them over a fixed range, and moves the cursor on by
/// their number. A write needs [`StreamView::writable`] of the stream; it then
/// always succeeds and returns the number of bytes written.
///
/// Where the stream borrows its buffer, each contract also says that the
/// borrow still ends in the same place: what was written is what the owner of
/// the buffer finds when the writer is gone.
pub struct BinaryWriter<'a> {
    /// The stream that is written.
    pub stream: MemoryStream<'a>,
    /// The byte order under which the next value is encoded.
    pub endian: Endian,
    /// The width of the length prefix that `write_string` writes.
    pub prefix: PrefixWidth,
}

impl<'a> BinaryWriter<'a> {
    /// `after` is this writer with `stream` as the model of its stream and
    /// nothing else changed.
    pub open spec fn becomes(self, after: Self, stream: StreamView) -> bool {
        &&& after.stream@ == stream
        &&& after.endian == self.endian
        &&& after.prefix == self.prefix
    }

    /// Whether the stream takes the prefix of `text` and then its bytes.
    pub open spec fn string_writable(self, text: Seq<char>) -> bool {
        &&& self.stream@.writable(self.prefix.bytes())
        &&& self.stream@.after_write(string_prefix(self.endian, self.prefix, text)).writable(
            encode_utf8(text).len(),
        )
    }

    /// Tells whether the stream takes `value` as `write_string` writes it.
    pub fn can_write_string(&self, value: &str) -> (ok: bool)
        ensures
            ok == self.string_writable(value@),
    {
        proof {
            lemma_encode_len(
                self.endian,
                self.prefix.prefix_value(encode_utf8(value@).len()),
                self.prefix.bytes(),
            );
        }
        let width = self.prefix.width();
        let length = value.as_bytes().len();
        let total = match self.stream.len() {
            Ok(total) => total,
            Err(_) => return false,
        };
        let room = usize::MAX - self.stream.position;
        if self.stream.is_growable() {
            width <= room && length <= room - width
        } else {
            width <= room && width == total && length == width && length <= room - width
        }
    }

    /// Makes a writer over `stream`. Strings are prefixed by a platform
    /// word unless [`Self::with_prefix_width`] says otherwise.
    pub fn new_stream(stream: MemoryStream<'a>, endian: Endian) -> (writer: Self)
        ensures
            writer.stream == stream,
            writer.endian == endian,
            writer.prefix == PrefixWidth::Native,
    {
        BinaryWriter { stream, endian, prefix: PrefixWidth::Native }
    }

    /// Makes a writer over a borrowed growable buffer. What it writes is
    /// appended to `buffer`.
    pub fn new_vec(buffer: &'a mut Vec<u8>, endian: Endian) -> (writer: Self)
        ensures
            writer.stream.backing matches Backing::Growable(held) && *held == *old(buffer)
                && *final(held) == *final(buffer),
            writer.stream.position == 0,
            writer.endian == endian,
            writer.prefix == PrefixWidth::Native,
    {
        BinaryWriter { stream: MemoryStream::new_vec(buffer), endian, prefix: PrefixWidth::Native }
    }

    /// Sets the width of the length prefix that `write_string` writes.
    pub fn with_prefix_width(self, width: PrefixWidth) -> (writer: Self)
        ensures
            writer.stream == self.stream,
            writer.endian == self.endian,
            writer.prefix == width,
    {
        BinaryWriter { stream: self.stream, endian: self.endian, prefix: width }
    }

    /// Switches between little-endian and big-endian. Values encoded from
    /// here on follow the new order; what was written stays as it is.
    pub fn swap_endianness(&mut self)
        ensures
            final(self).stream == old(self).stream,
            final(self).endian == old(self).endian.flipped(),
            final(self).prefix == old(self).prefix,
    {
        self.endian = self.endian.swapped();
    }

    /// Writes `data` as it is.
    pub fn write_bytes(&mut self, data: &[u8]) -> (r: Result<usize, BinaryError>)
        requires
            old(self).stream@.writable(data@.len()),
        ensures
            r == Ok::<usize, BinaryError>(data@.len() as usize),
            final(self).stream.position == old(self).stream.position + data@.len(),
            old(self).becomes(*final(self), old(self).stream@.after_write(data@)),
            old(self).stream.backing matches Backing::Growable(before)
                ==> final(self).stream.backing matches Backing::Growable(after)
                && *final(after) == *final(before),
            old(self).stream.backing matches Backing::Fixed(before)
                ==> final(self).stream.backing matches Backing::Fixed(after)
                && final(after)@ == final(before)@,
    {
        self.stream.write(data)
    }

    /// Moves the cursor to `position` and writes `data`. The cursor is left
    /// behind the bytes written; it does not go back to where it was.
    pub fn write_bytes_at(&mut self, data: &[u8], position: usize) -> (r: Result<
        usize,
        BinaryError,
    >)
        requires
            old(self).stream@.after_seek(position as nat).writable(data@.len()),
        ensures
            r == Ok::<usize, BinaryError>(data@.len() as usize),
            old(self).becomes(
                *final(self),
                old(self).stream@.after_seek(position as nat).after_write(data@),
            ),
            final(self).stream.position == position + data@.len(),
            old(self).stream.backing matches Backing::Growable(before)
                ==> final(self).stream.backing matches Backing::Growable(after)
                && *final(after) == *final(before),
            old(self).stream.backing matches Backing::Fixed(before)
                ==> final(self).stream.backing matches Backing::Fixed(after)
                && final(after)@ == final(before)@,
    {
        match self.stream.seek(position) {
            Ok(_) => self.stream.write(data),
            Err(error) => Err(error),
        }
    }

    /// Writes `data` as it is, with no length prefix, after moving the cursor
    /// to `position` where one is given.
    pub fn write_big_string(&mut self, data: &[u8], position: Option<usize>) -> (r: Result<
        usize,
        BinaryError,
    >)
        requires
            old(self).stream@.after_seek_if(position).writable(data@.len()),
        ensures
            r == Ok::<usize, BinaryError>(data@.len() as usize),
            final(self).stream.position == old(self).stream@.after_seek_if(position).position
                + data@.len(),
            old(self).becomes(
                *final(self),
                old(self).stream@.after_seek_if(position).after_write(data@),
            ),
            old(self).stream.backing matches Backing::Growable(before)
                ==> final(self).stream.backing matches Backing::Growable(after)
                && *final(after) == *final(before),
            old(self).stream.backing matches Backing::Fixed(before)
                ==> final(self).stream.backing matches Backing::Fixed(after)
                && final(after)@ == final(before)@,
    {
        match position {
            Some(to) => self.write_bytes_at(data, to),
            None => self.write_bytes(data),
        }
    }

    /// Writes `count` bytes that all hold `fill_value`.
    pub fn write_bytes_with_value(&mut self, count: usize, fill_value: u8) -> (r: Result<
        usize,
        BinaryError,
    >)
        requires
            old(self).stream@.writable(count as nat),
            count <= isize::MAX,
        ensures
            r == Ok::<usize, BinaryError>(count),
            final(self).stream.position == old(self).stream.position + count,
            old(self).becomes(
                *final(self),
                old(self).stream@.after_write(Seq::new(count as nat, |i: int| fill_value)),
            ),
            old(self).stream.backing matches Backing::Growable(before)
                ==> final(self).stream.backing matches Backing::Growable(after)
                && *final(after) == *final(before),
            old(self).stream.backing matches Backing::Fixed(before)
                ==> final(self).stream.backing matches Backing::Fixed(after)
                && final(after)@ == final(before)@,
    {
        let buffer: Vec<u8> = vec![fill_value; count];
        assert(buffer@ =~= Seq::new(count as nat, |i: int| fill_value));
        self.write_bytes(buffer.as_slice())
    }

    /// Writes a string: a length prefix of the configured width that holds
    /// the number of UTF-8 bytes, then those bytes. Returns the number of
    /// bytes of the string, the prefix not counted.
    ///
    /// A prefix of four bytes holds the length cut to 32 bits.
    pub fn write_string(&mut self, value: &str) -> (r: Result<usize, BinaryError>)
        requires
            old(self).string_writable(value@),
        ensures
            r == Ok::<usize, BinaryError>(encode_utf8(value@).len() as usize),
            final(self).stream.position == old(self).stream.position + old(self).prefix.bytes()
                + encode_utf8(value@).len(),
            old(self).becomes(
                *final(self),
                old(self).stream@.after_write(
                    string_prefix(old(self).endian, old(self).prefix, value@),
                ).after_write(encode_utf8(value@)),
            ),
            old(self).stream.backing matches Backing::Growable(before)
                ==> final(self).stream.backing matches Backing::Growable(after)
                && *final(after) == *final(before),
            old(self).stream.backing matches Backing::Fixed(before)
                ==> final(self).stream.backing matches Backing::Fixed(after)
                && final(after)@ == final(before)@,
    {
        proof {
            lemma_word_bytes();
            lemma_pow256_values();
        }
        let bytes = value.as_bytes();
        let length: u64 = match self.prefix {
            PrefixWidth::Native => bytes.len() as u64,
            PrefixWidth::Fixed32 => (bytes.len() as u64) % 0x1_0000_0000,
        };
        match self.write_unsigned(length, self.prefix.width()) {
            Ok(_) => self.stream.write(bytes),
            Err(error) => Err(error),
        }
    }

    /// Writes an unsigned value in `width` bytes.
    fn write_unsigned(&mut self, value: u64, width: usize) -> (r: Result<usize, BinaryError>)
        requires
            width <= 8,
            value < pow256(width as nat),
            old(self).stream@.writable(width as nat),
        ensures
            r == Ok::<usize, BinaryError>(width),
            final(self).stream.position == old(self).stream.position + width,
            old(self).becomes(
                *final(self),
                old(self).stream@.after_write(encode(old(self).endian, value as nat, width as nat)),
            ),
            old(self).stream.backing matches Backing::Growable(before)
                ==> final(self).stream.backing matches Backing::Growable(after)
                && *final(after) == *final(before),
            old(self).stream.backing matches Backing::Fixed(before)
                ==> final(self).stream.backing matches Backing::Fixed(after)
                && final(after)@ == final(before)@,
    {
        let bytes = encode_unsigned(value, width, self.endian);
        self.stream.write(bytes.as_slice())
    }

    /// Writes a signed value in `width` bytes.
    fn write_signed(&mut self, value: i64, width: usize) -> (r: Result<usize, BinaryError>)
        requires
            1 <= width <= 8,
            -(pow256(width as nat) as int) <= 2 * value < pow256(width as nat),
            old(self).stream@.writable(width as nat),
        ensures
            r == Ok::<usize, BinaryError>(width),
            final(self).stream.position == old(self).stream.position + width,
            old(self).becomes(
                *final(self),
                old(self).stream@.after_write(
                    encode(
                        old(self).endian,
                        twos_complement(value as int, width as nat),
                        width as nat,
                    ),
                ),
            ),
            old(self).stream.backing matches Backing::Growable(before)
                ==> final(self).stream.backing matches Backing::Growable(after)
                && *final(after) == *final(before),
            old(self).stream.backing matches Backing::Fixed(before)
                ==> final(self).stream.backing matches Backing::Fixed(after)
                && final(after)@ == final(before)@,
    {
        let bytes = encode_signed(value, width, self.endian);
        self.stream.write(bytes.as_slice())
    }

    /// Writes a `u8`: one byte.
    pub fn write_u8(&mut self, value: u8) -> (r: Result<usize, BinaryError>)
        requires
            old(self).stream@.writable(1),
        ensures
            r == Ok::<usize, BinaryError>(1),
            final(self).stream.position == old(self).stream.position + 1,
            old(self).becomes(
                *final(self),
                old(self).stream@.after_write(encode(old(self).endian, value as nat, 1)),
            ),
            old(self).stream.backing matches Backing::Growable(before)
                ==> final(self).stream.backing matches Backing::Growable(after)
                && *final(after) == *final(before),
            old(self).stream.backing matches Backing::Fixed(before)
                ==> final(self).stream.backing matches Backing::Fixed(after)
                && final(after)@ == final(before)@,
    {
        proof {
            lemma_pow256_values();
        }
        self.write_unsigned(value as u64, 1)
    }

    /// Writes a `u16` in two bytes.
    pub fn write_u16(&mut self, value: u16) -> (r: Result<usize, BinaryError>)
        requires
            old(self).stream@.writable(2),
        ensures
            r == Ok::<usize, BinaryError>(2),
            final(self).stream.position == old(self).stream.position + 2,
            old(self).becomes(
                *final(self),
                old(self).stream@.after_write(encode(old(self).endian, value as nat, 2)),
            ),
            old(self).stream.backing matches Backing::Growable(before)
                ==> final(self).stream.backing matches Backing::Growable(after)
                && *final(after) == *final(before),
            old(self).stream.backing matches Backing::Fixed(before)
                ==> final(self).stream.backing matches Backing::Fixed(after)
                && final(after)@ == final(before)@,
    {
        proof {
            lemma_pow256_values();
        }
        self.write_unsigned(value as u64, 2)
    }

    /// Writes a `u32` in four bytes.
    pub fn write_u32(&mut self, value: u32) -> (r: Result<usize, BinaryError>)
        requires
            old(self).stream@.writable(4),
        ensures
            r == Ok::<usize, BinaryError>(4),
            final(self).stream.position == old(self).stream.position + 4,
            old(self).becomes(
                *final(self),
                old(self).stream@.after_write(encode(old(self).endian, value as nat, 4)),
            ),
            old(self).stream.backing matches Backing::Growable(before)
                ==> final(self).stream.backing matches Backing::Growable(after)
                && *final(after) == *final(before),
            old(self).stream.backing matches Backing::Fixed(before)
                ==> final(self).stream.backing matches Backing::Fixed(after)
                && final(after)@ == final(before)@,
    {
        proof {
            lemma_pow256_values();
        }
        self.write_unsigned(value as u64, 4)
    }

    /// Writes a `u64` in eight bytes.
    pub fn write_u64(&mut self, value: u64) -> (r: Result<usize, BinaryError>)
        requires
            old(self).stream@.writable(8),
        ensures
            r == Ok::<usize, BinaryError>(8),
            final(self).stream.position == old(self).stream.position + 8,
            old(self).becomes(
                *final(self),
                old(self).stream@.after_write(encode(old(self).endian, value as nat, 8)),
            ),
            old(self).stream.backing matches Backing::Growable(before)
                ==> final(self).stream.backing matches Backing::Growable(after)
                && *final(after) == *final(before),
            old(self).stream.backing matches Backing::Fixed(before)
                ==> final(self).stream.backing matches Backing::Fixed(after)
                && final(after)@ == final(before)@,
    {
        proof {
            lemma_pow256_values();
        }
        self.write_unsigned(value as u64, 8)
    }

    /// Writes a `usize` in one platform word.
    pub fn write_usize(&mut self, value: usize) -> (r: Result<usize, BinaryError>)
        requires
            old(self).stream@.writable(word_bytes()),
        ensures
            r == Ok::<usize, BinaryError>(word_bytes() as usize),
            final(self).stream.position == old(self).stream.position + word_bytes(),
            old(self).becomes(
                *final(self),
                old(self).stream@.after_write(
                    encode(old(self).endian, value as nat, word_bytes()),
                ),
            ),
            old(self).stream.backing matches Backing::Growable(before)
                ==> final(self).stream.backing matches Backing::Growable(after)
                && *final(after) == *final(before),
            old(self).stream.backing matches Backing::Fixed(before)
                ==> final(self).stream.backing matches Backing::Fixed(after)
                && final(after)@ == final(before)@,
    {
        proof {
            lemma_word_bytes();
        }
        self.write_unsigned(value as u64, word_width())
    }

    /// Writes an `i8`: one byte, in two's complement.
    pub fn write_i8(&mut self, value: i8) -> (r: Result<usize, BinaryError>)
        requires
            old(self).stream@.writable(1),
        ensures
            r == Ok::<usize, BinaryError>(1),
            final(self).stream.position == old(self).stream.position + 1,
            old(self).becomes(
                *final(self),
                old(self).stream@.after_write(
                    encode(old(self).endian, twos_complement(value as int, 1), 1),
                ),
            ),
            old(self).stream.backing matches Backing::Growable(before)
                ==> final(self).stream.backing matches Backing::Growable(after)
                && *final(after) == *final(before),
            old(self).stream.backing matches Backing::Fixed(before)
                ==> final(self).stream.backing matches Backing::Fixed(after)
                && final(after)@ == final(before)@,
    {
        proof {
            lemma_pow256_values();
        }
        self.write_signed(value as i64, 1)
    }

    /// Writes an `i16` in two bytes, in two's complement.
    pub fn write_i16(&mut self, value: i16) -> (r: Result<usize, BinaryError>)
        requires
            old(self).stream@.writable(2),
        ensures
            r == Ok::<usize, BinaryError>(2),
            final(self).stream.position == old(self).stream.position + 2,
            old(self).becomes(
                *final(self),
                old(self).stream@.after_write(
                    encode(old(self).endian, twos_complement(value as int, 2), 2),
                ),
            ),
            old(self).stream.backing matches Backing::Growable(before)
                ==> final(self).stream.backing matches Backing::Growable(after)
                && *final(after) == *final(before),
            old(self).stream.backing matches Backing::Fixed(before)
                ==> final(self).stream.backing matches Backing::Fixed(after)
                && final(after)@ == final(before)@,
    {
        proof {
            lemma_pow256_values();
        }
        self.write_signed(value as i64, 2)
    }

    /// Writes an `i32` in four bytes, in two's complement.
    pub fn write_i32(&mut self, value: i32) -> (r: Result<usize, BinaryError>)
        requires
            old(self).stream@.writable(4),
        ensures
            r == Ok::<usize, BinaryError>(4),
            final(self).stream.position == old(self).stream.position + 4,
            old(self).becomes(
                *final(self),
                old(self).stream@.after_write(
                    encode(old(self).endian, twos_complement(value as int, 4), 4),
                ),
            ),
            old(self).stream.backing matches Backing::Growable(before)
                ==> final(self).stream.backing matches Backing::Growable(after)
                && *final(after) == *final(before),
            old(self).stream.backing matches Backing::Fixed(before)
                ==> final(self).stream.backing matches Backing::Fixed(after)
                && final(after)@ == final(before)@,
    {
        proof {
            lemma_pow256_values();
        }
        self.write_signed(value as i64, 4)
    }

    /// Writes an `i64` in eight bytes, in two's complement.
    pub fn write_i64(&mut self, value: i64) -> (r: Result<usize, BinaryError>)
        requires
            old(self).stream@.writable(8),
        ensures
            r == Ok::<usize, BinaryError>(8),
            final(self).stream.position == old(self).stream.position + 8,
            old(self).becomes(
                *final(self),
                old(self).stream@.after_write(
                    encode(old(self).endian, twos_complement(value as int, 8), 8),
                ),
            ),
            old(self).stream.backing matches Backing::Growable(before)
                ==> final(self).stream.backing matches Backing::Growable(after)
                && *final(after) == *final(before),
            old(self).stream.backing matches Backing::Fixed(before)
                ==> final(self).stream.backing matches Backing::Fixed(after)
                && final(after)@ == final(before)@,
    {
        proof {
            lemma_pow256_values();
        }
        self.write_signed(value as i64, 8)
    }

    /// Writes an `isize` in one platform word, in two's complement.
    pub fn write_isize(&mut self, value: isize) -> (r: Result<usize, BinaryError>)
        requires
            old(self).stream@.writable(word_bytes()),
        ensures
            r == Ok::<usize, BinaryError>(word_bytes() as usize),
            final(self).stream.position == old(self).stream.position + word_bytes(),
            old(self).becomes(
                *final(self),
                old(self).stream@.after_write(
                    encode(
                        old(self).endian,
                        twos_complement(value as int, word_bytes()),
                        word_bytes(),
                    ),
                ),
            ),
            old(self).stream.backing matches Backing::Growable(before)
                ==> final(self).stream.backing matches Backing::Growable(after)
                && *final(after) == *final(before),
            old(self).stream.backing matches Backing::Fixed(before)
                ==> final(self).stream.backing matches Backing::Fixed(after)
                && final(after)@ == final(before)@,
    {
        proof {
            lemma_word_bytes();
        }
        self.write_signed(value as i64, word_width())
    }

    /// Writes a `bool` as one byte: 1 for true, 0 for false.
    pub fn write_bool(&mut self, value: bool) -> (r: Result<usize, BinaryError>)
        requires
            old(self).stream@.writable(1),
        ensures
            r == Ok::<usize, BinaryError>(1),
            final(self).stream.position == old(self).stream.position + 1,
            old(self).becomes(
                *final(self),
                old(self).stream@.after_write(
                    encode(
                        old(self).endian,
                        if value {
                            1
                        } else {
                            0
                        },
                        1,
                    ),
                ),
            ),
            old(self).stream.backing matches Backing::Growable(before)
                ==> final(self).stream.backing matches Backing::Growable(after)
                && *final(after) == *final(before),
            old(self).stream.backing matches Backing::Fixed(before)
                ==> final(self).stream.backing matches Backing::Fixed(after)
                && final(after)@ == final(before)@,
    {
        self.write_u8(
            if value {
                1
            } else {
                0
            },
        )
    }

    /// Writes a `char` as its scalar value in four bytes.
    pub fn write_char(&mut self, value: char) -> (r: Result<usize, BinaryError>)
        requires
            old(self).stream@.writable(4),
        ensures
            r == Ok::<usize, BinaryError>(4),
            final(self).stream.position == old(self).stream.position + 4,
            old(self).becomes(
                *final(self),
                old(self).stream@.after_write(encode(old(self).endian, value as u32 as nat, 4)),
            ),
            old(self).stream.backing matches Backing::Growable(before)
                ==> final(self).stream.backing matches Backing::Growable(after)
                && *final(after) == *final(before),
            old(self).stream.backing matches Backing::Fixed(before)
                ==> final(self).stream.backing matches Backing::Fixed(after)
                && final(after)@ == final(before)@,
    {
        self.write_u32(value as u32)
    }
}

} // verus!
