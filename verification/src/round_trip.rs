//! What is written is read back: the laws that tie the writer to the reader.
//!
//! Each law speaks of a stream before a write, of the stream after it, and of
//! what a read finds at the offset where the written bytes landed
//! ([`StreamView::write_offset`]): the old end of a growable buffer, the start
//! of a fixed range.

use crate::endian::{
    decode, encode, fits_signed, from_twos_complement, lemma_decode_encode, lemma_encode_len,
    lemma_signed_round_trip, pow256, twos_complement, Endian,
};
use crate::error::BinaryError;
use crate::memory::{lemma_write_then_read, StreamView};
use crate::text::{is_scalar_value, string_at, string_frame, string_prefix, PrefixWidth};
use vstd::prelude::*;
use vstd::utf8::{encode_utf8, encode_utf8_decode_utf8, encode_utf8_valid_utf8};

verus! {

/// The stream as a reader finds it that goes back to where `data` landed
/// after `data` was written.
pub open spec fn written_back(stream: StreamView, data: Seq<u8>) -> StreamView {
    stream.after_write(data).after_seek(stream.write_offset())
}

/// An unsigned value that fits its width, written in either byte order, is
/// read back unchanged under the same byte order.
pub proof fn lemma_unsigned_written_back(
    stream: StreamView,
    endian: Endian,
    value: nat,
    width: nat,
)
    requires
        value < pow256(width),
        stream.growable() || width == stream.bytes.len(),
    ensures
        written_back(stream, encode(endian, value, width)).readable(width),
        decode(endian, written_back(stream, encode(endian, value, width)).window(width)) == value,
{
    lemma_encode_len(endian, value, width);
    lemma_write_then_read(stream, encode(endian, value, width));
    lemma_decode_encode(endian, value, width);
}

/// A signed value in the range of its width, written in either byte order,
/// is read back unchanged under the same byte order.
pub proof fn lemma_signed_written_back(stream: StreamView, endian: Endian, value: int, width: nat)
    requires
        fits_signed(value, width),
        stream.growable() || width == stream.bytes.len(),
    ensures
        ({
            let data = encode(endian, twos_complement(value, width), width);
            &&& written_back(stream, data).readable(width)
            &&& from_twos_complement(
                decode(endian, written_back(stream, data).window(width)),
                width,
            ) == value
        }),
{
    lemma_signed_round_trip(value, width);
    lemma_unsigned_written_back(stream, endian, twos_complement(value, width), width);
}

/// A boolean, written as the byte 1 or 0, is read back unchanged.
pub proof fn lemma_bool_written_back(stream: StreamView, endian: Endian, value: bool)
    requires
        stream.growable() || stream.bytes.len() == 1,
    ensures
        ({
            let data = encode(endian, if value { 1 } else { 0 }, 1);
            &&& written_back(stream, data).readable(1)
            &&& (decode(endian, written_back(stream, data).window(1)) > 0) == value
        }),
{
    reveal_with_fuel(pow256, 2);
    lemma_unsigned_written_back(stream, endian, if value { 1 } else { 0 }, 1);
}

/// A character, written as its scalar value in four bytes, is read back as a
/// scalar value, and as the same one.
pub proof fn lemma_char_written_back(stream: StreamView, endian: Endian, value: char)
    requires
        stream.growable() || stream.bytes.len() == 4,
    ensures
        ({
            let data = encode(endian, value as u32 as nat, 4);
            &&& written_back(stream, data).readable(4)
            &&& decode(endian, written_back(stream, data).window(4)) == value as u32
            &&& is_scalar_value(decode(endian, written_back(stream, data).window(4)))
        }),
{
    reveal_with_fuel(pow256, 5);
    lemma_unsigned_written_back(stream, endian, value as u32 as nat, 4);
}

/// On a growable buffer the prefix and the bytes of a string, written one
/// after the other, make up its frame.
pub proof fn lemma_string_written_as_frame(
    stream: StreamView,
    endian: Endian,
    prefix: PrefixWidth,
    text: Seq<char>,
)
    requires
        stream.growable(),
    ensures
        stream.after_write(string_prefix(endian, prefix, text)).after_write(encode_utf8(text))
            == stream.after_write(string_frame(endian, prefix, text)),
{
    let head = string_prefix(endian, prefix, text);
    let body = encode_utf8(text);
    assert((stream.bytes + head) + body =~= stream.bytes + (head + body));
}

/// A string whose length fits the prefix, written to a growable buffer, is
/// read back unchanged under the same byte order and prefix width, and the
/// cursor is then at the end of the buffer.
pub proof fn lemma_string_written_back(
    stream: StreamView,
    endian: Endian,
    prefix: PrefixWidth,
    text: Seq<char>,
)
    requires
        stream.growable(),
        encode_utf8(text).len() < pow256(prefix.bytes()),
    ensures
        ({
            let back = written_back(stream, string_frame(endian, prefix, text));
            string_at(back, endian, prefix) == (
                Ok::<Seq<char>, BinaryError>(text),
                back.bytes.len(),
            )
        }),
{
    let head = string_prefix(endian, prefix, text);
    let body = encode_utf8(text);
    let width = prefix.bytes();
    let back = written_back(stream, head + body);
    reveal_with_fuel(pow256, 5);
    assert(prefix.prefix_value(body.len()) == body.len());
    lemma_encode_len(endian, body.len(), width);
    lemma_decode_encode(endian, body.len(), width);
    assert(back.window(width) =~= head);
    let rest = back.after_read(width);
    assert(rest.window(body.len()) =~= body);
    encode_utf8_valid_utf8(text);
    encode_utf8_decode_utf8(text);
}

} // verus!
