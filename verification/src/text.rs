//! Text on the wire: characters as 32-bit scalar values, and strings as a
//! length prefix followed by UTF-8 bytes.

use crate::endian::{decode, encode, from_twos_complement, word_bytes, word_width, Endian};
use crate::error::BinaryError;
use crate::memory::StreamView;
use vstd::prelude::*;
use vstd::utf8::{decode_utf8, encode_utf8, valid_utf8};

verus! {

/// The width of the length prefix that `read_string` and `write_string` put
/// before the bytes of a string.
///
/// A buffer written under one width cannot be read under the other.
#[derive(Debug, Clone, Copy, PartialEq, Eq, Structural)]
pub enum PrefixWidth {
    /// One platform word: the width of `usize` on the machine at hand.
    Native,
    /// Four bytes on every machine.
    Fixed32,
}

impl Default for PrefixWidth {
    /// The platform word is the default width.
    fn default() -> (width: Self)
        ensures
            width == PrefixWidth::Native,
    {
        PrefixWidth::Native
    }
}

impl PrefixWidth {
    /// The number of bytes in a prefix of this width.
    pub open spec fn bytes(self) -> nat {
        match self {
            PrefixWidth::Native => word_bytes(),
            PrefixWidth::Fixed32 => 4,
        }
    }

    /// The value that a prefix of this width holds for a string of `length`
    /// bytes: the length itself, cut to 32 bits where the prefix has no more.
    pub open spec fn prefix_value(self, length: nat) -> nat {
        match self {
            PrefixWidth::Native => length,
            PrefixWidth::Fixed32 => length % 0x1_0000_0000,
        }
    }

    /// Returns the number of bytes in a prefix of this width.
    pub fn width(self) -> (count: usize)
        ensures
            count == self.bytes(),
            count == 4 || count == 8,
    {
        match self {
            PrefixWidth::Native => word_width(),
            PrefixWidth::Fixed32 => 4,
        }
    }
}

/// Whether `value` is a Unicode scalar value: a code point that is not a
/// surrogate.
pub open spec fn is_scalar_value(value: nat) -> bool {
    value <= 0xD7FF || 0xE000 <= value <= 0x10FFFF
}

/// The outside error of a failed UTF-8 conversion. Nothing is read from it.
#[verifier::external_type_specification]
#[verifier::external_body]
pub struct ExFromUtf8Error(std::string::FromUtf8Error);

/// `char::from_u32` of the standard library: it gives the character with the
/// scalar value `i`, and nothing when `i` is a surrogate or lies above
/// `0x10FFFF`.
pub assume_specification[ char::from_u32 ](i: u32) -> (r: Option<char>)
    ensures
        r is Some <==> is_scalar_value(i as nat),
        r matches Some(c) ==> c as u32 == i,
;

/// `String::from_utf8` of the standard library: it succeeds exactly on
/// well-formed UTF-8, and the string it gives is made of the characters that
/// the bytes encode.
pub assume_specification[ String::from_utf8 ](vec: Vec<u8>) -> (r: Result<
    String,
    std::string::FromUtf8Error,
>)
    ensures
        r is Ok <==> valid_utf8(vec@),
        r matches Ok(text) ==> text@ == decode_utf8(vec@),
;

/// What `bytes` hold as text: their characters, or the reason they hold none.
pub open spec fn text_of(bytes: Seq<u8>) -> Result<Seq<char>, BinaryError> {
    if valid_utf8(bytes) {
        Ok(decode_utf8(bytes))
    } else {
        Err(BinaryError::TextEncodingError)
    }
}

/// Turns bytes into a string, or fails with
/// [`BinaryError::TextEncodingError`] when they are not valid UTF-8.
pub fn decode_text(bytes: Vec<u8>) -> (r: Result<String, BinaryError>)
    ensures
        (match r {
            Ok(text) => text_of(bytes@) == Ok::<Seq<char>, BinaryError>(text@),
            Err(error) => text_of(bytes@) == Err::<Seq<char>, BinaryError>(error),
        }),
{
    match String::from_utf8(bytes) {
        Ok(text) => Ok(text),
        Err(_) => Err(BinaryError::TextEncodingError),
    }
}

/// What a read of `length` bytes of text at the cursor gives, and where it
/// leaves the cursor: in place when the bytes are not there, past them when
/// they are, whether or not they are valid UTF-8.
pub open spec fn text_at(stream: StreamView, length: nat) -> (Result<Seq<char>, BinaryError>, nat) {
    if stream.readable(length) {
        (text_of(stream.window(length)), stream.position + length)
    } else {
        (Err(BinaryError::ReadPastEnd), stream.position)
    }
}

/// The length prefix that stands before `text` on the wire: the number of
/// its UTF-8 bytes, in a prefix of the given width and byte order.
pub open spec fn string_prefix(endian: Endian, prefix: PrefixWidth, text: Seq<char>) -> Seq<u8> {
    encode(endian, prefix.prefix_value(encode_utf8(text).len()), prefix.bytes())
}

/// The bytes of a string on the wire: the length prefix, then the UTF-8
/// bytes.
pub open spec fn string_frame(endian: Endian, prefix: PrefixWidth, text: Seq<char>) -> Seq<u8> {
    string_prefix(endian, prefix, text) + encode_utf8(text)
}

/// What a read of a prefixed string at the cursor gives, and where it leaves
/// the cursor: a missing prefix leaves it in place, and behind the prefix the
/// text is read as [`text_at`] says.
pub open spec fn string_at(stream: StreamView, endian: Endian, prefix: PrefixWidth) -> (
    Result<Seq<char>, BinaryError>,
    nat,
) {
    if stream.readable(prefix.bytes()) {
        text_at(stream.after_read(prefix.bytes()), decode(endian, stream.window(prefix.bytes())))
    } else {
        (Err(BinaryError::ReadPastEnd), stream.position)
    }
}

/// The number of bytes that a signed 32-bit length prefix asks for: the
/// prefix itself, or, for a negative one, the prefix wrapped around to the top
/// of the platform word.
pub open spec fn big_string_length(prefix: int) -> nat {
    if prefix < 0 {
        (prefix + usize::MAX + 1) as nat
    } else {
        prefix as nat
    }
}

/// What a read of a string with a signed 32-bit prefix gives at the cursor,
/// and where it leaves the cursor.
pub open spec fn big_string_at(stream: StreamView, endian: Endian) -> (
    Result<Seq<char>, BinaryError>,
    nat,
) {
    if stream.readable(4) {
        text_at(
            stream.after_read(4),
            big_string_length(from_twos_complement(decode(endian, stream.window(4)), 4)),
        )
    } else {
        (Err(BinaryError::ReadPastEnd), stream.position)
    }
}

} // verus!
