//! Byte order, and the encoding of integers as fixed-width byte sequences.
//!
//! An unsigned value of `width` bytes is its `width` base-256 digits, least
//! significant first in little-endian order and most significant first in
//! big-endian order. A signed value is encoded as its two's complement.

use vstd::prelude::*;

verus! {

/// The order in which the bytes of a multi-byte value are laid out.
#[derive(Debug, Clone, Copy, PartialEq, Eq, Structural)]
pub enum Endian {
    /// Most significant byte first.
    Big,
    /// Least significant byte first.
    Little,
}

impl Default for Endian {
    /// Little-endian is the default byte order.
    fn default() -> (endian: Self)
        ensures
            endian == Endian::Little,
    {
        Endian::Little
    }
}

impl Endian {
    /// The other byte order.
    pub open spec fn flipped(self) -> Endian {
        match self {
            Endian::Big => Endian::Little,
            Endian::Little => Endian::Big,
        }
    }

    /// Returns the other byte order.
    pub fn swapped(self) -> (other: Endian)
        ensures
            other == self.flipped(),
    {
        match self {
            Endian::Big => Endian::Little,
            Endian::Little => Endian::Big,
        }
    }
}

/// `256` to the power `n`: the number of values that `n` bytes can hold.
pub open spec fn pow256(n: nat) -> nat
    decreases n,
{
    if n == 0 {
        1
    } else {
        256 * pow256((n - 1) as nat)
    }
}

/// The number whose base-256 digits, least significant first, are `bytes`.
pub open spec fn le_value(bytes: Seq<u8>) -> nat
    decreases bytes.len(),
{
    if bytes.len() == 0 {
        0
    } else {
        bytes[0] as nat + 256 * le_value(bytes.drop_first())
    }
}

/// The `width` lowest base-256 digits of `value`, least significant first.
pub open spec fn le_bytes(value: nat, width: nat) -> Seq<u8>
    decreases width,
{
    if width == 0 {
        Seq::empty()
    } else {
        seq![(value % 256) as u8] + le_bytes(value / 256, (width - 1) as nat)
    }
}

/// The `width` bytes that stand for `value` in the byte order `endian`.
pub open spec fn encode(endian: Endian, value: nat, width: nat) -> Seq<u8> {
    match endian {
        Endian::Little => le_bytes(value, width),
        Endian::Big => le_bytes(value, width).reverse(),
    }
}

/// The value that `bytes` stand for in the byte order `endian`.
pub open spec fn decode(endian: Endian, bytes: Seq<u8>) -> nat {
    match endian {
        Endian::Little => le_value(bytes),
        Endian::Big => le_value(bytes.reverse()),
    }
}

/// The two's complement of `value` in `width` bytes.
pub open spec fn twos_complement(value: int, width: nat) -> nat {
    if value < 0 {
        (value + pow256(width)) as nat
    } else {
        value as nat
    }
}

/// The signed value whose two's complement in `width` bytes is `raw`.
pub open spec fn from_twos_complement(raw: nat, width: nat) -> int {
    if 2 * raw >= pow256(width) {
        raw - pow256(width)
    } else {
        raw as int
    }
}

/// Whether `value` is in the range of a signed integer of `width` bytes.
pub open spec fn fits_signed(value: int, width: nat) -> bool {
    -(pow256(width) as int) <= 2 * value < pow256(width)
}

/// The powers of 256 up to the eighth, written out.
pub proof fn lemma_pow256_values()
    ensures
        pow256(0) == 1,
        pow256(1) == 0x100,
        pow256(2) == 0x1_0000,
        pow256(3) == 0x100_0000,
        pow256(4) == 0x1_0000_0000,
        pow256(5) == 0x100_0000_0000,
        pow256(6) == 0x1_0000_0000_0000,
        pow256(7) == 0x100_0000_0000_0000,
        pow256(8) == 0x1_0000_0000_0000_0000,
{
    reveal_with_fuel(pow256, 9);
}

/// `pow256` grows with its argument.
pub proof fn lemma_pow256_monotonic(a: nat, b: nat)
    requires
        a <= b,
    ensures
        0 < pow256(a) <= pow256(b),
    decreases b,
{
    if b == 0 {
    } else if a == b {
        lemma_pow256_monotonic((a - 1) as nat, (b - 1) as nat);
    } else {
        lemma_pow256_monotonic(a, (b - 1) as nat);
    }
}

/// `n` bytes hold a value below `256^n`.
pub proof fn lemma_le_value_bound(bytes: Seq<u8>)
    ensures
        le_value(bytes) < pow256(bytes.len()),
    decreases bytes.len(),
{
    if bytes.len() > 0 {
        lemma_le_value_bound(bytes.drop_first());
    }
}

/// An encoding of `width` bytes has `width` bytes.
pub proof fn lemma_le_bytes_len(value: nat, width: nat)
    ensures
        le_bytes(value, width).len() == width,
    decreases width,
{
    if width > 0 {
        lemma_le_bytes_len(value / 256, (width - 1) as nat);
    }
}

/// Little-endian digits of a value that fits give the value back.
pub proof fn lemma_le_value_of_le_bytes(value: nat, width: nat)
    requires
        value < pow256(width),
    ensures
        le_value(le_bytes(value, width)) == value,
    decreases width,
{
    if width > 0 {
        let rest = le_bytes(value / 256, (width - 1) as nat);
        let all = le_bytes(value, width);
        lemma_le_bytes_len(value / 256, (width - 1) as nat);
        assert(all.drop_first() =~= rest);
        lemma_le_value_of_le_bytes(value / 256, (width - 1) as nat);
    }
}

/// The little-endian digits of the value of `bytes` are `bytes`.
pub proof fn lemma_le_bytes_of_le_value(bytes: Seq<u8>)
    ensures
        le_bytes(le_value(bytes), bytes.len()) == bytes,
    decreases bytes.len(),
{
    if bytes.len() > 0 {
        let tail = bytes.drop_first();
        lemma_le_bytes_of_le_value(tail);
        let value = le_value(bytes);
        assert(value % 256 == bytes[0] as nat);
        assert(value / 256 == le_value(tail));
        assert(le_bytes(value, bytes.len()) =~= bytes);
    } else {
        assert(le_bytes(le_value(bytes), bytes.len()) =~= bytes);
    }
}

/// The byte at index `i` of the little-endian digits of `value` is
/// `value / 256^i mod 256`.
pub proof fn lemma_le_bytes_index(value: nat, width: nat, i: int)
    requires
        0 <= i < width,
    ensures
        le_bytes(value, width)[i] == (value / pow256(i as nat)) % 256,
    decreases i,
{
    lemma_le_bytes_len(value / 256, (width - 1) as nat);
    if i > 0 {
        let lower = pow256((i - 1) as nat);
        lemma_le_bytes_index(value / 256, (width - 1) as nat, i - 1);
        lemma_pow256_monotonic(0, (i - 1) as nat);
        vstd::arithmetic::div_mod::lemma_div_denominator(value as int, 256, lower as int);
        assert(pow256(i as nat) == 256 * lower);
        assert((value / 256) / lower == value / pow256(i as nat));
        assert(le_bytes(value, width)[i] == le_bytes(value / 256, (width - 1) as nat)[i - 1]);
        assert(le_bytes(value, width)[i] == (value / pow256(i as nat)) % 256);
    } else {
        assert(pow256(0) == 1);
        assert(value / pow256(0) == value);
        assert(le_bytes(value, width)[0] == (value % 256) as u8);
        assert(le_bytes(value, width)[i] == (value / pow256(i as nat)) % 256);
    }
}

/// An encoding has the width that was asked for, in either byte order.
pub proof fn lemma_encode_len(endian: Endian, value: nat, width: nat)
    ensures
        encode(endian, value, width).len() == width,
{
    lemma_le_bytes_len(value, width);
}

/// The byte at index `i` of an encoding is the `i`-th base-256 digit of the
/// value, counted from the least significant digit in little-endian order and
/// from the most significant digit of the width in big-endian order.
pub proof fn lemma_encode_index(endian: Endian, value: nat, width: nat, i: int)
    requires
        0 <= i < width,
    ensures
        encode(endian, value, width)[i] == (match endian {
            Endian::Little => (value / pow256(i as nat)) % 256,
            Endian::Big => (value / pow256((width - 1 - i) as nat)) % 256,
        }),
{
    lemma_le_bytes_len(value, width);
    match endian {
        Endian::Little => lemma_le_bytes_index(value, width, i),
        Endian::Big => lemma_le_bytes_index(value, width, width - 1 - i),
    }
}

/// Decoding undoes encoding: a value that fits in `width` bytes, encoded in
/// either byte order and decoded in the same order, comes back unchanged.
pub proof fn lemma_decode_encode(endian: Endian, value: nat, width: nat)
    requires
        value < pow256(width),
    ensures
        decode(endian, encode(endian, value, width)) == value,
{
    lemma_le_value_of_le_bytes(value, width);
    let digits = le_bytes(value, width);
    assert(digits.reverse().reverse() =~= digits);
}

/// Encoding undoes decoding: the bytes of a decoded value, at the same width
/// and in the same byte order, are the bytes that were decoded.
pub proof fn lemma_encode_decode(endian: Endian, bytes: Seq<u8>)
    ensures
        encode(endian, decode(endian, bytes), bytes.len()) == bytes,
{
    match endian {
        Endian::Little => {
            lemma_le_bytes_of_le_value(bytes);
        },
        Endian::Big => {
            lemma_le_bytes_of_le_value(bytes.reverse());
            assert(bytes.reverse().reverse() =~= bytes);
        },
    }
}

/// Two's complement is undone by its inverse on every value in range.
pub proof fn lemma_signed_round_trip(value: int, width: nat)
    requires
        fits_signed(value, width),
    ensures
        twos_complement(value, width) < pow256(width),
        from_twos_complement(twos_complement(value, width), width) == value,
{
}

/// Every raw value of `width` bytes is the two's complement of the signed
/// value it stands for.
pub proof fn lemma_unsigned_round_trip(raw: nat, width: nat)
    requires
        width > 0,
        raw < pow256(width),
    ensures
        fits_signed(from_twos_complement(raw, width), width),
        twos_complement(from_twos_complement(raw, width), width) == raw,
{
    assert(pow256(width) == 256 * pow256((width - 1) as nat));
}

/// The number of bytes in a platform word, the width of `usize` and `isize`.
pub open spec fn word_bytes() -> nat {
    (usize::BITS / 8) as nat
}

/// A platform word has four or eight bytes, and `usize` and `isize` fill it.
pub proof fn lemma_word_bytes()
    ensures
        word_bytes() == 4 || word_bytes() == 8,
        pow256(word_bytes()) == usize::MAX + 1,
        pow256(word_bytes()) == 2 * (isize::MAX + 1),
        isize::MIN == -isize::MAX - 1,
{
    lemma_pow256_values();
}

/// Returns the number of bytes in a platform word.
pub fn word_width() -> (width: usize)
    ensures
        width == word_bytes(),
        width == 4 || width == 8,
{
    (usize::BITS / 8) as usize
}

/// Returns `256^width` for a width below eight bytes.
fn pow256_of(width: usize) -> (power: u64)
    requires
        width < 8,
    ensures
        power == pow256(width as nat),
{
    let mut power: u64 = 1;
    let mut done: usize = 0;
    while done < width
        invariant
            done <= width < 8,
            power == pow256(done as nat),
        decreases width - done,
    {
        proof {
            lemma_pow256_values();
            lemma_pow256_monotonic((done + 1) as nat, 7);
        }
        power = power * 256;
        done += 1;
    }
    power
}

/// Returns the bytes in the opposite order.
fn reversed(bytes: Vec<u8>) -> (out: Vec<u8>)
    ensures
        out@ == bytes@.reverse(),
{
    let n = bytes.len();
    let mut out: Vec<u8> = Vec::with_capacity(n);
    let mut taken: usize = 0;
    while taken < n
        invariant
            taken <= n,
            n == bytes@.len(),
            out@.len() == taken,
            forall|j: int| 0 <= j < taken ==> out@[j] == bytes@[n - 1 - j],
        decreases n - taken,
    {
        out.push(bytes[n - 1 - taken]);
        taken += 1;
    }
    out
}

/// Encodes an unsigned value in `width` bytes.
///
/// The result is the `width` base-256 digits of `value`, least significant
/// first for [`Endian::Little`] and most significant first for
/// [`Endian::Big`].
pub fn encode_unsigned(value: u64, width: usize, endian: Endian) -> (bytes: Vec<u8>)
    requires
        width <= 8,
        value < pow256(width as nat),
    ensures
        bytes@ == encode(endian, value as nat, width as nat),
        bytes@.len() == width,
{
    let mut digits: Vec<u8> = Vec::with_capacity(width);
    let mut rest: u64 = value;
    let mut done: usize = 0;
    while done < width
        invariant
            done <= width,
            digits@.len() == done,
            le_bytes(value as nat, width as nat) == digits@ + le_bytes(
                rest as nat,
                (width - done) as nat,
            ),
        decreases width - done,
    {
        let ghost before = digits@;
        let ghost tail = le_bytes((rest / 256) as nat, (width - done - 1) as nat);
        digits.push((rest % 256) as u8);
        proof {
            assert(digits@ + tail =~= before + (seq![(rest % 256) as u8] + tail));
        }
        rest = rest / 256;
        done += 1;
    }
    proof {
        assert(digits@ + Seq::<u8>::empty() =~= digits@);
        lemma_le_bytes_len(value as nat, width as nat);
    }
    match endian {
        Endian::Little => digits,
        Endian::Big => reversed(digits),
    }
}

/// Decodes an unsigned value from at most eight bytes.
pub fn decode_unsigned(bytes: &[u8], endian: Endian) -> (value: u64)
    requires
        bytes@.len() <= 8,
    ensures
        value == decode(endian, bytes@),
        value < pow256(bytes@.len()),
{
    let n = bytes.len();
    let ghost digits = match endian {
        Endian::Little => bytes@,
        Endian::Big => bytes@.reverse(),
    };
    let mut value: u64 = 0;
    let mut taken: usize = 0;
    while taken < n
        invariant
            taken <= n <= 8,
            n == bytes@.len(),
            digits.len() == n,
            digits == (match endian {
                Endian::Little => bytes@,
                Endian::Big => bytes@.reverse(),
            }),
            value == le_value(digits.subrange(n - taken, n as int)),
        decreases n - taken,
    {
        let at = match endian {
            Endian::Little => n - 1 - taken,
            Endian::Big => taken,
        };
        let digit = bytes[at];
        proof {
            let upper = digits.subrange(n - taken, n as int);
            let next = digits.subrange(n - taken - 1, n as int);
            assert(next.drop_first() =~= upper);
            assert(next[0] == digit);
            lemma_le_value_bound(upper);
            lemma_pow256_values();
            lemma_pow256_monotonic(taken as nat, 7);
        }
        value = value * 256 + digit as u64;
        taken += 1;
    }
    proof {
        assert(digits.subrange(0, n as int) =~= digits);
        lemma_le_value_bound(digits);
    }
    value
}

/// Encodes a signed value in `width` bytes, as its two's complement.
pub fn encode_signed(value: i64, width: usize, endian: Endian) -> (bytes: Vec<u8>)
    requires
        1 <= width <= 8,
        fits_signed(value as int, width as nat),
    ensures
        bytes@ == encode(endian, twos_complement(value as int, width as nat), width as nat),
        bytes@.len() == width,
{
    proof {
        lemma_pow256_values();
    }
    let raw: u64 = if value >= 0 {
        value as u64
    } else if width == 8 {
        (value - i64::MIN) as u64 + 0x8000_0000_0000_0000
    } else {
        pow256_of(width) - (-value) as u64
    };
    encode_unsigned(raw, width, endian)
}

/// Decodes a signed value from the two's complement held in one to eight
/// bytes.
pub fn decode_signed(bytes: &[u8], endian: Endian) -> (value: i64)
    requires
        1 <= bytes@.len() <= 8,
    ensures
        value == from_twos_complement(decode(endian, bytes@), bytes@.len()),
        fits_signed(value as int, bytes@.len()),
{
    let width = bytes.len();
    let raw = decode_unsigned(bytes, endian);
    proof {
        lemma_pow256_values();
        lemma_unsigned_round_trip(raw as nat, width as nat);
    }
    if width == 8 {
        if raw >= 0x8000_0000_0000_0000 {
            (raw - 0x8000_0000_0000_0000) as i64 + i64::MIN
        } else {
            raw as i64
        }
    } else {
        let power = pow256_of(width);
        if raw >= power - raw {
            raw as i64 - power as i64
        } else {
            raw as i64
        }
    }
}

/// Reading under the other byte order sees the bytes in reverse.
pub proof fn lemma_decode_flipped(endian: Endian, bytes: Seq<u8>)
    ensures
        decode(endian.flipped(), bytes) == decode(endian, bytes.reverse()),
{
    assert(bytes.reverse().reverse() =~= bytes);
}

/// A value written in one byte order decodes to itself in the other order
/// exactly when its encoding reads the same in both directions.
pub proof fn lemma_flipped_round_trip(endian: Endian, value: nat, width: nat)
    requires
        value < pow256(width),
    ensures
        decode(endian.flipped(), encode(endian, value, width)) == value <==> encode(
            endian,
            value,
            width,
        ) == encode(endian, value, width).reverse(),
{
    let bytes = encode(endian, value, width);
    lemma_decode_flipped(endian, bytes);
    lemma_decode_encode(endian, value, width);
    lemma_encode_len(endian, value, width);
    if decode(endian, bytes.reverse()) == value {
        lemma_encode_decode(endian, bytes.reverse());
        lemma_encode_decode(endian, bytes);
    }
}

} // verus!
