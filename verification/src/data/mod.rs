//! Numbers and strings as they travel in an EO data stream.

use vstd::arithmetic::div_mod::{
    lemma_fundamental_div_mod_converse, lemma_mod_breakdown, lemma_mod_mod,
};
use vstd::prelude::*;

mod buffer;
pub use buffer::{bytes_mut_seq, bytes_seq};
mod codepage;
pub use codepage::{text_limit, windows_1252_decoded, windows_1252_encoded};
mod eo_reader;
pub use eo_reader::{
    lemma_next_break_from, next_break_from, EoReader, EoReaderError, BREAK_BYTE,
};
mod eo_serialize;
pub use eo_serialize::{EoSerialize, EoSerializeError};
mod eo_writer;
pub use eo_writer::{sanitized, string_bytes, EoWriter, EoWriterError};

verus! {

/// The maximum value of an EO char (1-byte encoded integer type)
#[verifier::inline]
pub const CHAR_MAX: i32 = 253;

/// The maximum value of an EO short (2-byte encoded integer type)
#[verifier::inline]
pub const SHORT_MAX: i32 = 64009;

/// The maximum value of an EO three (3-byte encoded integer type)
#[verifier::inline]
pub const THREE_MAX: i32 = 16194277;

/// The maximum value of an EO int (4-byte encoded integer type)
#[verifier::inline]
pub const INT_MAX: i32 = 2147483647;

/// The raw byte that stands for an absent digit, and so for zero.
#[verifier::inline]
pub const ZERO_BYTE: u8 = 254;

/// The four bytes that stand for `number`, least significant first.
///
/// An EO number is written in base [CHAR_MAX]. Each digit travels as
/// `digit + 1`, so that no byte of it is zero; a position that the
/// number is too small to reach holds [ZERO_BYTE].
pub open spec fn encoded_number(number: int) -> Seq<u8>
    recommends
        0 <= number <= INT_MAX,
{
    seq![
        (number % (CHAR_MAX as int) + 1) as u8,
        if number >= CHAR_MAX {
            (number / (CHAR_MAX as int) % (CHAR_MAX as int) + 1) as u8
        } else {
            ZERO_BYTE
        },
        if number >= SHORT_MAX {
            (number / (SHORT_MAX as int) % (CHAR_MAX as int) + 1) as u8
        } else {
            ZERO_BYTE
        },
        if number >= THREE_MAX { (number / (THREE_MAX as int) + 1) as u8 } else { ZERO_BYTE },
    ]
}

/// The digit that a raw byte stands for. Both [ZERO_BYTE] and the byte 0,
/// which no encoder writes, stand for the digit zero.
pub open spec fn digit_of(byte: u8) -> int {
    if byte == 0 || byte == ZERO_BYTE {
        0
    } else {
        byte - 1
    }
}

/// The byte at position `i` of an encoded number, where a position past
/// the end of `bytes` reads as [ZERO_BYTE].
pub open spec fn padded_byte(bytes: Seq<u8>, i: int) -> u8 {
    if 0 <= i < bytes.len() {
        bytes[i]
    } else {
        ZERO_BYTE
    }
}

/// The number that the first four bytes of `bytes` stand for.
pub open spec fn decoded_number(bytes: Seq<u8>) -> int {
    digit_of(padded_byte(bytes, 3)) * THREE_MAX + digit_of(padded_byte(bytes, 2)) * SHORT_MAX
        + digit_of(padded_byte(bytes, 1)) * CHAR_MAX + digit_of(padded_byte(bytes, 0))
}

/// What is left of `value` when it is cut to the 32 bits of an `i32`,
/// for a `value` from 0 up to the greatest that four encoded bytes can
/// stand for.
pub open spec fn wrapped_to_i32(value: int) -> int {
    if value > i32::MAX {
        value - 0x1_0000_0000
    } else {
        value
    }
}

/// Taking `number` modulo `low * base` keeps its remainder by `low` and
/// the lowest digit, in base `base`, of its quotient by `low`.
proof fn lemma_low_digits(number: int, low: int, base: int)
    requires
        0 <= number,
        0 < low,
        0 < base,
    ensures
        (number % (low * base)) / low == (number / low) % base,
        (number % (low * base)) % low == number % low,
{
    lemma_mod_breakdown(number, low, base);
    lemma_mod_mod(number, low, base);
    assert(low * ((number / low) % base) == ((number / low) % base) * low) by (nonlinear_arith);
    lemma_fundamental_div_mod_converse(
        number % (low * base),
        low,
        (number / low) % base,
        number % low,
    );
}

/// Returns an encoded byte array from `number`
///
/// EO uses a maximum of four bytes to represent a number
/// in a data stream.
///
/// The value is spread across the four bytes based on if the
/// value is greater than the defined maximum for each amount of bytes
/// see [CHAR_MAX], [SHORT_MAX], [THREE_MAX]
///
/// The four bytes are initialized with a value of 254.
/// [decode_number] reads a byte of 254 as the digit zero.
///
/// A negative `number` has no encoding and is reported as
/// [EoWriterError::InvalidIntValue].
pub fn encode_number(number: i32) -> (result: Result<[u8; 4], EoWriterError>)
    ensures
        number >= 0 ==> (result matches Ok(bytes) && bytes@ == encoded_number(number as int)),
        number < 0 ==> result == Err::<[u8; 4], EoWriterError>(
            EoWriterError::InvalidIntValue(number as i64),
        ),
{
    if number < 0 {
        return Err(EoWriterError::InvalidIntValue(number as i64));
    }
    let mut bytes: [u8; 4] = [ZERO_BYTE, ZERO_BYTE, ZERO_BYTE, ZERO_BYTE];
    let whole: i32 = number;
    let mut number: i32 = number;
    proof {
        lemma_low_digits(number as int, SHORT_MAX as int, CHAR_MAX as int);
        lemma_low_digits(number as int, CHAR_MAX as int, CHAR_MAX as int);
    }

    if whole >= THREE_MAX {
        bytes[3] = (number / THREE_MAX) as u8 + 1;
        number = number % THREE_MAX;
    }
    if whole >= SHORT_MAX {
        bytes[2] = (number / SHORT_MAX) as u8 + 1;
        number = number % SHORT_MAX;
    }
    if whole >= CHAR_MAX {
        bytes[1] = (number / CHAR_MAX) as u8 + 1;
        number = number % CHAR_MAX;
    }
    bytes[0] = number as u8 + 1;

    Ok(bytes)
}

/// The digit at `position` of an encoded number, where a position past the
/// end of `bytes` holds no digit.
fn digit_at(bytes: &[u8], position: usize) -> (digit: u8)
    ensures
        digit == digit_of(padded_byte(bytes@, position as int)),
{
    if position < bytes.len() && bytes[position] != 0 && bytes[position] != ZERO_BYTE {
        bytes[position] - 1
    } else {
        0
    }
}

/// Returns a decoded number from an EO Byte array
///
/// EO uses a maximum of four bytes to represent a number
/// in a data stream.
///
/// You can provide any number of [u8]s in `bytes`
/// but only the first four are used.
///
/// If you provide less than four than the remaining bytes default to 254
///
/// Any byte of 254, and any byte of 0, counts as the digit zero; every
/// other byte is one more than its digit. Four bytes can stand for more
/// than an `i32` holds: such a value comes back cut to 32 bits.
pub fn decode_number(bytes: &[u8]) -> (number: i32)
    ensures
        number == wrapped_to_i32(decoded_number(bytes@)),
{
    let d3: i64 = digit_at(bytes, 3) as i64;
    let d2: i64 = digit_at(bytes, 2) as i64;
    let d1: i64 = digit_at(bytes, 1) as i64;
    let d0: i64 = digit_at(bytes, 0) as i64;
    let value: i64 = d3 * THREE_MAX as i64 + d2 * SHORT_MAX as i64 + d1 * CHAR_MAX as i64 + d0;
    if value > i32::MAX as i64 {
        (value - 0x1_0000_0000) as i32
    } else {
        value as i32
    }
}

/// The least number that `width` encoded bytes cannot stand for.
pub open spec fn width_limit(width: int) -> int {
    if width == 1 {
        CHAR_MAX as int
    } else if width == 2 {
        SHORT_MAX as int
    } else if width == 3 {
        THREE_MAX as int
    } else {
        INT_MAX + 1
    }
}

/// Decoding undoes encoding: every number from 0 to [INT_MAX] is the
/// number that its four encoded bytes stand for, and fits an `i32`.
pub proof fn lemma_decode_inverts_encode(number: int)
    requires
        0 <= number <= INT_MAX,
    ensures
        decoded_number(encoded_number(number)) == number,
        wrapped_to_i32(decoded_number(encoded_number(number))) == number,
{
    lemma_low_digits(number, SHORT_MAX as int, CHAR_MAX as int);
    lemma_low_digits(number, CHAR_MAX as int, CHAR_MAX as int);
}

/// Decoding undoes a narrow encoding: a number below the limit of a
/// width is the number that the first `width` of its encoded bytes stand
/// for, the missing bytes being read as padding.
pub proof fn lemma_decode_inverts_narrow_encode(number: int, width: int)
    requires
        1 <= width <= 4,
        0 <= number < width_limit(width),
    ensures
        decoded_number(encoded_number(number).take(width)) == number,
{
    lemma_decode_inverts_encode(number);
}

/// What the string cipher puts in place of `byte`.
///
/// The cipher mirrors a byte within a range of printable characters and
/// leaves every other byte as it is. At a `wide` position the range is
/// 34 to 125; elsewhere each of its halves, 34 to 79 and 80 to 125, is
/// mirrored within itself.
pub open spec fn substituted_byte(wide: bool, byte: u8) -> u8 {
    if wide && 34 <= byte <= 125 {
        (125 - byte + 34) as u8
    } else if !wide && 34 <= byte <= 79 {
        (79 - byte + 34) as u8
    } else if !wide && 80 <= byte <= 125 {
        (125 - byte + 80) as u8
    } else {
        byte
    }
}

/// Whether the position `i` of a string of `len` bytes is a wide one:
/// every other position is, and the last one never is.
pub open spec fn wide_position(len: int, i: int) -> bool {
    i % 2 != (len + 1) % 2
}

/// `bytes` with each byte substituted as its position asks.
pub open spec fn substituted(bytes: Seq<u8>) -> Seq<u8> {
    Seq::new(
        bytes.len(),
        |i: int| substituted_byte(wide_position(bytes.len() as int, i), bytes[i]),
    )
}

/// The encoded form of the string `bytes`: substituted, then reversed.
pub open spec fn encoded_string(bytes: Seq<u8>) -> Seq<u8> {
    substituted(bytes).reverse()
}

/// The string that `bytes` is the encoded form of: reversed, then
/// substituted.
pub open spec fn decoded_string(bytes: Seq<u8>) -> Seq<u8> {
    substituted(bytes.reverse())
}

/// Decoding a string undoes encoding it, and encoding undoes decoding,
/// whatever bytes the string holds.
pub proof fn lemma_string_cipher_inverts(bytes: Seq<u8>)
    ensures
        decoded_string(encoded_string(bytes)) == bytes,
        encoded_string(decoded_string(bytes)) == bytes,
{
}

/// Puts each byte's substitute in its place.
fn substitute(buf: &mut [u8])
    ensures
        final(buf)@ == substituted(old(buf)@),
{
    let len: usize = buf.len();
    let parity: usize = if len % 2 == 0 { 1 } else { 0 };
    let mut i: usize = 0;
    while i < len
        invariant
            0 <= i <= len,
            len == old(buf)@.len(),
            buf@.len() == len,
            parity == (len + 1) % 2,
            forall|j: int| 0 <= j < i ==> buf@[j] == substituted(old(buf)@)[j],
            forall|j: int| i <= j < len ==> buf@[j] == old(buf)@[j],
        decreases len - i,
    {
        let c: u8 = buf[i];
        let wide: bool = i % 2 != parity;
        if wide && 34 <= c && c <= 125 {
            buf[i] = 125 - c + 34;
        } else if !wide && 34 <= c && c <= 79 {
            buf[i] = 79 - c + 34;
        } else if !wide && 80 <= c && c <= 125 {
            buf[i] = 125 - c + 80;
        }
        i += 1;
    }
}

/// Turns the order of the bytes round.
fn reverse(buf: &mut [u8])
    ensures
        final(buf)@ == old(buf)@.reverse(),
{
    let len: usize = buf.len();
    let mut i: usize = 0;
    while i < len / 2
        invariant
            0 <= i <= len / 2,
            len == old(buf)@.len(),
            buf@.len() == len,
            forall|j: int| 0 <= j < i ==> buf@[j] == old(buf)@[len - 1 - j],
            forall|j: int| len - i <= j < len ==> buf@[j] == old(buf)@[len - 1 - j],
            forall|j: int| i <= j < len - i ==> buf@[j] == old(buf)@[j],
        decreases len / 2 - i,
    {
        let front: u8 = buf[i];
        buf[i] = buf[len - 1 - i];
        buf[len - 1 - i] = front;
        i += 1;
    }
}

/// Decodes a string in place
///
/// This is used for map names and sign text in map files
pub fn decode_string(buf: &mut [u8])
    ensures
        final(buf)@ == decoded_string(old(buf)@),
{
    reverse(buf);
    substitute(buf);
}

/// Encodes a string in place
///
/// This is used for map names and sign text in map files
pub fn encode_string(buf: &mut [u8])
    ensures
        final(buf)@ == encoded_string(old(buf)@),
{
    substitute(buf);
    reverse(buf);
}

} // verus!
