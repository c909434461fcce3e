//! Text in the code page of the protocol, Windows-1252, by the
//! `encoding_rs` crate.
//!
//! Nothing in this file is proved. Each contract says what the source of
//! `encoding_rs`, or the documentation of std, shows of the function
//! that it names; the proofs of the reader and the writer rest on them.

use vstd::prelude::*;

verus! {

/// The most bytes, or characters, that are handed to `encoding_rs` in
/// one call.
///
/// `encoding_rs` panics where the size that it computes for a buffer
/// overflows, and std where a buffer is to grow past `isize::MAX`. The
/// sizes are a few times the size of the input: below this limit they
/// stay in range.
pub open spec fn text_limit() -> int {
    isize::MAX / 64
}

/// The text that `encoding_rs::Encoding::decode`, called on
/// `encoding_rs::WINDOWS_1252`, makes of `bytes`.
///
/// Each byte stands for one character of the code page. Where the bytes
/// start with a byte order mark of UTF-8 or UTF-16, the function drops
/// the mark and reads the rest in that encoding, putting U+FFFD for what
/// is malformed.
pub uninterp spec fn windows_1252_decoded(bytes: Seq<u8>) -> Seq<char>;

/// The bytes that `encoding_rs::Encoding::encode`, called on
/// `encoding_rs::WINDOWS_1252`, makes of `text`.
///
/// Each character of the code page becomes its one byte. A character
/// that the code page lacks becomes a numeric character reference as
/// HTML writes one, such as `&#256;`.
pub uninterp spec fn windows_1252_encoded(text: Seq<char>) -> Seq<u8>;

/// `encoding_rs::WINDOWS_1252.decode(bytes)`, of which the text is kept
/// and made a `String`.
///
/// The function reserves at most three bytes of text, and three more,
/// for each byte of its input, twice over where it has to grow its
/// buffer: no more than seven times a length within [text_limit].
#[verifier::external_body]
pub(crate) fn decode_windows_1252(bytes: &[u8]) -> (text: String)
    requires
        bytes@.len() <= text_limit(),
    ensures
        text@ == windows_1252_decoded(bytes@),
{
    let (text, _, _) = encoding_rs::WINDOWS_1252.decode(bytes);
    text.into_owned()
}

/// `encoding_rs::WINDOWS_1252.encode(text)`, of which the bytes are kept
/// and made a `Vec`.
///
/// The function reserves the length of `text` in UTF-8 and ten bytes
/// more, rounded up to a power of two, and as much again whenever
/// references have filled its buffer. A reference takes at most three
/// and a half times the room of its character in UTF-8, and a character
/// at most four bytes: the buffer stays within forty times the number of
/// characters, for a number within [text_limit].
#[verifier::external_body]
pub(crate) fn encode_windows_1252(text: &str) -> (bytes: Vec<u8>)
    requires
        text@.len() <= text_limit(),
    ensures
        bytes@ == windows_1252_encoded(text@),
{
    let (bytes, _, _) = encoding_rs::WINDOWS_1252.encode(text);
    bytes.into_owned()
}

/// `String::push`: appends one character.
pub assume_specification[ String::push ](text: &mut String, ch: char)
    ensures
        final(text)@ == old(text)@.push(ch),
;

} // verus!
