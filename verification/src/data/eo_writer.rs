//! The writer of an EO data stream.

use super::buffer::{
    bytes_mut_capacity, bytes_mut_freeze, bytes_mut_len, bytes_mut_put_slice, bytes_mut_put_u8,
    bytes_mut_seq, bytes_mut_with_capacity, bytes_seq,
};
use super::codepage::{encode_windows_1252, text_limit, windows_1252_encoded};
use super::{encode_number, encode_string, encoded_number, encoded_string};
use super::{CHAR_MAX, SHORT_MAX, THREE_MAX};
use bytes::{Bytes, BytesMut};
use vstd::prelude::*;
use vstd::std_specs::convert::FromSpecImpl;

verus! {

/// Why a value could not be written.
#[derive(Debug, PartialEq, Eq)]
pub enum EoWriterError {
    /// The value is not between 0 and [CHAR_MAX](super::CHAR_MAX).
    InvalidCharValue(i32),
    /// The value is not between 0 and [SHORT_MAX](super::SHORT_MAX).
    InvalidShortValue(i32),
    /// The value is not between 0 and [THREE_MAX](super::THREE_MAX).
    InvalidThreeValue(i32),
    /// The value is not between 0 and [INT_MAX](super::INT_MAX).
    InvalidIntValue(i64),
    /// Any other failure, in words.
    Other(String),
}

impl From<String> for EoWriterError {
    fn from(s: String) -> (error: Self) {
        Self::Other(s)
    }
}

impl FromSpecImpl<String> for EoWriterError {
    open spec fn obeys_from_spec() -> bool {
        true
    }

    open spec fn from_spec(s: String) -> Self {
        EoWriterError::Other(s)
    }
}

/// `text` with each `ÿ`, the character that would be written as the
/// break byte 255, replaced by `y`.
pub open spec fn sanitized(text: Seq<char>) -> Seq<char> {
    text.map_values(|c: char| if c == '\u{ff}' { 'y' } else { c })
}

/// The bytes that a writer appends for the string `text`: those of the
/// text in the code page, the text being sanitized first if the writer
/// is in `sanitize` mode.
pub open spec fn string_bytes(sanitize: bool, text: Seq<char>) -> Seq<u8> {
    windows_1252_encoded(if sanitize { sanitized(text) } else { text })
}

/// A writer for writing data to an EO data stream
///
/// Uses [BytesMut] under the hood for efficient memory usage.
///
/// The data is frozen and converted to [Bytes] when
/// [to_byte_array](EoWriter::to_byte_array) is called.
#[derive(Debug)]
pub struct EoWriter {
    data: BytesMut,
    string_sanitization_mode: bool,
}

impl Default for EoWriter {
    fn default() -> (writer: Self)
        ensures
            writer@ == Seq::<u8>::empty(),
            !writer.sanitizes(),
    {
        Self::new()
    }
}

impl View for EoWriter {
    type V = Seq<u8>;

    /// The bytes written so far.
    closed spec fn view(&self) -> Seq<u8> {
        bytes_mut_seq(self.data)
    }
}

impl EoWriter {
    /// Whether the writer is in string sanitization mode.
    pub closed spec fn sanitizes(&self) -> bool {
        self.string_sanitization_mode
    }

    /// creates a new [EoWriter]
    pub fn new() -> (writer: Self)
        ensures
            writer@ == Seq::<u8>::empty(),
            !writer.sanitizes(),
    {
        Self { data: bytes_mut_with_capacity(0), string_sanitization_mode: false }
    }

    /// creates a new [EoWriter] with the specified capacity
    pub fn with_capacity(size: usize) -> (writer: Self)
        requires
            size <= isize::MAX,
        ensures
            writer@ == Seq::<u8>::empty(),
            !writer.sanitizes(),
    {
        Self { data: bytes_mut_with_capacity(size), string_sanitization_mode: false }
    }

    /// returns the number of bytes that the writer has room for before it
    /// allocates again
    pub fn capacity(&self) -> (capacity: usize)
        ensures
            capacity >= self@.len(),
    {
        bytes_mut_capacity(&self.data)
    }

    /// returns the number of bytes written so far
    pub fn len(&self) -> (len: usize)
        ensures
            len == self@.len(),
    {
        bytes_mut_len(&self.data)
    }

    /// adds a byte to the data stream
    pub fn add_byte(&mut self, byte: u8)
        requires
            old(self)@.len() + 1 <= isize::MAX,
        ensures
            final(self)@ == old(self)@.push(byte),
            final(self).sanitizes() == old(self).sanitizes(),
    {
        bytes_mut_put_u8(&mut self.data, byte);
    }

    /// adds a byte slice to the data stream
    pub fn add_bytes(&mut self, bytes: &[u8])
        requires
            old(self)@.len() + bytes@.len() <= isize::MAX,
        ensures
            final(self)@ == old(self)@ + bytes@,
            final(self).sanitizes() == old(self).sanitizes(),
    {
        bytes_mut_put_slice(&mut self.data, bytes);
    }

    /// adds a char to the data stream
    pub fn add_char(&mut self, char: i32) -> (result: Result<(), EoWriterError>)
        requires
            0 <= char <= CHAR_MAX ==> old(self)@.len() + 1 <= isize::MAX,
        ensures
            0 <= char <= CHAR_MAX ==> result is Ok && final(self)@ == old(self)@ + encoded_number(
                char as int,
            ).take(1),
            !(0 <= char <= CHAR_MAX) ==> result == Err::<(), EoWriterError>(
                EoWriterError::InvalidCharValue(char),
            ) && final(self)@ == old(self)@,
            final(self).sanitizes() == old(self).sanitizes(),
    {
        if char < 0 || char > CHAR_MAX {
            return Err(EoWriterError::InvalidCharValue(char));
        }
        let encoded: [u8; 4] = encode_number(char)?;
        bytes_mut_put_slice(&mut self.data, &encoded[0..1]);
        Ok(())
    }

    /// adds a short to the data stream
    pub fn add_short(&mut self, short: i32) -> (result: Result<(), EoWriterError>)
        requires
            0 <= short <= SHORT_MAX ==> old(self)@.len() + 2 <= isize::MAX,
        ensures
            0 <= short <= SHORT_MAX ==> result is Ok && final(self)@ == old(self)@
                + encoded_number(short as int).take(2),
            !(0 <= short <= SHORT_MAX) ==> result == Err::<(), EoWriterError>(
                EoWriterError::InvalidShortValue(short),
            ) && final(self)@ == old(self)@,
            final(self).sanitizes() == old(self).sanitizes(),
    {
        if short < 0 || short > SHORT_MAX {
            return Err(EoWriterError::InvalidShortValue(short));
        }
        let encoded: [u8; 4] = encode_number(short)?;
        bytes_mut_put_slice(&mut self.data, &encoded[0..2]);
        Ok(())
    }

    /// adds a three to the data stream
    pub fn add_three(&mut self, three: i32) -> (result: Result<(), EoWriterError>)
        requires
            0 <= three <= THREE_MAX ==> old(self)@.len() + 3 <= isize::MAX,
        ensures
            0 <= three <= THREE_MAX ==> result is Ok && final(self)@ == old(self)@
                + encoded_number(three as int).take(3),
            !(0 <= three <= THREE_MAX) ==> result == Err::<(), EoWriterError>(
                EoWriterError::InvalidThreeValue(three),
            ) && final(self)@ == old(self)@,
            final(self).sanitizes() == old(self).sanitizes(),
    {
        if three < 0 || three > THREE_MAX {
            return Err(EoWriterError::InvalidThreeValue(three));
        }
        let encoded: [u8; 4] = encode_number(three)?;
        bytes_mut_put_slice(&mut self.data, &encoded[0..3]);
        Ok(())
    }

    /// adds an int to the data stream
    ///
    /// Every `i32` from 0 up has an encoding of four bytes; a negative
    /// one has none.
    pub fn add_int(&mut self, number: i32) -> (result: Result<(), EoWriterError>)
        requires
            0 <= number ==> old(self)@.len() + 4 <= isize::MAX,
        ensures
            0 <= number ==> result is Ok && final(self)@ == old(self)@ + encoded_number(
                number as int,
            ),
            number < 0 ==> result == Err::<(), EoWriterError>(
                EoWriterError::InvalidIntValue(number as i64),
            ) && final(self)@ == old(self)@,
            final(self).sanitizes() == old(self).sanitizes(),
    {
        let encoded: [u8; 4] = encode_number(number)?;
        bytes_mut_put_slice(&mut self.data, &encoded[0..4]);
        Ok(())
    }

    /// The string as it is to be encoded: with each `ÿ` replaced by `y`
    /// in string sanitization mode, and as it is otherwise.
    fn sanitize_string(&self, string: &str) -> (text: String)
        ensures
            text@ == if self.sanitizes() { sanitized(string@) } else { string@ },
    {
        if self.string_sanitization_mode {
            let mut text = String::new();
            for c in iter: string.chars()
                invariant
                    iter.seq() == string@,
                    text@ == sanitized(string@.take(iter.index())),
            {
                text.push(if c == '\u{ff}' { 'y' } else { c });
            }
            text
        } else {
            string.to_owned()
        }
    }

    /// adds a string to the data stream
    ///
    /// The string must be short enough to be encoded, and its bytes must
    /// fit the buffer; [try_add_string](EoWriter::try_add_string) tests
    /// both.
    pub fn add_string(&mut self, string: &str)
        requires
            string@.len() <= text_limit(),
            old(self)@.len() + string_bytes(old(self).sanitizes(), string@).len() <= isize::MAX,
        ensures
            final(self)@ == old(self)@ + string_bytes(old(self).sanitizes(), string@),
            final(self).sanitizes() == old(self).sanitizes(),
    {
        let string: String = self.sanitize_string(string);
        let string: Vec<u8> = encode_windows_1252(string.as_str());
        bytes_mut_put_slice(&mut self.data, string.as_slice());
    }

    /// adds a string to the data stream if it is short enough to be
    /// encoded and its bytes fit the buffer, and tells whether it did
    pub fn try_add_string(&mut self, string: &str) -> (added: bool)
        ensures
            added == (string@.len() <= text_limit() && old(self)@.len() + string_bytes(
                old(self).sanitizes(),
                string@,
            ).len() <= isize::MAX),
            added ==> final(self)@ == old(self)@ + string_bytes(old(self).sanitizes(), string@),
            !added ==> final(self)@ == old(self)@,
            final(self).sanitizes() == old(self).sanitizes(),
    {
        if !self.has_room_for(string) {
            return false;
        }
        self.add_string(string);
        true
    }

    /// encodes a string and adds it to the data stream
    ///
    /// The string must be short enough to be encoded, and its bytes must
    /// fit the buffer; [try_add_encoded_string](EoWriter::try_add_encoded_string)
    /// tests both.
    pub fn add_encoded_string(&mut self, string: &str)
        requires
            string@.len() <= text_limit(),
            old(self)@.len() + string_bytes(old(self).sanitizes(), string@).len() <= isize::MAX,
        ensures
            final(self)@ == old(self)@ + encoded_string(
                string_bytes(old(self).sanitizes(), string@),
            ),
            final(self).sanitizes() == old(self).sanitizes(),
    {
        let string: String = self.sanitize_string(string);
        let mut string: Vec<u8> = encode_windows_1252(string.as_str());
        encode_string(string.as_mut_slice());
        bytes_mut_put_slice(&mut self.data, string.as_slice());
    }

    /// encodes a string and adds it to the data stream if it is short
    /// enough to be encoded and its bytes fit the buffer, and tells
    /// whether it did
    pub fn try_add_encoded_string(&mut self, string: &str) -> (added: bool)
        ensures
            added == (string@.len() <= text_limit() && old(self)@.len() + string_bytes(
                old(self).sanitizes(),
                string@,
            ).len() <= isize::MAX),
            added ==> final(self)@ == old(self)@ + encoded_string(
                string_bytes(old(self).sanitizes(), string@),
            ),
            !added ==> final(self)@ == old(self)@,
            final(self).sanitizes() == old(self).sanitizes(),
    {
        if !self.has_room_for(string) {
            return false;
        }
        self.add_encoded_string(string);
        true
    }

    /// Tells whether `string` is short enough to be encoded and its
    /// bytes fit the buffer, which takes encoding it.
    fn has_room_for(&self, string: &str) -> (fits: bool)
        ensures
            fits == (string@.len() <= text_limit() && self@.len() + string_bytes(
                self.sanitizes(),
                string@,
            ).len() <= isize::MAX),
    {
        if string.unicode_len() > isize::MAX as usize / 64 {
            return false;
        }
        let text: String = self.sanitize_string(string);
        let bytes: Vec<u8> = encode_windows_1252(text.as_str());
        let len: usize = self.len();
        len <= isize::MAX as usize && bytes.len() <= isize::MAX as usize - len
    }

    /// gets the string sanitization mode
    pub fn get_string_sanitization_mode(&self) -> (mode: bool)
        ensures
            mode == self.sanitizes(),
    {
        self.string_sanitization_mode
    }

    /// sets the string sanitization mode
    pub fn set_string_sanitization_mode(&mut self, mode: bool)
        ensures
            final(self).sanitizes() == mode,
            final(self)@ == old(self)@,
    {
        self.string_sanitization_mode = mode;
    }

    /// freezes the data and returns a [Bytes] object that can be freely cloned
    pub fn to_byte_array(self) -> (bytes: Bytes)
        ensures
            bytes_seq(bytes) == self@,
    {
        bytes_mut_freeze(self.data)
    }
}

} // verus!
