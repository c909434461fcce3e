//! The reader of an EO data stream.

use super::buffer::{bytes_as_slice, bytes_seq};
use super::codepage::{decode_windows_1252, text_limit, windows_1252_decoded};
use super::{decode_number, decode_string, decoded_number, decoded_string, wrapped_to_i32};
use bytes::Bytes;
use vstd::prelude::*;
use vstd::slice::{slice_subrange, slice_to_vec};
use vstd::std_specs::convert::FromSpecImpl;

verus! {

/// Why a read failed.
#[derive(Debug)]
pub enum EoReaderError {
    /// The next chunk was asked for outside chunked reading mode.
    ChunkedReadingDisabled,
    /// Any other failure, in words.
    Other(String),
}

impl From<String> for EoReaderError {
    fn from(s: String) -> (error: Self) {
        Self::Other(s)
    }
}

impl FromSpecImpl<String> for EoReaderError {
    open spec fn obeys_from_spec() -> bool {
        true
    }

    open spec fn from_spec(s: String) -> Self {
        EoReaderError::Other(s)
    }
}

/// The byte that ends a chunk.
#[verifier::inline]
pub const BREAK_BYTE: u8 = 0xff;

/// Where the chunk that holds `position` ends: the index of the first
/// break byte at or after `position`, or the length of `data` if there
/// is none.
pub open spec fn next_break_from(data: Seq<u8>, position: int) -> int
    decreases data.len() - position,
{
    if position < 0 || position >= data.len() {
        data.len() as int
    } else if data[position] == BREAK_BYTE {
        position
    } else {
        next_break_from(data, position + 1)
    }
}

/// No break byte lies between `position` and the break that follows it.
pub proof fn lemma_next_break_from(data: Seq<u8>, position: int)
    requires
        0 <= position <= data.len(),
    ensures
        position <= next_break_from(data, position) <= data.len(),
        forall|i: int| position <= i < next_break_from(data, position) ==> data[i] != BREAK_BYTE,
        next_break_from(data, position) < data.len() ==> data[next_break_from(data, position)]
            == BREAK_BYTE,
    decreases data.len() - position,
{
    if position < data.len() && data[position] != BREAK_BYTE {
        lemma_next_break_from(data, position + 1);
    }
}

/// From anywhere in a chunk the same break follows.
proof fn lemma_next_break_within(data: Seq<u8>, position: int, later: int)
    requires
        0 <= position <= later <= next_break_from(data, position),
    ensures
        next_break_from(data, later) == next_break_from(data, position),
    decreases later - position,
{
    if position < later {
        lemma_next_break_from(data, position);
        lemma_next_break_within(data, position + 1, later);
    }
}

/// A reader for reading data from an EO data stream
///
/// ## Chunked reading mode
///
/// In chunked reading mode the reader treats each byte of 255 as the
/// end of a chunk: a read stops short of it, and
/// [next_chunk](EoReader::next_chunk) steps over it.
#[derive(Debug)]
pub struct EoReader {
    data: Bytes,
    cursor: Cursor,
}

/// Where a reader stands in its data.
#[derive(Debug, Clone, Copy)]
struct Cursor {
    position: usize,
    chunked_reading_mode: bool,
    chunk_start: usize,
    next_break: Option<usize>,
}

impl EoReader {
    /// The bytes that the reader reads from.
    pub closed spec fn data(&self) -> Seq<u8> {
        bytes_seq(self.data)
    }

    /// The index of the next byte to read.
    pub closed spec fn position(&self) -> int {
        self.cursor.position as int
    }

    /// Whether the reader is in chunked reading mode.
    pub closed spec fn chunked(&self) -> bool {
        self.cursor.chunked_reading_mode
    }

    /// Where the chunk that was last entered starts: the index of the
    /// break before it.
    pub closed spec fn chunk_start(&self) -> int {
        self.cursor.chunk_start as int
    }

    /// Where the reader takes the chunk to end, once it has looked.
    pub closed spec fn next_break(&self) -> Option<int> {
        match self.cursor.next_break {
            Some(next_break) => Some(next_break as int),
            None => None,
        }
    }

    /// What holds of every reader: its cursor lies in its data, at or
    /// after the start of its chunk; the break that it has found lies in
    /// its data too, at or after the start of its chunk; and in chunked
    /// reading mode that break is the first one from the cursor on.
    pub open spec fn wf(&self) -> bool {
        &&& 0 <= self.chunk_start() <= self.position() <= self.data().len()
        &&& self.next_break() matches Some(next_break) ==> self.chunk_start() <= next_break
            <= self.data().len()
        &&& self.chunked() ==> self.next_break() == Some(
            next_break_from(self.data(), self.position()),
        )
    }

    #[verifier::type_invariant]
    spec fn well_formed(&self) -> bool {
        self.wf()
    }

    /// How many bytes are left to read: in chunked reading mode those up
    /// to the next break, else those up to the end of the data.
    pub open spec fn bytes_left(&self) -> int {
        if self.chunked() {
            match self.next_break() {
                Some(next_break) if next_break > self.position() => next_break - self.position(),
                _ => 0,
            }
        } else {
            self.data().len() - self.position()
        }
    }

    /// The next `length` bytes from the cursor on.
    pub open spec fn next_bytes(&self, length: int) -> Seq<u8> {
        self.data().subrange(self.position(), self.position() + length)
    }

    /// How many bytes the read of a number of `width` bytes takes: all
    /// of them, or as many as are left if those are fewer.
    pub open spec fn number_len(&self, width: int) -> int {
        if width <= self.bytes_left() {
            width
        } else {
            self.bytes_left()
        }
    }

    /// The bytes that the read of a number of `width` bytes takes. Where
    /// they are fewer than `width`, the number is decoded from them as a
    /// shorter one.
    pub open spec fn number_bytes(&self, width: int) -> Seq<u8> {
        self.next_bytes(self.number_len(width))
    }

    /// How far a read moves the cursor that takes `count` bytes where
    /// `in_bounds` holds and fails otherwise.
    pub open spec fn moved(in_bounds: bool, count: int) -> int {
        if in_bounds {
            count
        } else {
            0
        }
    }

    /// The text of a string of `length` bytes from the cursor on: the
    /// bytes read in the code page, and no text where there is no byte.
    pub open spec fn text_of(&self, length: int) -> Seq<char> {
        if length == 0 {
            Seq::<char>::empty()
        } else {
            windows_1252_decoded(self.next_bytes(length))
        }
    }

    /// The text of an encoded string of `length` bytes from the cursor
    /// on: the bytes put through the string cipher and then read in the
    /// code page, and no text where there is no byte.
    pub open spec fn encoded_text_of(&self, length: int) -> Seq<char> {
        if length == 0 {
            Seq::<char>::empty()
        } else {
            windows_1252_decoded(decoded_string(self.next_bytes(length)))
        }
    }

    /// Whether this is the reader `before` after it has gone on to its
    /// next chunk: the break that `before` had found is the start of the
    /// chunk, the cursor stands behind it, or on it where the data ends
    /// there, and the next break is the first from the cursor on.
    pub open spec fn is_next_chunk_of(&self, before: &Self) -> bool {
        &&& self.data() == before.data()
        &&& self.chunked() == before.chunked()
        &&& before.next_break() matches Some(reached)
        &&& self.chunk_start() == reached
        &&& self.position() == if reached < self.data().len() {
            reached + 1
        } else {
            reached
        }
        &&& self.next_break() == Some(next_break_from(self.data(), self.position()))
    }

    /// Whether this is the reader `before` after it has read `count`
    /// bytes: the cursor has moved, and nothing else has changed.
    pub open spec fn is_past(&self, before: &Self, count: int) -> bool {
        &&& self.data() == before.data()
        &&& self.position() == before.position() + count
        &&& self.chunked() == before.chunked()
        &&& self.chunk_start() == before.chunk_start()
        &&& self.next_break() == before.next_break()
    }

    /// creates a new [EoReader] with the specified data
    pub fn new(data: Bytes) -> (reader: Self)
        ensures
            reader.data() == bytes_seq(data),
            reader.position() == 0,
            !reader.chunked(),
            reader.chunk_start() == 0,
            reader.next_break() is None,
            reader.wf(),
    {
        Self {
            data,
            cursor: Cursor {
                position: 0,
                chunked_reading_mode: false,
                chunk_start: 0,
                next_break: None,
            },
        }
    }

    /// returns the current chunked reading mode for the reader
    pub fn get_chunked_reading_mode(&self) -> (enabled: bool)
        ensures
            enabled == self.chunked(),
    {
        self.cursor.chunked_reading_mode
    }

    /// returns the number of bytes remaining in the input data or chunk if chunked reading is
    /// enabled
    ///
    /// A reader in chunked reading mode that had not found its next break
    /// could not tell. There is no such reader, so that the count is
    /// always there.
    pub fn remaining(&self) -> (result: Result<usize, EoReaderError>)
        ensures
            result matches Ok(count) && count == self.bytes_left(),
            self.wf(),
    {
        proof {
            use_type_invariant(self);
        }
        let position: usize = self.cursor.position;
        if self.cursor.chunked_reading_mode {
            let next_break: usize = match self.cursor.next_break {
                Some(next_break) => next_break,
                // Never taken: a reader in chunked reading mode has found
                // its break.
                None => {
                    return Err(EoReaderError::Other("next break is missing".to_owned()));
                },
            };
            if next_break > position {
                Ok(next_break - position)
            } else {
                Ok(0)
            }
        } else {
            Ok(bytes_as_slice(&self.data).len() - position)
        }
    }

    /// sets the chunked reading mode for the reader
    ///
    /// in chunked reading mode:
    /// * the reader will treat `0xFF` bytes as the end of the current chunk
    /// * [next_chunk](EoReader::next_chunk) can be called to move to the next chunk
    ///
    /// A reader that enters the mode looks for the end of its chunk from
    /// where its cursor stands. So does one that leaves it and has not
    /// looked before; any other keeps the break that it has found.
    pub fn set_chunked_reading_mode(&mut self, enabled: bool)
        ensures
            final(self).chunked() == enabled,
            final(self).next_break() == if enabled || old(self).next_break() is None {
                Some(next_break_from(old(self).data(), old(self).position()))
            } else {
                old(self).next_break()
            },
            final(self).data() == old(self).data(),
            final(self).position() == old(self).position(),
            final(self).chunk_start() == old(self).chunk_start(),
            final(self).wf(),
    {
        proof {
            use_type_invariant(&*self);
        }
        let mut cursor: Cursor = self.cursor;
        if enabled || cursor.next_break.is_none() {
            cursor.next_break = Some(self.find_next_break_index(cursor.position));
        }
        cursor.chunked_reading_mode = enabled;
        self.cursor = cursor;
    }

    /// moves the reader position to the start of the next chunk in the input data
    ///
    /// The break at which the chunk ended becomes the start of the new
    /// one, the cursor steps over it unless the data ends there, and the
    /// reader looks for the next break from where the cursor then stands.
    pub fn next_chunk(&mut self) -> (result: Result<(), EoReaderError>)
        ensures
            !old(self).chunked() ==> (result matches Err(EoReaderError::ChunkedReadingDisabled)
                && final(self).is_past(old(self), 0)),
            old(self).chunked() ==> result is Ok && final(self).is_next_chunk_of(old(self)),
            final(self).wf(),
    {
        proof {
            use_type_invariant(&*self);
        }
        if !self.cursor.chunked_reading_mode {
            return Err(EoReaderError::ChunkedReadingDisabled);
        }
        let next_break: usize = match self.cursor.next_break {
            Some(next_break) => next_break,
            // Never taken: a reader in chunked reading mode has found its
            // break.
            None => {
                return Err(EoReaderError::Other("next break is missing".to_owned()));
            },
        };

        let mut position: usize = next_break;
        if position < bytes_as_slice(&self.data).len() {
            position += 1;
        }
        self.cursor = Cursor {
            position,
            chunked_reading_mode: true,
            chunk_start: next_break,
            next_break: Some(self.find_next_break_index(position)),
        };

        Ok(())
    }

    /// The index of the first break byte at or after `position`, or the
    /// length of the data if there is none.
    fn find_next_break_index(&self, position: usize) -> (index: usize)
        requires
            position <= self.data().len(),
        ensures
            index == next_break_from(self.data(), position as int),
            position <= index <= self.data().len(),
    {
        let data: &[u8] = bytes_as_slice(&self.data);
        let mut index: usize = position;
        while index < data.len() && data[index] != BREAK_BYTE
            invariant
                position <= index <= data@.len(),
                next_break_from(data@, index as int) == next_break_from(data@, position as int),
            decreases data@.len() - index,
        {
            index += 1;
        }
        index
    }

    /// returns a single [u8] from the data stream
    ///
    /// increases the read position by 1
    pub fn get_byte(&mut self) -> (result: Result<u8, EoReaderError>)
        ensures
            old(self).bytes_left() > 0 ==> (result matches Ok(byte) && byte == old(
                self,
            ).data()[old(self).position()]),
            old(self).bytes_left() <= 0 ==> result matches Err(EoReaderError::Other(_)),
            final(self).is_past(old(self), Self::moved(old(self).bytes_left() > 0, 1)),
            final(self).wf(),
    {
        let buf: &[u8] = self.read_number_bytes(1)?;
        Ok(buf[0])
    }

    /// returns the next `length` bytes of the data stream
    ///
    /// increases the read position by `length`
    pub fn get_bytes(&mut self, length: usize) -> (result: Result<Vec<u8>, EoReaderError>)
        ensures
            length <= old(self).bytes_left() ==> (result matches Ok(bytes) && bytes@ == old(
                self,
            ).next_bytes(length as int)),
            length > old(self).bytes_left() ==> result matches Err(EoReaderError::Other(_)),
            final(self).is_past(
                old(self),
                Self::moved(length <= old(self).bytes_left(), length as int),
            ),
            final(self).wf(),
    {
        let buf: &[u8] = self.read_bytes(length)?;
        Ok(slice_to_vec(buf))
    }

    /// returns a single [u8] from the data stream decoded into an [i32]
    ///
    /// increases the read position by 1
    pub fn get_char(&mut self) -> (result: Result<i32, EoReaderError>)
        ensures
            old(self).bytes_left() > 0 ==> (result matches Ok(number) && number == decoded_number(
                old(self).number_bytes(1),
            )),
            old(self).bytes_left() <= 0 ==> result matches Err(EoReaderError::Other(_)),
            final(self).is_past(
                old(self),
                Self::moved(old(self).bytes_left() > 0, old(self).number_len(1)),
            ),
            final(self).wf(),
    {
        let buf: &[u8] = self.read_number_bytes(1)?;
        Ok(decode_number(buf))
    }

    /// returns two [u8]s from the data stream decoded into an [i32]
    ///
    /// increases the read position by 2, or by 1 if one byte is left
    pub fn get_short(&mut self) -> (result: Result<i32, EoReaderError>)
        ensures
            old(self).bytes_left() > 0 ==> (result matches Ok(number) && number == decoded_number(
                old(self).number_bytes(2),
            )),
            old(self).bytes_left() <= 0 ==> result matches Err(EoReaderError::Other(_)),
            final(self).is_past(
                old(self),
                Self::moved(old(self).bytes_left() > 0, old(self).number_len(2)),
            ),
            final(self).wf(),
    {
        let buf: &[u8] = self.read_number_bytes(2)?;
        Ok(decode_number(buf))
    }

    /// returns three [u8]s from the data stream decoded into an [i32]
    ///
    /// increases the read position by 3, or by as many bytes as are left
    /// if those are fewer
    pub fn get_three(&mut self) -> (result: Result<i32, EoReaderError>)
        ensures
            old(self).bytes_left() > 0 ==> (result matches Ok(number) && number == decoded_number(
                old(self).number_bytes(3),
            )),
            old(self).bytes_left() <= 0 ==> result matches Err(EoReaderError::Other(_)),
            final(self).is_past(
                old(self),
                Self::moved(old(self).bytes_left() > 0, old(self).number_len(3)),
            ),
            final(self).wf(),
    {
        let buf: &[u8] = self.read_number_bytes(3)?;
        Ok(decode_number(buf))
    }

    /// returns four [u8]s from the data stream decoded into an [i32]
    ///
    /// increases the read position by 4, or by as many bytes as are left
    /// if those are fewer
    ///
    /// Four bytes can stand for more than an [i32] holds: such a number
    /// comes back cut to 32 bits.
    pub fn get_int(&mut self) -> (result: Result<i32, EoReaderError>)
        ensures
            old(self).bytes_left() > 0 ==> (result matches Ok(number) && number == wrapped_to_i32(
                decoded_number(old(self).number_bytes(4)),
            )),
            old(self).bytes_left() <= 0 ==> result matches Err(EoReaderError::Other(_)),
            final(self).is_past(
                old(self),
                Self::moved(old(self).bytes_left() > 0, old(self).number_len(4)),
            ),
            final(self).wf(),
    {
        let buf: &[u8] = self.read_number_bytes(4)?;
        Ok(decode_number(buf))
    }

    /// returns a [String] from the data stream
    ///
    /// The string is all the bytes that are left, read as text in the
    /// code page; it is empty where none are left.
    pub fn get_string(&mut self) -> (result: Result<String, EoReaderError>)
        requires
            old(self).bytes_left() <= text_limit(),
        ensures
            result matches Ok(text) && text@ == old(self).text_of(old(self).bytes_left()),
            final(self).is_past(old(self), old(self).bytes_left()),
            final(self).wf(),
    {
        let remaining: usize = self.remaining()?;
        self.get_fixed_string(remaining)
    }

    /// returns a [String] from the data stream with a fixed length
    ///
    /// if `length` is `0` then an empty [String] is returned
    /// increases the read position by length
    pub fn get_fixed_string(&mut self, length: usize) -> (result: Result<String, EoReaderError>)
        requires
            length <= old(self).bytes_left() ==> length <= text_limit(),
        ensures
            length <= old(self).bytes_left() ==> (result matches Ok(text) && text@ == old(
                self,
            ).text_of(length as int)),
            length > old(self).bytes_left() ==> result matches Err(EoReaderError::Other(_)),
            final(self).is_past(
                old(self),
                Self::moved(length <= old(self).bytes_left(), length as int),
            ),
            final(self).wf(),
    {
        proof {
            use_type_invariant(&*self);
        }
        if length == 0 {
            return Ok(String::new());
        }
        let buf: &[u8] = self.read_bytes(length)?;
        Ok(decode_windows_1252(buf))
    }

    /// returns an encoded [String] from the data stream
    ///
    /// The string is all the bytes that are left, put through the string
    /// cipher and read as text in the code page; it is empty where none
    /// are left.
    pub fn get_encoded_string(&mut self) -> (result: Result<String, EoReaderError>)
        requires
            old(self).bytes_left() <= text_limit(),
        ensures
            result matches Ok(text) && text@ == old(self).encoded_text_of(old(self).bytes_left()),
            final(self).is_past(old(self), old(self).bytes_left()),
            final(self).wf(),
    {
        let remaining: usize = self.remaining()?;
        self.get_fixed_encoded_string(remaining)
    }

    /// returns an encoded [String] from the data stream with a fixed length
    ///
    /// if `length` is `0` then an empty [String] is returned
    /// increases the read position by length
    pub fn get_fixed_encoded_string(&mut self, length: usize) -> (result: Result<
        String,
        EoReaderError,
    >)
        requires
            length <= old(self).bytes_left() ==> length <= text_limit(),
        ensures
            length <= old(self).bytes_left() ==> (result matches Ok(text) && text@ == old(
                self,
            ).encoded_text_of(length as int)),
            length > old(self).bytes_left() ==> result matches Err(EoReaderError::Other(_)),
            final(self).is_past(
                old(self),
                Self::moved(length <= old(self).bytes_left(), length as int),
            ),
            final(self).wf(),
    {
        proof {
            use_type_invariant(&*self);
        }
        if length == 0 {
            return Ok(String::new());
        }
        let mut buf: Vec<u8> = slice_to_vec(self.read_bytes(length)?);
        decode_string(buf.as_mut_slice());
        Ok(decode_windows_1252(buf.as_slice()))
    }

    /// Takes the bytes of a number of `width` bytes, or as many as are
    /// left if those are fewer, and moves the cursor past them. Where
    /// none are left the read is out of bounds.
    fn read_number_bytes(&mut self, width: usize) -> (result: Result<&[u8], EoReaderError>)
        requires
            width > 0,
        ensures
            old(self).bytes_left() > 0 ==> (result matches Ok(bytes) && bytes@ == old(
                self,
            ).number_bytes(width as int) && bytes@.len() == old(self).number_len(width as int)),
            old(self).bytes_left() <= 0 ==> result matches Err(EoReaderError::Other(_)),
            final(self).is_past(
                old(self),
                Self::moved(old(self).bytes_left() > 0, old(self).number_len(width as int)),
            ),
            final(self).wf(),
            0 < old(self).bytes_left() ==> 0 < old(self).number_len(width as int) <= width,
    {
        let remaining: usize = self.remaining()?;
        if remaining == 0 {
            return Err(EoReaderError::Other("read is out of bounds".to_owned()));
        }
        let length: usize = if width < remaining { width } else { remaining };
        self.read_bytes(length)
    }

    /// Takes the next `length` bytes and moves the cursor past them.
    /// Where fewer are left the read is out of bounds.
    fn read_bytes(&mut self, length: usize) -> (result: Result<&[u8], EoReaderError>)
        ensures
            length <= old(self).bytes_left() ==> (result matches Ok(bytes) && bytes@ == old(
                self,
            ).next_bytes(length as int) && bytes@.len() == length),
            length > old(self).bytes_left() ==> result matches Err(EoReaderError::Other(_)),
            final(self).is_past(
                old(self),
                Self::moved(length <= old(self).bytes_left(), length as int),
            ),
            final(self).wf(),
    {
        proof {
            use_type_invariant(&*self);
        }
        let position: usize = self.cursor.position;
        let remaining: usize = self.remaining()?;
        if length > remaining {
            return Err(EoReaderError::Other("read is out of bounds".to_owned()));
        }
        let data: &[u8] = bytes_as_slice(&self.data);
        assert(position + length <= data.len());
        proof {
            if self.chunked() {
                lemma_next_break_from(self.data(), position as int);
                lemma_next_break_within(self.data(), position as int, (position + length) as int);
            }
        }
        self.cursor.position = position + length;
        Ok(slice_subrange(data, position, position + length))
    }
}

} // verus!
