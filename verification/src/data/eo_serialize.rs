//! What a value needs in order to travel in an EO data stream.

use super::eo_reader::{EoReader, EoReaderError};
use super::eo_writer::{EoWriter, EoWriterError};
use vstd::prelude::*;
use vstd::std_specs::convert::FromSpecImpl;

verus! {

/// Why a value could not be serialized.
#[derive(Debug, PartialEq, Eq)]
pub enum EoSerializeError {
    /// A field that must be sent holds no value; the string names it.
    Null(String),
    /// The writer refused a value.
    WriteError(EoWriterError),
}

impl From<EoWriterError> for EoSerializeError {
    fn from(e: EoWriterError) -> (error: Self) {
        Self::WriteError(e)
    }
}

impl FromSpecImpl<EoWriterError> for EoSerializeError {
    open spec fn obeys_from_spec() -> bool {
        true
    }

    open spec fn from_spec(e: EoWriterError) -> Self {
        EoSerializeError::WriteError(e)
    }
}

/// A value that can be read from an EO data stream and written to one.
pub trait EoSerialize: Sized {
    /// Reads a value from where the cursor of `reader` stands.
    fn deserialize(reader: &mut EoReader) -> Result<Self, EoReaderError>;

    /// Appends the value to what `writer` has written.
    fn serialize(&self, writer: &mut EoWriter) -> Result<(), EoSerializeError>;
}

} // verus!
