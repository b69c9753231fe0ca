use vstd::prelude::*;

verus! {

/// Why a packet could not be parsed.
#[derive(Debug, Clone, Copy, PartialEq, Eq)]
pub enum ParseError {
    /// The input ended in the middle of a packet.
    IoError,
    /// A string field did not hold valid UTF-8.
    EncodingError,
    /// A freshly decoded value was rejected; the text says why.
    PredicateFailed(&'static str),
    /// A tagged union met a tag that none of its variants has.
    InvalidDiscriminator(u64),
}

impl ParseError {
    /// Whether the input ran out before the packet was complete.
    pub fn is_eof(&self) -> (r: bool)
        ensures
            r <==> *self == ParseError::IoError,
    {
        match self {
            ParseError::IoError => true,
            _ => false,
        }
    }
}

/// Why a value could not be written.
#[derive(Debug, Clone, Copy, PartialEq, Eq)]
pub enum WriteError {
    /// The output refused the bytes.
    IoError,
    /// A value could not be converted back to its wire form.
    ConversionFailed(&'static str),
    /// A value lies outside what its field can carry.
    PredicateFailed(&'static str),
}

impl WriteError {
    pub fn is_io_error(&self) -> (r: bool)
        ensures
            r <==> *self == WriteError::IoError,
    {
        match self {
            WriteError::IoError => true,
            _ => false,
        }
    }
}

} // verus!
