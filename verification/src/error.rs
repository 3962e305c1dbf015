use vstd::prelude::*;

verus! {

/// An error that can occur when parsing a message.
#[derive(Debug, Clone, Copy, PartialEq, Eq)]
pub enum ReadError {
    /// Not enough bytes left in the buffer.
    NotEnoughBytesLeft,
    /// Unexpected data was found.
    UnexpectedData(&'static str),
    /// The packet contained an invalid magic number.
    InvalidMagicNumber(u8),
    /// The message type is unknown.
    UnknownMessageType(u8),
    /// The data type is unknown.
    UnknownDataType(u8),
    /// The functionality is not implemented.
    Unimplemented(&'static str),
    /// Invalid length for custom data: name, expected length, found length.
    CustomDataInvalidLength(&'static str, usize, usize),
}

/// An error that can occur when writing a message.
#[derive(Debug, Clone, Copy, PartialEq, Eq)]
pub enum WriteError {
    /// Items in an array were not all of the same type.
    UnhomogeneousArray,
    /// Key or value in a typed dictionary did not match.
    TypeMismatchInTypedDictionary,
    /// A value was too large to be written.
    ValueTooLarge(&'static str),
    /// The functionality is not implemented.
    Unimplemented(&'static str),
}

} // verus!
