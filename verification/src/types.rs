//! Error values shared by every layer of the codec.

use vstd::prelude::*;

verus! {

/// What went wrong while decoding, together with the offending wire
/// value where there is one.
#[derive(Debug, Clone, Copy, PartialEq, Eq, Structural)]
pub enum ErrorKind {
    /// The input ended before a field could be read in full.
    Truncated,
    /// A 4-bit opcode pattern that maps to no known opcode.
    InvalidOpcode(u8),
    /// A 4-bit reply-code pattern that maps to no known reply code.
    InvalidReplyCode(u8),
    /// A 16-bit class code that maps to no known class.
    InvalidClass(u16),
    /// A label length byte outside 1..=63 that is not a compression
    /// pointer marker.
    InvalidLabel(u8),
    /// An address record whose data length does not match its family.
    InvalidAddressLength(u16),
    /// A structurally valid but unimplemented record or query type code.
    UnsupportedType(u16),
    /// A chain of compression pointers longer than the message itself,
    /// which can only arise from a pointer cycle or forward spiral.
    CompressionLoop,
}

/// A decode failure: the kind of fault and the absolute byte offset,
/// from the start of the parsed input, of the field that failed.
#[derive(Debug, Clone, Copy, PartialEq, Eq, Structural)]
pub struct ParseError {
    pub kind: ErrorKind,
    pub offset: usize,
}

/// An encode failure: the in-memory value violates a wire-format bound.
/// Such values cannot come from a successful parse; they can only be
/// built directly by a caller.
#[derive(Debug, Clone, Copy, PartialEq, Eq, Structural)]
pub enum SerializeError {
    /// A name holds a label that is empty or longer than 63 bytes.
    InvalidLabel,
    /// A record body longer than the 16-bit data-length field can state.
    DataTooLong,
    /// An address whose byte count does not match its family.  The
    /// typed record constructors fix the count, so encoding them never
    /// reports this.
    InvalidAddress,
}

} // verus!
