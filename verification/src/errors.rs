//! Error taxonomy for the snapshot decoder.
//!
//! Every failure of the decode is fatal and propagates unchanged to the
//! top-level assembler: the format is rigid and positional, so a misread
//! desynchronizes every subsequent read.

use vstd::prelude::*;

verus! {

/// The ways a snapshot decode can fail.
#[derive(Clone, Copy, PartialEq, Eq, Debug, Structural)]
pub enum DecodeError {
    /// The cursor was exhausted before a required field was fully read.
    TruncatedInput,
    /// A valid-but-unimplemented format variant was selected
    /// (64-bit wide length, compressed special encoding, or a scalar
    /// shape a record cannot carry).
    UnsupportedEncoding,
    /// A value-type tag outside the supported set (plain string, ziplist).
    UnsupportedValueType,
    /// An opcode other than an auxiliary pair appeared inside the header.
    MalformedHeader,
    /// An opcode appeared somewhere the section state machine does not allow.
    UnexpectedOpcode,
    /// A section's declared hash-table size differs from the records found.
    RecordCountMismatch,
    /// A required string value was not valid UTF-8.
    InvalidUtf8,
}

} // verus!
