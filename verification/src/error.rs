//! The closed set of failure kinds produced by the readers and decoders.
//! Every kind carries the offending raw input, so a failure can be
//! diagnosed without re-running the query.

use vstd::prelude::*;

verus! {

/// Why a record failed to decode.
#[derive(Debug)]
pub enum DecodeReason {
    /// The record had `actual` fields where exactly `expected` were required.
    FieldCount { expected: u64, actual: u64 },
    /// A field that must be numeric did not parse as one.
    BadNumber { field: String },
    /// A required key was absent from a key:value listing.
    MissingKey { key: String },
    /// A required separator was absent from the record.
    MissingSeparator { separator: char },
}

/// A failure while reading or decoding a host fact.
#[derive(Debug)]
pub enum RsysError {
    /// Reading a raw source failed: it does not exist, access was denied,
    /// or the underlying call reported an error.
    SourceUnavailable { source: String, reason: String },
    /// The source was read, but its content is malformed; decoding is
    /// all-or-nothing, so no partial record accompanies this.
    DecodeError { raw: String, reason: DecodeReason },
    /// A typed device constructor was given a name that does not carry
    /// the prefix of that device category.
    InvalidDeviceKind { name: String, expected_prefix: String },
    /// The requested fact has no implementation on this platform.
    UnsupportedPlatform { fact: String },
}

/// The kind of a failure, without its payload.
#[derive(PartialEq, Eq, Structural, Clone, Copy, Debug)]
pub enum ErrorKind {
    SourceUnavailable,
    DecodeError,
    InvalidDeviceKind,
    UnsupportedPlatform,
}

impl RsysError {
    pub open spec fn spec_kind(&self) -> ErrorKind {
        match self {
            RsysError::SourceUnavailable { .. } => ErrorKind::SourceUnavailable,
            RsysError::DecodeError { .. } => ErrorKind::DecodeError,
            RsysError::InvalidDeviceKind { .. } => ErrorKind::InvalidDeviceKind,
            RsysError::UnsupportedPlatform { .. } => ErrorKind::UnsupportedPlatform,
        }
    }

    /// The kind of this failure.
    pub fn kind(&self) -> (k: ErrorKind)
        ensures
            k == self.spec_kind(),
    {
        match self {
            RsysError::SourceUnavailable { .. } => ErrorKind::SourceUnavailable,
            RsysError::DecodeError { .. } => ErrorKind::DecodeError,
            RsysError::InvalidDeviceKind { .. } => ErrorKind::InvalidDeviceKind,
            RsysError::UnsupportedPlatform { .. } => ErrorKind::UnsupportedPlatform,
        }
    }
}

} // verus!
