//! The error kinds that the facade reports.

use vstd::prelude::*;

verus! {

/// What went wrong in a call. Every error is detected at the offending call and
/// handed back to the caller; none is retried or swallowed.
#[derive(Clone, Copy, Debug, PartialEq, Eq, Structural)]
pub enum Error {
    /// A field name that the schema does not hold.
    FieldNotFound,
    /// A write operation without an active writer.
    NoWriterAvailable,
    /// A second writer was asked for while one is active.
    WriterAlreadyActive,
    /// A date that is not an RFC 3339 timestamp, or that lies outside the range
    /// of a 64-bit count of nanoseconds.
    InvalidDateFormat,
    /// A regular expression that does not compile.
    InvalidRegex,
    /// A range query on a field that is neither integer, double nor date.
    UnsupportedRangeField,
    /// A stemmer language code outside the supported set.
    UnsupportedLanguage,
    /// Input of the wrong shape: a number out of range, a malformed name or path.
    ConversionFailure,
    /// The engine failed to open, write, commit, reload or search.
    StorageFailure,
}

impl Error {
    /// A short description of the error kind.
    pub fn message(&self) -> (text: &'static str)
        ensures
            text@ == self.spec_message(),
    {
        match self {
            Error::FieldNotFound => "Field not found",
            Error::NoWriterAvailable => "No index writer available",
            Error::WriterAlreadyActive => "An index writer is already active",
            Error::InvalidDateFormat => "Invalid date format",
            Error::InvalidRegex => "Invalid regex",
            Error::UnsupportedRangeField => "Field is not supported by range query",
            Error::UnsupportedLanguage => "Language is not supported",
            Error::ConversionFailure => "Conversion failed",
            Error::StorageFailure => "Storage failure",
        }
    }

    /// The text that [`Error::message`] returns.
    pub open spec fn spec_message(&self) -> Seq<char> {
        match self {
            Error::FieldNotFound => "Field not found"@,
            Error::NoWriterAvailable => "No index writer available"@,
            Error::WriterAlreadyActive => "An index writer is already active"@,
            Error::InvalidDateFormat => "Invalid date format"@,
            Error::InvalidRegex => "Invalid regex"@,
            Error::UnsupportedRangeField => "Field is not supported by range query"@,
            Error::UnsupportedLanguage => "Language is not supported"@,
            Error::ConversionFailure => "Conversion failed"@,
            Error::StorageFailure => "Storage failure"@,
        }
    }
}

} // verus!
