//! The errors of the library.

use vstd::prelude::*;

verus! {

/// The broad kinds of failure.
#[derive(Clone, Copy, PartialEq, Eq, Debug, Structural)]
pub enum ErrorKind {
    /// The request asks for something the library does not do.
    Configuration,
    /// A table does not have the columns the request names.
    Schema,
    /// A path does not name a format that can be registered.
    Format,
    /// The data is more than the interval index can hold.
    Capacity,
}

/// Why a request was turned down. A failure ends the whole query; nothing is
/// retried and no partial result is kept.
#[derive(Clone, Copy, PartialEq, Eq, Debug, Structural)]
pub enum BioError {
    /// The range operation is not implemented.
    UnsupportedOperation,
    /// The algorithm reserved for the nearest operation was named explicitly.
    ReservedAlgorithm,
    /// No filter strictness was given.
    MissingFilter,
    /// One side names no key columns, or fewer than three.
    MissingKeyColumns,
    /// A key column has a type that the native operator cannot read.
    UnsupportedColumnType,
    /// A batch has no column of the name that was given for a key column.
    UnknownColumn,
    /// The path ends in no extension that names a format.
    UnsupportedFormat,
    /// The format is one of the indexed variants, which are not implemented.
    IndexedFormat,
    /// One contig has more intervals than the index counts in 32 bits.
    TooManyIntervals,
}

impl BioError {
    /// The kind of the error.
    pub open spec fn spec_kind(self) -> ErrorKind {
        match self {
            BioError::UnsupportedOperation => ErrorKind::Configuration,
            BioError::ReservedAlgorithm => ErrorKind::Configuration,
            BioError::MissingFilter => ErrorKind::Configuration,
            BioError::MissingKeyColumns => ErrorKind::Configuration,
            BioError::UnsupportedColumnType => ErrorKind::Configuration,
            BioError::UnknownColumn => ErrorKind::Schema,
            BioError::UnsupportedFormat => ErrorKind::Format,
            BioError::IndexedFormat => ErrorKind::Format,
            BioError::TooManyIntervals => ErrorKind::Capacity,
        }
    }

    /// The kind of the error.
    #[verifier::when_used_as_spec(spec_kind)]
    pub fn kind(self) -> (kind: ErrorKind)
        ensures
            kind == self.spec_kind(),
    {
        match self {
            BioError::UnsupportedOperation => ErrorKind::Configuration,
            BioError::ReservedAlgorithm => ErrorKind::Configuration,
            BioError::MissingFilter => ErrorKind::Configuration,
            BioError::MissingKeyColumns => ErrorKind::Configuration,
            BioError::UnsupportedColumnType => ErrorKind::Configuration,
            BioError::UnknownColumn => ErrorKind::Schema,
            BioError::UnsupportedFormat => ErrorKind::Format,
            BioError::IndexedFormat => ErrorKind::Format,
            BioError::TooManyIntervals => ErrorKind::Capacity,
        }
    }

    /// The text of the message.
    pub open spec fn message(self) -> Seq<char> {
        match self {
            BioError::UnsupportedOperation => "Unsupported operation"@,
            BioError::ReservedAlgorithm =>
                "CoitreesNearest is an internal algorithm for nearest operation. Can't be set explicitly."@,
            BioError::MissingFilter => "No filter strictness given"@,
            BioError::MissingKeyColumns => "Three key columns are needed: contig, start, end"@,
            BioError::UnsupportedColumnType => "Unsupported type of a key column"@,
            BioError::UnknownColumn => "No column of the given name"@,
            BioError::UnsupportedFormat => "Unsupported format"@,
            BioError::IndexedFormat => "Indexed formats are not supported"@,
            BioError::TooManyIntervals => "Too many intervals on one contig"@,
        }
    }

    /// Renders the message of the error.
    pub fn to_string(&self) -> (text: String)
        ensures
            text@ == self.message(),
    {
        match self {
            BioError::UnsupportedOperation => "Unsupported operation".to_string(),
            BioError::ReservedAlgorithm =>
                "CoitreesNearest is an internal algorithm for nearest operation. Can't be set explicitly.".to_string(),
            BioError::MissingFilter => "No filter strictness given".to_string(),
            BioError::MissingKeyColumns =>
                "Three key columns are needed: contig, start, end".to_string(),
            BioError::UnsupportedColumnType => "Unsupported type of a key column".to_string(),
            BioError::UnknownColumn => "No column of the given name".to_string(),
            BioError::UnsupportedFormat => "Unsupported format".to_string(),
            BioError::IndexedFormat => "Indexed formats are not supported".to_string(),
            BioError::TooManyIntervals => "Too many intervals on one contig".to_string(),
        }
    }
}

} // verus!
