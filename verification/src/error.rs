//! The errors of the reader.
use vstd::prelude::*;
use vstd::std_specs::convert::FromSpecImpl;

use crate::table::row::Row;
use crate::value::Value;

verus! {

/// Errors that occur while reading a Realm file, such as I/O errors or invalid
/// file formats.
#[derive(Debug)]
pub enum RealmFileError {
    /// Error occurred while reading the file.
    Io {
        /// What the operating system reported.
        reason: String,
    },
    /// The Realm file is invalid, e.g. due to corrupted data.
    InvalidRealmFile {
        /// Reason for detecting the invalid file.
        reason: String,
    },
    /// The Realm file uses a feature that is not supported by this version of
    /// the library.
    Unsupported {
        /// Reason for the unsupported feature.
        reason: String,
    },
}

/// Errors that occur while reading a table, such as invalid column names or
/// missing columns.
#[derive(Debug)]
pub enum TableError {
    /// A file error occurred. See [`RealmFileError`].
    FileError(RealmFileError),
    /// Tried to access a table that does not exist.
    TableNotFound {
        /// Name of the table that was not found.
        name: String,
    },
    /// Tried to access a column that does not exist.
    ColumnNotFound {
        /// Name of the column that was not found.
        name: String,
    },
    /// Tried to query a column through its index, but the column is not
    /// indexed.
    ColumnNotIndexed {
        /// Name of the column that is not indexed.
        name: String,
    },
}

/// Errors related to value conversions, usually when converting a row to a
/// model.
#[derive(Debug)]
#[allow(inconsistent_fields)]
pub enum ValueError {
    /// Expected a table value, found something else. This can happen when
    /// trying to convert a value into a list, if the data is not structured
    /// as expected.
    ExpectedTable {
        /// The value that was found.
        found: Value,
    },
    /// Expected a row with the one field that stands for an element of a
    /// list of plain values, but found something else.
    ExpectedArrayRow {
        /// The name of the field that was expected.
        field: &'static str,
        /// The row that was found, which did not have the expected field.
        found: Row,
    },
    /// Expected a different type.
    UnexpectedType {
        /// The expected type.
        expected: &'static str,
        /// The actual value.
        found: Value,
    },
    /// Failed to convert a row from a subtable into an element of a list.
    VecConversionError {
        /// The type of the elements of the list.
        element_type: &'static str,
        /// The error that occurred during conversion.
        source: Box<ValueError>,
    },
    /// Missing field when converting a row into a model.
    MissingField {
        /// The name of the missing field.
        field: &'static str,
        /// The type of the model.
        target_type: &'static str,
        /// The remaining fields in the row.
        remaining_fields: Row,
    },
}

/// Convenience type alias for `Result<T, RealmFileError>`.
pub type RealmResult<T> = Result<T, RealmFileError>;

/// Convenience type alias for `Result<T, ValueError>`.
pub type ValueResult<T> = Result<T, ValueError>;

/// Convenience type alias for `Result<T, TableError>`.
pub type TableResult<T> = Result<T, TableError>;

impl RealmFileError {
    /// An error that says the bytes do not form a valid file.
    pub fn invalid(reason: &str) -> (e: RealmFileError)
        ensures
            e matches RealmFileError::InvalidRealmFile { reason: r } && r@ == reason@,
    {
        RealmFileError::InvalidRealmFile { reason: reason.to_owned() }
    }

    /// An error that says the file uses a feature that the reader lacks.
    pub fn unsupported(reason: &str) -> (e: RealmFileError)
        ensures
            e matches RealmFileError::Unsupported { reason: r } && r@ == reason@,
    {
        RealmFileError::Unsupported { reason: reason.to_owned() }
    }
}

impl From<RealmFileError> for TableError {
    /// The table error that says that `e` occurred.
    fn from(e: RealmFileError) -> (r: TableError) {
        TableError::FileError(e)
    }
}

impl FromSpecImpl<RealmFileError> for TableError {
    open spec fn obeys_from_spec() -> bool {
        true
    }

    open spec fn from_spec(e: RealmFileError) -> TableError {
        TableError::FileError(e)
    }
}

/// Why the bytes of a file give no value.
#[derive(Debug, Clone, Copy, PartialEq, Eq, Structural)]
pub enum Fault {
    /// The bytes do not follow the format.
    Damaged,
    /// The bytes use a part of the format that the reader lacks.
    Unsupported,
}

/// What `s` holds, with `Damaged` where it holds nothing.
pub open spec fn found<T>(s: Option<T>) -> Result<T, Fault> {
    match s {
        Some(v) => Ok(v),
        None => Err(Fault::Damaged),
    }
}

impl RealmFileError {
    /// Whether this error reports the fault `f`: `InvalidRealmFile` reports
    /// damage, `Unsupported` a part of the format that the reader lacks.
    pub open spec fn reports(&self, f: Fault) -> bool {
        match f {
            Fault::Damaged => self is InvalidRealmFile,
            Fault::Unsupported => self is Unsupported,
        }
    }
}

/// `r` is what `s` describes: the same value where the format gives one, and
/// an `InvalidRealmFile` error where it gives none.
pub open spec fn decodes<T>(r: Result<T, RealmFileError>, s: Option<T>) -> bool {
    match s {
        Some(v) => r == Ok::<T, RealmFileError>(v),
        None => r matches Err(e) && e is InvalidRealmFile,
    }
}

} // verus!
