use vstd::prelude::*;

use crate::schema::TargetType;
use crate::value::ValueTag;

verus! {

/// Every way in which the backup of a table can fail.
pub enum BackupError {
    /// Missing or malformed configuration; holds a description.
    ConfigError(String),
    /// A source column type that has no columnar counterpart.
    UnsupportedType,
    /// A cell whose runtime tag does not fit the column's builder.
    TypeMismatch { expected: TargetType, got: ValueTag },
    /// A NULL cell in a column that does not allow nulls.
    NonNullableNull,
    /// Text bytes that are not valid UTF-8.
    InvalidEncoding,
    /// Date fields that do not form a calendar date.
    InvalidDate,
    /// Date and time fields that do not form a valid date and time.
    InvalidDateTime,
    /// Text that is not a decimal literal.
    DecimalParse,
    /// The row stream failed in the middle of a scan.
    ReadError(String),
    /// The encoder or the file system failed while writing.
    WriteError(String),
    /// Arrays that do not fit the schema they are assembled under.
    BatchShapeMismatch,
    /// The message channel closed before a terminal message arrived.
    PrematureEndOfStream,
    /// A table task failed at the task-execution layer.
    Unrecoverable(String),
}

} // verus!
