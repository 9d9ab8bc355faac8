//! Errors of the datastore layer.

use vstd::prelude::*;

verus! {

/// What can go wrong while building schemas and batch metadata.
#[derive(Debug, PartialEq, Eq)]
pub enum Error {
    /// A catch-all carrying a human-readable message.
    Unique(String),
    /// A field type outside the set the engine can materialize.
    NotImplemented,
    /// A column type outside the set the engine can materialize.
    UnsupportedArrowDataType,
    /// The reserved field the schema layout demands was not declared.
    SpecialKeyMissing(String),
    /// A malformed record-batch header.
    ArrowBatch(String),
    /// A field was declared twice under one name.
    FieldAlreadyExists(String),
}

pub type Result<T> = core::result::Result<T, Error>;

} // verus!
