//! Persistence core of a desktop wedding-planning application.
//!
//! The library keeps a single `WeddingPlan` document and a set of binary
//! media files.  The document is stored as indented JSON text; fields that
//! are absent from an older document take their declared defaults instead of
//! failing the read.  Media files are opaque byte blobs addressed by name.
//!
//! The document text itself is produced and consumed here: `render` turns a
//! JSON value into text, `parse` turns text back into a value, and the two
//! are proved inverse.  `codec` maps the schema onto JSON values, `store`
//! models the persisted state and exposes the command interface.
//!
//! The schema supported is the one defined in `schema`.  A document written
//! by an older revision — additive fields absent — loads with the declared
//! defaults; unknown fields of a newer revision are ignored; a field whose
//! stored type no longer matches (a guest id stored as a number, say) is a
//! breaking change and surfaces as a format error, never as a guess.

use vstd::prelude::*;

pub mod codec;
pub mod json;
pub mod num;
pub mod parse;
pub mod render;
pub mod roundtrip;
pub mod schema;
pub mod store;

verus! {

/// How an operation of the store can fail.
///
/// I/O failures of the surrounding application (permissions, disk) are the
/// caller's to report; the store itself fails only in these two ways.
#[derive(Clone, Copy, Debug, PartialEq, Eq, Structural)]
pub enum StoreError {
    /// A requested media file does not exist.
    NotFound,
    /// The stored document cannot be parsed against the schema.
    Format,
    /// The plan in hand cannot be serialized: a fraction digit of one of
    /// its numbers is out of range.
    InvalidPlan,
}

impl StoreError {
    /// A human-readable description of the failure.
    pub fn describe(&self) -> (r: String)
        ensures
            *self == StoreError::NotFound ==> r@ == "File not found"@,
            *self == StoreError::Format ==> r@ == "Deserialization error"@,
            *self == StoreError::InvalidPlan ==> r@ == "Serialization error"@,
    {
        match self {
            StoreError::NotFound => String::from_str("File not found"),
            StoreError::Format => String::from_str("Deserialization error"),
            StoreError::InvalidPlan => String::from_str("Serialization error"),
        }
    }
}

} // verus!
