//! An identifier for a backend that holds blobs only.

use crate::error::Error;
use crate::id::ID;
use crate::storage::{null_form, storage_form, stored, BackendCapability, StorageValue};
use crate::text::parsed_text;
use vstd::prelude::*;

verus! {

/// An identifier whose storage form is always its blob of sixteen bytes.
#[derive(Clone, Copy, Debug, Hash, PartialEq, Eq, Structural)]
pub struct SqliteID(pub ID);

impl SqliteID {
    /// A new time-ordered identifier, made from the clock and random bits.
    pub fn new() -> (id: SqliteID)
        ensures
            id.0.is_time_ordered(),
    {
        SqliteID(ID::new())
    }

    /// The nil identifier, all of whose bits are zero.
    pub fn nil() -> (id: SqliteID)
        ensures
            id == SqliteID(ID { high: 0, low: 0 }),
    {
        SqliteID(ID::nil())
    }

    /// Reads an identifier from its textual form, as `ID::parse` does.
    pub fn parse(s: &str) -> (r: Result<SqliteID, Error>)
        ensures
            match parsed_text(s@) {
                Some((high, low)) => r == Ok::<SqliteID, Error>(SqliteID(ID { high, low })),
                None => r matches Err(Error::ParseError(msg)) && msg@ == "bad id"@,
            },
    {
        match ID::parse(s) {
            Ok(id) => Ok(SqliteID(id)),
            Err(e) => Err(e),
        }
    }

    /// The storage form of the identifier: its blob.
    pub fn to_storage_value(&self) -> (v: StorageValue)
        ensures
            v@ == storage_form(self.0, BackendCapability::BlobOnly),
    {
        self.0.to_storage_value(BackendCapability::BlobOnly)
    }

    /// The identifier that a storage value holds, as `ID::from_storage_value`
    /// finds it.
    pub fn from_storage_value(v: &StorageValue) -> (r: Result<SqliteID, Error>)
        ensures
            match stored(v@) {
                Ok(id) => r == Ok::<SqliteID, Error>(SqliteID(id)),
                Err(e) => r == Err::<SqliteID, Error>(e),
            },
    {
        match ID::from_storage_value(v) {
            Ok(id) => Ok(SqliteID(id)),
            Err(e) => Err(e),
        }
    }

    /// The empty blob slot.
    pub fn null_representation() -> (v: StorageValue)
        ensures
            v@ == null_form(BackendCapability::BlobOnly),
    {
        ID::null_representation(BackendCapability::BlobOnly)
    }
}

impl Default for SqliteID {
    /// The nil identifier.
    fn default() -> (id: SqliteID)
        ensures
            id == SqliteID(ID { high: 0, low: 0 }),
    {
        SqliteID(ID { high: 0, low: 0 })
    }
}

} // verus!
