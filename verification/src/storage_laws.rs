//! What holds of the storage form: an identifier reads back from what it was
//! stored as, a blob of another length is refused, and an empty slot is no
//! identifier.

use crate::error::{Error, UnsupportedShape};
use crate::id::ID;
use crate::storage::{
    be_bytes, blob, id_of_blob, kind_for, lemma_be_bytes, lemma_be_number, null_form,
    storage_form, stored, BackendCapability, StorageKind, StorageShape,
};
use crate::text::{canonical_text, lemma_parse_canonical};
use vstd::prelude::*;

verus! {

/// The kind of slot that a storage value is, where it is one in which an
/// identifier can be kept.
pub open spec fn kind_of(v: StorageShape) -> Option<StorageKind> {
    match v {
        StorageShape::Uuid(_) => Some(StorageKind::Uuid),
        StorageShape::Bytes(_) => Some(StorageKind::Bytes),
        _ => None,
    }
}

/// The blob of an identifier has sixteen bytes and holds that identifier.
pub proof fn lemma_blob_holds_id(id: ID)
    ensures
        blob(id).len() == 16,
        id_of_blob(blob(id)) == id,
{
    let h = be_bytes(id.high as nat, 8);
    let l = be_bytes(id.low as nat, 8);
    lemma_be_bytes(id.high as nat, 8);
    lemma_be_bytes(id.low as nat, 8);
    assert(blob(id).subrange(0, 8) =~= h);
    assert(blob(id).subrange(8, 16) =~= l);
}

/// A blob of sixteen bytes is the blob of the identifier it holds.
pub proof fn lemma_blob_of_held_id(b: Seq<u8>)
    requires
        b.len() == 16,
    ensures
        blob(id_of_blob(b)) == b,
{
    lemma_be_number(b.subrange(0, 8));
    lemma_be_number(b.subrange(8, 16));
    assert(blob(id_of_blob(b)) =~= b);
}

/// An identifier reads back from its storage form, for either kind of
/// backend.
pub proof fn lemma_stored_storage_form(id: ID, capability: BackendCapability)
    ensures
        stored(storage_form(id, capability)) == Ok::<ID, Error>(id),
{
    lemma_blob_holds_id(id);
}

/// A blob whose length is not sixteen is refused, and the error names the
/// length.
pub proof fn lemma_stored_other_length(b: Seq<u8>)
    requires
        b.len() != 16,
    ensures
        stored(StorageShape::Bytes(Some(b))) == Err::<ID, Error>(
            Error::ConversionError(UnsupportedShape::ByteLength(b.len() as usize)),
        ),
{
}

/// An identifier reads back from its canonical text in a text slot.
pub proof fn lemma_stored_canonical_text(id: ID)
    ensures
        stored(StorageShape::Text(Some(canonical_text(id.high, id.low)))) == Ok::<ID, Error>(id),
{
    lemma_parse_canonical(id.high, id.low);
}

/// An empty slot holds no identifier, and no identifier is stored as an
/// empty slot: the nil identifier fills a slot like any other.
pub proof fn lemma_null_is_no_id(id: ID, capability: BackendCapability)
    ensures
        stored(null_form(capability)) == Err::<ID, Error>(
            Error::ConversionError(UnsupportedShape::Absent),
        ),
        storage_form(id, capability) != null_form(capability),
{
}

/// For one backend the filled slot and the empty slot are of one kind, the
/// kind of the backend.
pub proof fn lemma_one_kind_per_backend(id: ID, capability: BackendCapability)
    ensures
        kind_of(storage_form(id, capability)) == Some(kind_for(capability)),
        kind_of(null_form(capability)) == Some(kind_for(capability)),
{
}

} // verus!
