//! The storage form of an identifier. A backend either has a native 128-bit
//! slot or holds blobs only; for the second the identifier is its sixteen
//! bytes, most significant first. On the way back a text is read too.

use crate::error::{Error, UnsupportedShape};
use crate::id::ID;
use crate::text::{parsed_text, uuid_parse_str};
use vstd::prelude::*;

verus! {

/// What a storage backend can hold.
#[derive(Clone, Copy, Debug, PartialEq, Eq, Structural)]
pub enum BackendCapability {
    /// The backend has a native slot for 128-bit identifiers.
    Native,
    /// The backend has slots for blobs and texts only.
    BlobOnly,
}

/// The kind of slot in which a backend keeps identifiers.
#[derive(Clone, Copy, Debug, PartialEq, Eq, Structural)]
pub enum StorageKind {
    Uuid,
    Bytes,
}

/// A value as a storage backend hands it over or takes it: a slot of some
/// kind, filled or empty.
#[derive(Clone, Debug, PartialEq, Eq)]
pub enum StorageValue {
    /// A native 128-bit slot.
    Uuid(Option<ID>),
    /// A blob slot.
    Bytes(Option<Vec<u8>>),
    /// A text slot.
    Text(Option<String>),
    /// A slot of any other kind.
    Other,
}

/// A storage value with its contents as sequences.
pub enum StorageShape {
    Uuid(Option<ID>),
    Bytes(Option<Seq<u8>>),
    Text(Option<Seq<char>>),
    Other,
}

impl View for StorageValue {
    type V = StorageShape;

    open spec fn view(&self) -> StorageShape {
        match *self {
            StorageValue::Uuid(id) => StorageShape::Uuid(id),
            StorageValue::Bytes(Some(b)) => StorageShape::Bytes(Some(b@)),
            StorageValue::Bytes(None) => StorageShape::Bytes(None),
            StorageValue::Text(Some(s)) => StorageShape::Text(Some(s@)),
            StorageValue::Text(None) => StorageShape::Text(None),
            StorageValue::Other => StorageShape::Other,
        }
    }
}

/// The `n` least significant bytes of `v`, most significant first.
pub open spec fn be_bytes(v: nat, n: nat) -> Seq<u8>
    decreases n,
{
    if n == 0 {
        Seq::empty()
    } else {
        be_bytes(v / 256, (n - 1) as nat).push((v % 256) as u8)
    }
}

/// The number that a sequence of bytes writes, most significant byte first.
pub open spec fn be_number(b: Seq<u8>) -> nat
    decreases b.len(),
{
    if b.len() == 0 {
        0
    } else {
        be_number(b.drop_last()) * 256 + b.last() as nat
    }
}

/// The blob of an identifier: the eight bytes of the high word, then the
/// eight bytes of the low word.
pub open spec fn blob(id: ID) -> Seq<u8> {
    be_bytes(id.high as nat, 8) + be_bytes(id.low as nat, 8)
}

/// The identifier that a blob of sixteen bytes holds.
pub open spec fn id_of_blob(b: Seq<u8>) -> ID {
    ID { high: be_number(b.subrange(0, 8)) as u64, low: be_number(b.subrange(8, 16)) as u64 }
}

/// The kind of slot in which a backend of the given capability keeps
/// identifiers.
pub open spec fn kind_for(capability: BackendCapability) -> StorageKind {
    match capability {
        BackendCapability::Native => StorageKind::Uuid,
        BackendCapability::BlobOnly => StorageKind::Bytes,
    }
}

/// The storage form of an identifier for a backend of the given capability.
pub open spec fn storage_form(id: ID, capability: BackendCapability) -> StorageShape {
    match capability {
        BackendCapability::Native => StorageShape::Uuid(Some(id)),
        BackendCapability::BlobOnly => StorageShape::Bytes(Some(blob(id))),
    }
}

/// The empty slot of a backend of the given capability.
pub open spec fn null_form(capability: BackendCapability) -> StorageShape {
    match capability {
        BackendCapability::Native => StorageShape::Uuid(None),
        BackendCapability::BlobOnly => StorageShape::Bytes(None),
    }
}

/// What reading a storage value gives. A filled native slot holds its
/// identifier, a blob of sixteen bytes holds one as a number, most
/// significant byte first, and a text holds the one it is the textual form
/// of. Anything else is a `ConversionError` with the shape that the value
/// had.
pub open spec fn stored(v: StorageShape) -> Result<ID, Error> {
    match v {
        StorageShape::Uuid(Some(id)) => Ok(id),
        StorageShape::Bytes(Some(b)) => if b.len() == 16 {
            Ok(id_of_blob(b))
        } else {
            Err(Error::ConversionError(UnsupportedShape::ByteLength(b.len() as usize)))
        },
        StorageShape::Text(Some(s)) => match parsed_text(s) {
            Some((high, low)) => Ok(ID { high, low }),
            None => Err(Error::ConversionError(UnsupportedShape::MalformedText)),
        },
        StorageShape::Uuid(None) => Err(Error::ConversionError(UnsupportedShape::Absent)),
        StorageShape::Bytes(None) => Err(Error::ConversionError(UnsupportedShape::Absent)),
        StorageShape::Text(None) => Err(Error::ConversionError(UnsupportedShape::Absent)),
        StorageShape::Other => Err(Error::ConversionError(UnsupportedShape::OtherKind)),
    }
}

/// The numbers that `n` bytes can write are those below `256^n`.
pub open spec fn byte_room(n: nat) -> nat {
    if n == 0 {
        1
    } else if n == 1 {
        0x100
    } else if n == 2 {
        0x1_0000
    } else if n == 3 {
        0x100_0000
    } else if n == 4 {
        0x1_0000_0000
    } else if n == 5 {
        0x100_0000_0000
    } else if n == 6 {
        0x1_0000_0000_0000
    } else if n == 7 {
        0x100_0000_0000_0000
    } else if n == 8 {
        0x1_0000_0000_0000_0000
    } else {
        0
    }
}

/// The bytes of a number that fits in `n` bytes are `n` bytes that write
/// that number.
pub proof fn lemma_be_bytes(v: nat, n: nat)
    requires
        v < byte_room(n),
    ensures
        be_bytes(v, n).len() == n,
        be_number(be_bytes(v, n)) == v,
    decreases n,
{
    if n > 0 {
        let rest = be_bytes(v / 256, (n - 1) as nat);
        lemma_be_bytes(v / 256, (n - 1) as nat);
        assert(be_bytes(v, n).drop_last() =~= rest);
    }
}

/// The number that up to eight bytes write fits in that many bytes, and its
/// bytes are those it was read from.
pub proof fn lemma_be_number(b: Seq<u8>)
    requires
        b.len() <= 8,
    ensures
        be_number(b) < byte_room(b.len()),
        be_bytes(be_number(b), b.len()) == b,
    decreases b.len(),
{
    if b.len() > 0 {
        lemma_be_number(b.drop_last());
        assert(be_bytes(be_number(b), b.len()) =~= b);
    }
}

/// Appends the eight bytes of a word, most significant first.
fn push_word(x: u64, out: &mut Vec<u8>)
    ensures
        final(out)@ == old(out)@ + be_bytes(x as nat, 8),
{
    let mut bytes: Vec<u8> = Vec::new();
    let mut left: u64 = x;
    let mut i: usize = 0;
    while i < 8
        invariant
            i <= 8,
            bytes@.len() == i,
            be_bytes(x as nat, 8) == be_bytes(left as nat, (8 - i) as nat) + bytes@,
        decreases 8 - i,
    {
        let ghost before = bytes@;
        bytes.insert(0, (left % 256) as u8);
        proof {
            let shorter = be_bytes(left as nat / 256, (8 - i - 1) as nat);
            assert(be_bytes(left as nat, (8 - i) as nat) == shorter.push((left % 256) as u8));
            assert(shorter.push((left % 256) as u8) + before =~= shorter + bytes@);
        }
        left = left / 256;
        i = i + 1;
    }
    assert(be_bytes(x as nat, 8) =~= bytes@);
    out.append(&mut bytes);
}

/// The word that the eight bytes from `start` on write, most significant
/// first.
fn word_at(b: &[u8], start: usize) -> (x: u64)
    requires
        start + 8 <= b@.len(),
    ensures
        x == be_number(b@.subrange(start as int, start + 8)),
{
    let len: usize = b.len();
    let mut x: u64 = 0;
    let mut i: usize = 0;
    while i < 8
        invariant
            i <= 8,
            start + 8 <= len,
            len == b@.len(),
            x == be_number(b@.subrange(start as int, start + i)),
            x < byte_room(i as nat),
        decreases 8 - i,
    {
        let ghost shorter = b@.subrange(start as int, start + i);
        let ghost longer = b@.subrange(start as int, start + i + 1);
        assert(longer.drop_last() =~= shorter);
        assert(longer.last() == b@[start + i]);
        x = x * 256 + b[start + i] as u64;
        i = i + 1;
    }
    x
}

impl BackendCapability {
    /// The kind of slot in which a backend of this capability keeps
    /// identifiers.
    pub fn storage_kind(self) -> (kind: StorageKind)
        ensures
            kind == kind_for(self),
    {
        match self {
            BackendCapability::Native => StorageKind::Uuid,
            BackendCapability::BlobOnly => StorageKind::Bytes,
        }
    }
}

impl ID {
    /// The sixteen bytes of the identifier, most significant first.
    pub fn to_bytes(&self) -> (bytes: Vec<u8>)
        ensures
            bytes@ == blob(*self),
            bytes@.len() == 16,
    {
        let mut bytes: Vec<u8> = Vec::new();
        push_word(self.high, &mut bytes);
        push_word(self.low, &mut bytes);
        proof {
            lemma_be_bytes(self.high as nat, 8);
            lemma_be_bytes(self.low as nat, 8);
            assert(bytes@ =~= blob(*self));
        }
        bytes
    }

    /// The identifier that a blob holds: its sixteen bytes read as a
    /// number, most significant first. A blob of any other length is a
    /// `ConversionError` that names the length.
    pub fn from_slice(b: &[u8]) -> (r: Result<ID, Error>)
        ensures
            r == stored(StorageShape::Bytes(Some(b@))),
    {
        if b.len() == 16 {
            let high = word_at(b, 0);
            let low = word_at(b, 8);
            Ok(ID { high, low })
        } else {
            Err(Error::ConversionError(UnsupportedShape::ByteLength(b.len())))
        }
    }

    /// The storage form of the identifier: the identifier itself for a
    /// backend with a native slot, its blob for a backend without.
    pub fn to_storage_value(&self, capability: BackendCapability) -> (v: StorageValue)
        ensures
            v@ == storage_form(*self, capability),
    {
        match capability {
            BackendCapability::Native => StorageValue::Uuid(Some(*self)),
            BackendCapability::BlobOnly => StorageValue::Bytes(Some(self.to_bytes())),
        }
    }

    /// The identifier that a storage value holds. A filled native slot holds
    /// it as it is, a blob of sixteen bytes as a number, most significant
    /// byte first, and a text in its textual form. Anything else is a
    /// `ConversionError` that names what the value was.
    pub fn from_storage_value(v: &StorageValue) -> (r: Result<ID, Error>)
        ensures
            r == stored(v@),
    {
        match v {
            StorageValue::Uuid(Some(id)) => Ok(*id),
            StorageValue::Bytes(Some(b)) => ID::from_slice(b.as_slice()),
            StorageValue::Text(Some(s)) => match uuid_parse_str(s.as_str()) {
                Some((high, low)) => Ok(ID { high, low }),
                None => Err(Error::ConversionError(UnsupportedShape::MalformedText)),
            },
            StorageValue::Uuid(None) => Err(Error::ConversionError(UnsupportedShape::Absent)),
            StorageValue::Bytes(None) => Err(Error::ConversionError(UnsupportedShape::Absent)),
            StorageValue::Text(None) => Err(Error::ConversionError(UnsupportedShape::Absent)),
            StorageValue::Other => Err(Error::ConversionError(UnsupportedShape::OtherKind)),
        }
    }

    /// The empty slot of a backend of the given capability. It is no
    /// identifier: the nil identifier fills a slot.
    pub fn null_representation(capability: BackendCapability) -> (v: StorageValue)
        ensures
            v@ == null_form(capability),
    {
        match capability {
            BackendCapability::Native => StorageValue::Uuid(None),
            BackendCapability::BlobOnly => StorageValue::Bytes(None),
        }
    }
}

} // verus!
