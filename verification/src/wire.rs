//! The wire form of an identifier: two tagged fields, each a key and an
//! unsigned varint, the high word under tag 1 and the low word under tag 2.
//!
//! A varint writes a number seven bits to a byte, least significant bits
//! first, with the top bit of a byte set where another byte follows. A key is
//! the varint of `tag * 8 + wire type`.

use crate::error::Error;
use crate::id::ID;
use prost::encoding;
use vstd::prelude::*;

verus! {

/// The tag of the field that carries the high word.
pub const HIGH_TAG: u32 = 1;

/// The tag of the field that carries the low word.
pub const LOW_TAG: u32 = 2;

/// The largest tag that a key can carry.
pub const MAX_TAG: u32 = 0x1FFF_FFFF;

/// How the payload of a field is laid out.
#[derive(Clone, Copy, Debug, PartialEq, Eq, Structural)]
pub enum WireType {
    Varint,
    SixtyFourBit,
    LengthDelimited,
    StartGroup,
    EndGroup,
    ThirtyTwoBit,
}

impl WireType {
    /// The number that stands for the wire type in a key.
    pub open spec fn number(self) -> nat {
        match self {
            WireType::Varint => 0,
            WireType::SixtyFourBit => 1,
            WireType::LengthDelimited => 2,
            WireType::StartGroup => 3,
            WireType::EndGroup => 4,
            WireType::ThirtyTwoBit => 5,
        }
    }

    /// The wire type that a number below six stands for.
    pub open spec fn of_number(n: nat) -> WireType {
        if n == 0 {
            WireType::Varint
        } else if n == 1 {
            WireType::SixtyFourBit
        } else if n == 2 {
            WireType::LengthDelimited
        } else if n == 3 {
            WireType::StartGroup
        } else if n == 4 {
            WireType::EndGroup
        } else {
            WireType::ThirtyTwoBit
        }
    }
}

/// The varint of a number.
pub open spec fn varint(v: nat) -> Seq<u8>
    decreases v,
{
    if v < 128 {
        seq![v as u8]
    } else {
        seq![(128 + v % 128) as u8] + varint(v / 128)
    }
}

/// A field that carries a 64-bit number as a varint: its key, then the
/// number.
pub open spec fn uint64_field(tag: u32, v: u64) -> Seq<u8> {
    varint(tag as nat * 8) + varint(v as nat)
}

/// The wire form of an identifier: the high word under `HIGH_TAG`, then the
/// low word under `LOW_TAG`.
pub open spec fn wire_form(id: ID) -> Seq<u8> {
    uint64_field(HIGH_TAG, id.high) + uint64_field(LOW_TAG, id.low)
}

/// The value and the length of the varint at the start of `b`, of which `i`
/// bytes came before `b`. There is none where the bytes end, or ten bytes
/// pass, before a byte without the top bit, or where the tenth byte is above
/// one, so that the value would not fit in 64 bits.
pub open spec fn varint_at(b: Seq<u8>, i: nat) -> Option<(nat, nat)>
    decreases b.len(),
{
    if i >= 10 || b.len() == 0 {
        None
    } else if b[0] < 128 {
        if i == 9 && b[0] >= 2 {
            None
        } else {
            Some((b[0] as nat, 1))
        }
    } else {
        match varint_at(b.skip(1), i + 1) {
            Some((v, n)) => Some(((b[0] - 128) as nat + 128 * v, n + 1)),
            None => None,
        }
    }
}

/// The number that the varint at the start of `b` writes, and the bytes
/// after it.
pub open spec fn read_varint(b: Seq<u8>) -> Option<(u64, Seq<u8>)> {
    match varint_at(b, 0) {
        Some((v, n)) => Some((v as u64, b.skip(n as int))),
        None => None,
    }
}

/// The tag and the wire type of the key at the start of `b`, and the bytes
/// after it. There is none where the key is no varint, is above `u32::MAX`,
/// names no wire type, or carries the tag zero.
pub open spec fn read_key(b: Seq<u8>) -> Option<(u32, WireType, Seq<u8>)> {
    match read_varint(b) {
        Some((key, rest)) => if key > u32::MAX || key % 8 > 5 || key / 8 == 0 {
            None
        } else {
            Some(((key / 8) as u32, WireType::of_number((key % 8) as nat), rest))
        },
        None => None,
    }
}

/// The payload of a varint field of 64 bits, and the bytes after it. There is
/// none where the wire type is not `Varint`.
pub open spec fn read_uint64(wire_type: WireType, b: Seq<u8>) -> Option<(u64, Seq<u8>)> {
    if wire_type == WireType::Varint {
        read_varint(b)
    } else {
        None
    }
}

/// The bytes after the first `n`, where there are that many.
pub open spec fn after(b: Seq<u8>, n: nat) -> Option<Seq<u8>> {
    if n <= b.len() {
        Some(b.skip(n as int))
    } else {
        None
    }
}

/// The bytes that are left of `b` after the group that was opened under
/// `tag`, as `prost::encoding::skip_field` finds its end.
pub uninterp spec fn after_group(tag: u32, b: Seq<u8>) -> Option<Seq<u8>>;

/// The bytes after the payload of a field that is passed over.
pub open spec fn after_payload(wire_type: WireType, tag: u32, b: Seq<u8>) -> Option<Seq<u8>> {
    match wire_type {
        WireType::Varint => match read_varint(b) {
            Some((_, rest)) => Some(rest),
            None => None,
        },
        WireType::SixtyFourBit => after(b, 8),
        WireType::LengthDelimited => match read_varint(b) {
            Some((len, rest)) => after(rest, len as nat),
            None => None,
        },
        WireType::StartGroup => match after_group(tag, b) {
            Some(rest) => if rest.len() <= b.len() {
                Some(rest)
            } else {
                None
            },
            None => None,
        },
        WireType::EndGroup => None,
        WireType::ThirtyTwoBit => after(b, 4),
    }
}

/// The identifier after one field is merged into it, and the bytes after
/// that field's payload. The field under `HIGH_TAG` gives the high word, the
/// one under `LOW_TAG` the low word, and any other is passed over.
pub open spec fn merged_field(id: ID, tag: u32, wire_type: WireType, b: Seq<u8>) -> Option<
    (ID, Seq<u8>),
> {
    if tag == HIGH_TAG {
        match read_uint64(wire_type, b) {
            Some((v, rest)) => Some((ID { high: v, low: id.low }, rest)),
            None => None,
        }
    } else if tag == LOW_TAG {
        match read_uint64(wire_type, b) {
            Some((v, rest)) => Some((ID { high: id.high, low: v }, rest)),
            None => None,
        }
    } else {
        match after_payload(wire_type, tag, b) {
            Some(rest) => Some((id, rest)),
            None => None,
        }
    }
}

/// The identifier after every field of `b` is merged into it, in order.
pub open spec fn merged(id: ID, b: Seq<u8>) -> Option<ID>
    decreases b.len(),
    via merged_decreases
{
    if b.len() == 0 {
        Some(id)
    } else {
        match read_key(b) {
            Some((tag, wire_type, rest)) => match merged_field(id, tag, wire_type, rest) {
                Some((next, rest)) => merged(next, rest),
                None => None,
            },
            None => None,
        }
    }
}

/// The identifier that a message denotes: the fields of the message merged
/// into the nil identifier.
pub open spec fn decoded(b: Seq<u8>) -> Option<ID> {
    merged(ID { high: 0, low: 0 }, b)
}

/// Calls `prost::encoding::uint64::encode`, which appends a key of wire type
/// `Varint` and the varint of `value` to `buf`.
///
/// Not proved: that the bytes appended are those of `uint64_field`. The tag
/// is kept within the range that the call asserts.
#[verifier::external_body]
fn put_uint64_field(tag: u32, value: u64, buf: &mut Vec<u8>)
    requires
        1 <= tag <= MAX_TAG,
    ensures
        final(buf)@ == old(buf)@ + uint64_field(tag, value),
{
    encoding::uint64::encode(tag, &value, buf);
}

/// Calls `prost::encoding::uint64::encoded_len`.
///
/// Not proved: that it is the number of bytes of `uint64_field`.
#[verifier::external_body]
fn uint64_field_len(tag: u32, value: u64) -> (n: usize)
    requires
        1 <= tag <= MAX_TAG,
    ensures
        n == uint64_field(tag, value).len(),
{
    encoding::uint64::encoded_len(tag, &value)
}

/// Calls `prost::encoding::decode_key` on the bytes and hands back the tag,
/// the wire type and the bytes it left unread, or `None` where it failed.
///
/// Not proved: that it reads what `read_key` says.
#[verifier::external_body]
fn take_key<'a>(buf: &'a [u8]) -> (r: Option<(u32, WireType, &'a [u8])>)
    ensures
        match read_key(buf@) {
            Some((tag, wire_type, rest)) => r matches Some(k) && k.0 == tag && k.1 == wire_type
                && k.2@ == rest,
            None => r is None,
        },
{
    let mut rest = buf;
    let (tag, wire) = match encoding::decode_key(&mut rest) {
        Ok(key) => key,
        Err(_) => return None,
    };
    let wire_type = match wire {
        encoding::WireType::Varint => WireType::Varint,
        encoding::WireType::SixtyFourBit => WireType::SixtyFourBit,
        encoding::WireType::LengthDelimited => WireType::LengthDelimited,
        encoding::WireType::StartGroup => WireType::StartGroup,
        encoding::WireType::EndGroup => WireType::EndGroup,
        encoding::WireType::ThirtyTwoBit => WireType::ThirtyTwoBit,
    };
    Some((tag, wire_type, rest))
}

/// Calls `prost::encoding::uint64::merge` on the bytes and hands back the
/// number it read and the bytes it left unread, or `None` where it failed.
///
/// Not proved: that it fails on every wire type but `Varint`, and reads what
/// `read_varint` says.
#[verifier::external_body]
fn take_uint64<'a>(wire_type: WireType, buf: &'a [u8]) -> (r: Option<(u64, &'a [u8])>)
    ensures
        match read_uint64(wire_type, buf@) {
            Some((v, rest)) => r matches Some(k) && k.0 == v && k.1@ == rest,
            None => r is None,
        },
{
    let wire = match wire_type {
        WireType::Varint => encoding::WireType::Varint,
        WireType::SixtyFourBit => encoding::WireType::SixtyFourBit,
        WireType::LengthDelimited => encoding::WireType::LengthDelimited,
        WireType::StartGroup => encoding::WireType::StartGroup,
        WireType::EndGroup => encoding::WireType::EndGroup,
        WireType::ThirtyTwoBit => encoding::WireType::ThirtyTwoBit,
    };
    let (mut value, mut rest) = (0u64, buf);
    let ctx = encoding::DecodeContext::default();
    match encoding::uint64::merge(wire, &mut value, &mut rest, ctx) {
        Ok(()) => Some((value, rest)),
        Err(_) => None,
    }
}

/// Calls `prost::encoding::skip_field` on the bytes and hands back the bytes
/// it left unread, or `None` where it failed.
///
/// Not proved: that it passes over a varint, four bytes, eight bytes or a
/// length and that many bytes, as the wire type says, and fails on
/// `EndGroup`; that what it leaves after a group depends on the tag and the
/// bytes alone; and that it never leaves more bytes than it was given.
#[verifier::external_body]
fn skip_payload<'a>(wire_type: WireType, tag: u32, buf: &'a [u8]) -> (r: Option<&'a [u8]>)
    ensures
        wire_type != WireType::StartGroup ==> match after_payload(wire_type, tag, buf@) {
            Some(rest) => r matches Some(k) && k@ == rest,
            None => r is None,
        },
        wire_type == WireType::StartGroup ==> match after_group(tag, buf@) {
            Some(rest) => r matches Some(k) && k@ == rest,
            None => r is None,
        },
        r matches Some(k) ==> k@.len() <= buf@.len(),
{
    let wire = match wire_type {
        WireType::Varint => encoding::WireType::Varint,
        WireType::SixtyFourBit => encoding::WireType::SixtyFourBit,
        WireType::LengthDelimited => encoding::WireType::LengthDelimited,
        WireType::StartGroup => encoding::WireType::StartGroup,
        WireType::EndGroup => encoding::WireType::EndGroup,
        WireType::ThirtyTwoBit => encoding::WireType::ThirtyTwoBit,
    };
    let mut rest = buf;
    let ctx = encoding::DecodeContext::default();
    match encoding::skip_field(wire, tag, &mut rest, ctx) {
        Ok(()) => Some(rest),
        Err(_) => None,
    }
}

impl ID {
    /// Appends the wire form of the identifier to `buf`: the high word under
    /// `HIGH_TAG`, then the low word under `LOW_TAG`.
    pub fn encode_raw(&self, buf: &mut Vec<u8>)
        ensures
            final(buf)@ == old(buf)@ + wire_form(*self),
    {
        put_uint64_field(HIGH_TAG, self.high, buf);
        put_uint64_field(LOW_TAG, self.low, buf);
        assert(buf@ =~= old(buf)@ + wire_form(*self));
    }

    /// The wire form of the identifier.
    pub fn encode(&self) -> (bytes: Vec<u8>)
        ensures
            bytes@ == wire_form(*self),
    {
        let mut bytes: Vec<u8> = Vec::new();
        self.encode_raw(&mut bytes);
        assert(bytes@ =~= wire_form(*self));
        bytes
    }

    /// Merges one field into the identifier and hands back the bytes after
    /// the field's payload. The field under `HIGH_TAG` replaces the high
    /// word, the one under `LOW_TAG` the low word, and a field under any
    /// other tag is passed over. Where the payload is malformed the
    /// identifier stays as it was.
    pub fn merge_field<'a>(&mut self, tag: u32, wire_type: WireType, buf: &'a [u8]) -> (r: Result<
        &'a [u8],
        Error,
    >)
        ensures
            match merged_field(*old(self), tag, wire_type, buf@) {
                Some((id, rest)) => *final(self) == id && (r matches Ok(k) && k@ == rest),
                None => *final(self) == *old(self) && (r matches Err(Error::DecodeError)),
            },
    {
        if tag == HIGH_TAG {
            match take_uint64(wire_type, buf) {
                Some((high, rest)) => {
                    self.high = high;
                    Ok(rest)
                },
                None => Err(Error::DecodeError),
            }
        } else if tag == LOW_TAG {
            match take_uint64(wire_type, buf) {
                Some((low, rest)) => {
                    self.low = low;
                    Ok(rest)
                },
                None => Err(Error::DecodeError),
            }
        } else {
            match skip_payload(wire_type, tag, buf) {
                Some(rest) => Ok(rest),
                None => Err(Error::DecodeError),
            }
        }
    }

    /// Reads an identifier from a message: every field of the message is
    /// merged into the nil identifier, in order, so that a word whose field
    /// is absent is zero and fields under other tags are passed over. A
    /// malformed key or payload anywhere in the message is a `DecodeError`.
    pub fn decode(buf: &[u8]) -> (r: Result<ID, Error>)
        ensures
            match decoded(buf@) {
                Some(id) => r == Ok::<ID, Error>(id),
                None => r == Err::<ID, Error>(Error::DecodeError),
            },
    {
        let mut id = ID { high: 0, low: 0 };
        let mut rest: &[u8] = buf;
        while rest.len() > 0
            invariant
                merged(id, rest@) == decoded(buf@),
            decreases rest@.len(),
        {
            proof {
                lemma_varint_at_length(rest@, 0);
            }
            match take_key(rest) {
                Some((tag, wire_type, payload)) => {
                    proof {
                        lemma_varint_at_length(payload@, 0);
                        lemma_after_payload_length(wire_type, tag, payload@);
                    }
                    match id.merge_field(tag, wire_type, payload) {
                        Ok(next) => {
                            rest = next;
                        },
                        Err(_) => {
                            return Err(Error::DecodeError);
                        },
                    }
                },
                None => {
                    return Err(Error::DecodeError);
                },
            }
        }
        Ok(id)
    }

    /// The number of bytes of the wire form of the identifier.
    pub fn encoded_len(&self) -> (n: usize)
        ensures
            n == wire_form(*self).len(),
    {
        proof {
            lemma_varint_length(HIGH_TAG as nat * 8);
            lemma_varint_length(LOW_TAG as nat * 8);
            lemma_varint_length(self.high as nat);
            lemma_varint_length(self.low as nat);
        }
        uint64_field_len(HIGH_TAG, self.high) + uint64_field_len(LOW_TAG, self.low)
    }

    /// Makes the identifier the nil identifier.
    pub fn clear(&mut self)
        ensures
            *final(self) == (ID { high: 0, low: 0 }),
    {
        self.high = 0;
        self.low = 0;
    }
}

/// The varint of a number of at most 64 bits has between one and ten bytes.
pub proof fn lemma_varint_length(v: nat)
    requires
        v <= u64::MAX,
    ensures
        1 <= varint(v).len() <= 10,
{
    reveal_with_fuel(varint, 11);
}

/// A varint that is read has between one and ten bytes, all of them in `b`.
pub proof fn lemma_varint_at_length(b: Seq<u8>, i: nat)
    ensures
        varint_at(b, i) matches Some((v, n)) ==> 1 <= n <= b.len() && n + i <= 10,
    decreases b.len(),
{
    if i < 10 && b.len() > 0 && b[0] >= 128 {
        lemma_varint_at_length(b.skip(1), i + 1);
    }
}

/// Passing over a payload never leaves more bytes than there were.
pub proof fn lemma_after_payload_length(wire_type: WireType, tag: u32, b: Seq<u8>)
    ensures
        after_payload(wire_type, tag, b) matches Some(rest) ==> rest.len() <= b.len(),
{
    lemma_varint_at_length(b, 0);
}

#[via_fn]
proof fn merged_decreases(id: ID, b: Seq<u8>) {
    if b.len() != 0 {
        lemma_varint_at_length(b, 0);
        if let Some((tag, wire_type, rest)) = read_key(b) {
            lemma_varint_at_length(rest, 0);
            lemma_after_payload_length(wire_type, tag, rest);
        }
    }
}

} // verus!
