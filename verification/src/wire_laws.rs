//! What holds of the wire form: a written number reads back, an identifier
//! decodes from its own wire form, an absent field leaves its word zero, and
//! a field under another tag changes nothing.

use crate::id::ID;
use crate::wire::{
    after_payload, decoded, lemma_varint_at_length, lemma_varint_length, merged, read_key,
    read_varint, uint64_field, varint, varint_at, wire_form, WireType, HIGH_TAG, LOW_TAG, MAX_TAG,
};
use vstd::prelude::*;

verus! {

/// The numbers that may still follow when `i` bytes of a varint of 64 bits
/// are written: those below `2^(64 - 7 * i)`.
pub open spec fn varint_room(i: nat) -> nat {
    if i == 0 {
        0x1_0000_0000_0000_0000
    } else if i == 1 {
        0x200_0000_0000_0000
    } else if i == 2 {
        0x4_0000_0000_0000
    } else if i == 3 {
        0x800_0000_0000
    } else if i == 4 {
        0x10_0000_0000
    } else if i == 5 {
        0x2000_0000
    } else if i == 6 {
        0x40_0000
    } else if i == 7 {
        0x8000
    } else if i == 8 {
        0x100
    } else if i == 9 {
        2
    } else {
        0
    }
}

/// The varint of a number reads back as that number and as all of its bytes,
/// whatever follows it.
pub proof fn lemma_varint_at_varint(v: nat, rest: Seq<u8>, i: nat)
    requires
        v < varint_room(i),
    ensures
        varint_at(varint(v) + rest, i) == Some((v, varint(v).len())),
    decreases v,
{
    let b = varint(v) + rest;
    if v < 128 {
        assert(b[0] == v as u8);
    } else {
        let w = v / 128;
        assert(b[0] == (128 + v % 128) as u8);
        assert(b.skip(1) =~= varint(w) + rest);
        lemma_varint_at_varint(w, rest, i + 1);
    }
}

/// A number of 64 bits that is written as a varint reads back, and leaves
/// what followed it.
pub proof fn lemma_read_varint(v: u64, rest: Seq<u8>)
    ensures
        read_varint(varint(v as nat) + rest) == Some((v, rest)),
{
    lemma_varint_at_varint(v as nat, rest, 0);
    assert((varint(v as nat) + rest).skip(varint(v as nat).len() as int) =~= rest);
}

/// A key that is written reads back as its tag and wire type.
pub proof fn lemma_read_key(tag: u32, wire_type: WireType, rest: Seq<u8>)
    requires
        1 <= tag <= MAX_TAG,
    ensures
        read_key(varint(tag as nat * 8 + wire_type.number()) + rest) == Some(
            (tag, wire_type, rest),
        ),
{
    let key = (tag as nat * 8 + wire_type.number()) as u64;
    lemma_read_varint(key, rest);
}

/// A varint that is read is read alike when more bytes follow it.
pub proof fn lemma_varint_at_extend(p: Seq<u8>, rest: Seq<u8>, i: nat)
    requires
        varint_at(p, i) is Some,
    ensures
        varint_at(p + rest, i) == varint_at(p, i),
    decreases p.len(),
{
    if p[0] >= 128 {
        assert((p + rest).skip(1) =~= p.skip(1) + rest);
        lemma_varint_at_extend(p.skip(1), rest, i + 1);
    }
}

/// Merging the field of the high word replaces the high word.
pub proof fn lemma_merge_high_field(id: ID, high: u64, rest: Seq<u8>)
    ensures
        merged(id, uint64_field(HIGH_TAG, high) + rest) == merged(
            ID { high, low: id.low },
            rest,
        ),
{
    let payload = varint(high as nat) + rest;
    let b = uint64_field(HIGH_TAG, high) + rest;
    assert(b =~= varint(HIGH_TAG as nat * 8 + WireType::Varint.number()) + payload);
    lemma_read_key(HIGH_TAG, WireType::Varint, payload);
    lemma_read_varint(high, rest);
    lemma_varint_length(HIGH_TAG as nat * 8);
}

/// Merging the field of the low word replaces the low word.
pub proof fn lemma_merge_low_field(id: ID, low: u64, rest: Seq<u8>)
    ensures
        merged(id, uint64_field(LOW_TAG, low) + rest) == merged(ID { high: id.high, low }, rest),
{
    let payload = varint(low as nat) + rest;
    let b = uint64_field(LOW_TAG, low) + rest;
    assert(b =~= varint(LOW_TAG as nat * 8 + WireType::Varint.number()) + payload);
    lemma_read_key(LOW_TAG, WireType::Varint, payload);
    lemma_read_varint(low, rest);
    lemma_varint_length(LOW_TAG as nat * 8);
}

/// A whole field under a tag other than those of the two words, of any wire
/// type but a group: its key, then a payload that is passed over to its last
/// byte.
pub open spec fn is_other_field(tag: u32, wire_type: WireType, payload: Seq<u8>) -> bool {
    &&& 1 <= tag <= MAX_TAG
    &&& tag != HIGH_TAG
    &&& tag != LOW_TAG
    &&& wire_type != WireType::StartGroup
    &&& after_payload(wire_type, tag, payload) == Some(Seq::<u8>::empty())
}

/// The bytes of a field: its key, then its payload.
pub open spec fn field(tag: u32, wire_type: WireType, payload: Seq<u8>) -> Seq<u8> {
    varint(tag as nat * 8 + wire_type.number()) + payload
}

/// A payload that is passed over to its last byte is passed over alike when
/// more bytes follow it, and leaves them.
pub proof fn lemma_after_payload_extend(
    wire_type: WireType,
    tag: u32,
    payload: Seq<u8>,
    rest: Seq<u8>,
)
    requires
        wire_type != WireType::StartGroup,
        after_payload(wire_type, tag, payload) == Some(Seq::<u8>::empty()),
    ensures
        after_payload(wire_type, tag, payload + rest) == Some(rest),
{
    let b = payload + rest;
    match wire_type {
        WireType::Varint => {
            lemma_varint_at_length(payload, 0);
            lemma_varint_at_extend(payload, rest, 0);
            let n = varint_at(payload, 0).unwrap().1;
            assert(payload.skip(n as int).len() == 0);
            assert(b.skip(n as int) =~= rest);
        },
        WireType::LengthDelimited => {
            lemma_varint_at_length(payload, 0);
            lemma_varint_at_extend(payload, rest, 0);
            let n = varint_at(payload, 0).unwrap().1;
            let len = read_varint(payload).unwrap().0;
            let body = payload.skip(n as int);
            assert(body.skip(len as int).len() == 0);
            assert(b.skip(n as int) =~= body + rest);
            assert((body + rest).skip(len as int) =~= rest);
        },
        WireType::SixtyFourBit => {
            assert(payload.skip(8).len() == 0);
            assert(b.skip(8) =~= rest);
        },
        WireType::ThirtyTwoBit => {
            assert(payload.skip(4).len() == 0);
            assert(b.skip(4) =~= rest);
        },
        _ => {},
    }
}

/// Merging a field under another tag leaves the identifier as it was.
pub proof fn lemma_merge_other_field(
    id: ID,
    tag: u32,
    wire_type: WireType,
    payload: Seq<u8>,
    rest: Seq<u8>,
)
    requires
        is_other_field(tag, wire_type, payload),
    ensures
        merged(id, field(tag, wire_type, payload) + rest) == merged(id, rest),
{
    let key = varint(tag as nat * 8 + wire_type.number());
    let b = field(tag, wire_type, payload) + rest;
    assert(b =~= key + (payload + rest));
    lemma_read_key(tag, wire_type, payload + rest);
    lemma_after_payload_extend(wire_type, tag, payload, rest);
    lemma_varint_length(tag as nat * 8 + wire_type.number());
}

/// An identifier decodes from its own wire form.
pub proof fn lemma_decode_wire_form(id: ID)
    ensures
        decoded(wire_form(id)) == Some(id),
{
    let nil = ID { high: 0, low: 0 };
    let empty = Seq::<u8>::empty();
    let low_field = uint64_field(LOW_TAG, id.low);
    lemma_merge_high_field(nil, id.high, low_field);
    lemma_merge_low_field(ID { high: id.high, low: 0 }, id.low, empty);
    assert(low_field + empty =~= low_field);
}

/// A message that holds only the field of the low word decodes to the
/// identifier with that low word and a zero high word.
pub proof fn lemma_decode_low_only(low: u64)
    ensures
        decoded(uint64_field(LOW_TAG, low)) == Some(ID { high: 0, low }),
{
    let empty = Seq::<u8>::empty();
    lemma_merge_low_field(ID { high: 0, low: 0 }, low, empty);
    assert(uint64_field(LOW_TAG, low) + empty =~= uint64_field(LOW_TAG, low));
}

/// A message that holds only the field of the high word decodes to the
/// identifier with that high word and a zero low word.
pub proof fn lemma_decode_high_only(high: u64)
    ensures
        decoded(uint64_field(HIGH_TAG, high)) == Some(ID { high, low: 0 }),
{
    let empty = Seq::<u8>::empty();
    lemma_merge_high_field(ID { high: 0, low: 0 }, high, empty);
    assert(uint64_field(HIGH_TAG, high) + empty =~= uint64_field(HIGH_TAG, high));
}

/// The empty message decodes to the nil identifier.
pub proof fn lemma_decode_empty()
    ensures
        decoded(Seq::<u8>::empty()) == Some(ID { high: 0, low: 0 }),
{
}

/// The two fields decode alike in either order.
pub proof fn lemma_decode_low_then_high(id: ID)
    ensures
        decoded(uint64_field(LOW_TAG, id.low) + uint64_field(HIGH_TAG, id.high)) == Some(id),
{
    let nil = ID { high: 0, low: 0 };
    let empty = Seq::<u8>::empty();
    let high_field = uint64_field(HIGH_TAG, id.high);
    lemma_merge_low_field(nil, id.low, high_field);
    lemma_merge_high_field(ID { high: 0, low: id.low }, id.high, empty);
    assert(high_field + empty =~= high_field);
}

/// A field under another tag between the fields of the two words changes
/// nothing: the message decodes as the wire form alone does.
pub proof fn lemma_decode_with_other_field(
    id: ID,
    tag: u32,
    wire_type: WireType,
    payload: Seq<u8>,
)
    requires
        is_other_field(tag, wire_type, payload),
    ensures
        decoded(
            uint64_field(HIGH_TAG, id.high) + field(tag, wire_type, payload) + uint64_field(
                LOW_TAG,
                id.low,
            ),
        ) == decoded(wire_form(id)),
        decoded(
            uint64_field(HIGH_TAG, id.high) + field(tag, wire_type, payload) + uint64_field(
                LOW_TAG,
                id.low,
            ),
        ) == Some(id),
{
    let nil = ID { high: 0, low: 0 };
    let empty = Seq::<u8>::empty();
    let high_field = uint64_field(HIGH_TAG, id.high);
    let other = field(tag, wire_type, payload);
    let low_field = uint64_field(LOW_TAG, id.low);
    let b = high_field + other + low_field;
    assert(b =~= high_field + (other + low_field));
    lemma_merge_high_field(nil, id.high, other + low_field);
    lemma_merge_other_field(ID { high: id.high, low: 0 }, tag, wire_type, payload, low_field);
    lemma_merge_low_field(ID { high: id.high, low: 0 }, id.low, empty);
    assert(low_field + empty =~= low_field);
    lemma_decode_wire_form(id);
}

/// A varint field under another tag is a whole field.
pub proof fn lemma_other_varint_field(tag: u32, v: u64)
    requires
        1 <= tag <= MAX_TAG,
        tag != HIGH_TAG,
        tag != LOW_TAG,
    ensures
        is_other_field(tag, WireType::Varint, varint(v as nat)),
        field(tag, WireType::Varint, varint(v as nat)) == uint64_field(tag, v),
{
    let empty = Seq::<u8>::empty();
    lemma_read_varint(v, empty);
    assert(varint(v as nat) + empty =~= varint(v as nat));
}

} // verus!
