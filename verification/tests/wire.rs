use entity_id::error::Error;
use entity_id::id::ID;
use entity_id::wire::{WireType, HIGH_TAG, LOW_TAG, MAX_TAG};

fn samples() -> Vec<ID> {
    vec![
        ID::nil(),
        ID { high: 5, low: 300 },
        ID { high: 127, low: 128 },
        ID { high: 16383, low: 16384 },
        ID { high: u64::MAX, low: u64::MAX },
        ID { high: 1 << 63, low: (1 << 63) - 1 },
        ID { high: 0, low: u64::MAX },
        ID { high: 0x67e5_5044_10b1_426f, low: 0x9247_bb68_0e5f_e0c8 },
        ID::new(),
    ]
}

fn decode(bytes: &[u8]) -> Result<ID, Error> {
    ID::decode(bytes)
}

#[test]
fn tags_are_one_and_two() {
    assert_eq!(HIGH_TAG, 1);
    assert_eq!(LOW_TAG, 2);
    assert_eq!(MAX_TAG, (1 << 29) - 1);
}

#[test]
fn encode_writes_high_then_low() {
    assert_eq!(ID::nil().encode(), vec![0x08, 0x00, 0x10, 0x00]);
    assert_eq!(ID { high: 5, low: 300 }.encode(), vec![0x08, 0x05, 0x10, 0xac, 0x02]);
    assert_eq!(ID { high: 127, low: 128 }.encode(), vec![0x08, 0x7f, 0x10, 0x80, 0x01]);
    let mut max = vec![0x08];
    max.extend([0xff; 9]);
    max.push(0x01);
    max.push(0x10);
    max.extend([0xff; 9]);
    max.push(0x01);
    assert_eq!(ID { high: u64::MAX, low: u64::MAX }.encode(), max);
}

#[test]
fn encode_raw_appends() {
    let mut buf = vec![0xaa, 0xbb];
    ID { high: 1, low: 2 }.encode_raw(&mut buf);
    assert_eq!(buf, vec![0xaa, 0xbb, 0x08, 0x01, 0x10, 0x02]);
}

#[test]
fn encoded_len_is_the_length_of_encode() {
    for id in samples() {
        assert_eq!(id.encoded_len(), id.encode().len());
    }
    assert_eq!(ID::nil().encoded_len(), 4);
    assert_eq!(ID { high: 5, low: 300 }.encoded_len(), 5);
    assert_eq!(ID { high: u64::MAX, low: u64::MAX }.encoded_len(), 22);
    assert_eq!(ID { high: (1 << 63) - 1, low: 1 << 56 }.encoded_len(), 1 + 9 + 1 + 9);
}

#[test]
fn decode_reads_back_what_encode_writes() {
    for id in samples() {
        assert_eq!(decode(&id.encode()), Ok(id));
    }
}

#[test]
fn decode_of_nothing_is_nil() {
    assert_eq!(decode(&[]), Ok(ID::nil()));
}

#[test]
fn decode_low_only_leaves_high_zero() {
    assert_eq!(decode(&[0x10, 0xac, 0x02]), Ok(ID { high: 0, low: 300 }));
    assert_eq!(decode(&[0x10, 0x00]), Ok(ID::nil()));
}

#[test]
fn decode_high_only_leaves_low_zero() {
    assert_eq!(decode(&[0x08, 0x05]), Ok(ID { high: 5, low: 0 }));
}

#[test]
fn decode_takes_fields_in_either_order_and_the_last_of_each() {
    assert_eq!(decode(&[0x10, 0xac, 0x02, 0x08, 0x05]), Ok(ID { high: 5, low: 300 }));
    assert_eq!(decode(&[0x08, 0x05, 0x08, 0x06, 0x10, 0x01]), Ok(ID { high: 6, low: 1 }));
}

#[test]
fn decode_passes_over_other_tags() {
    let plain = decode(&[0x08, 0x05, 0x10, 0xac, 0x02]);
    assert_eq!(plain, Ok(ID { high: 5, low: 300 }));
    // tag 9 as a varint
    assert_eq!(decode(&[0x08, 0x05, 0x48, 0x96, 0x01, 0x10, 0xac, 0x02]), plain);
    // tag 9 as eight bytes
    assert_eq!(
        decode(&[0x08, 0x05, 0x49, 1, 2, 3, 4, 5, 6, 7, 8, 0x10, 0xac, 0x02]),
        plain
    );
    // tag 9 as a length and that many bytes
    assert_eq!(decode(&[0x08, 0x05, 0x4a, 0x03, 0x08, 0x07, 0x10, 0x10, 0xac, 0x02]), plain);
    assert_eq!(decode(&[0x08, 0x05, 0x4a, 0x00, 0x10, 0xac, 0x02]), plain);
    // tag 9 as four bytes
    assert_eq!(decode(&[0x08, 0x05, 0x4d, 1, 2, 3, 4, 0x10, 0xac, 0x02]), plain);
    // tag 9 as a group that holds a varint field under tag 1
    assert_eq!(decode(&[0x08, 0x05, 0x4b, 0x08, 0x63, 0x4c, 0x10, 0xac, 0x02]), plain);
    // tag 300 as a varint
    assert_eq!(decode(&[0x08, 0x05, 0xe0, 0x12, 0x01, 0x10, 0xac, 0x02]), plain);
    // the largest tag as a varint
    assert_eq!(
        decode(&[0x08, 0x05, 0xf8, 0xff, 0xff, 0xff, 0x0f, 0x01, 0x10, 0xac, 0x02]),
        plain
    );
}

#[test]
fn decode_reads_a_varint_with_needless_bytes() {
    assert_eq!(decode(&[0x08, 0x80, 0x00]), Ok(ID { high: 0, low: 0 }));
    assert_eq!(decode(&[0x08, 0x85, 0x80, 0x80, 0x00]), Ok(ID { high: 5, low: 0 }));
    assert_eq!(
        decode(&[0x08, 0x81, 0x80, 0x80, 0x80, 0x80, 0x80, 0x80, 0x80, 0x80, 0x00]),
        Ok(ID { high: 1, low: 0 })
    );
    assert_eq!(decode(&[0x88, 0x00, 0x05]), Ok(ID { high: 5, low: 0 }));
}

#[test]
fn decode_reads_the_largest_varint() {
    let mut bytes = vec![0x10];
    bytes.extend([0xff; 9]);
    bytes.push(0x01);
    assert_eq!(decode(&bytes), Ok(ID { high: 0, low: u64::MAX }));
    let mut bytes = vec![0x10];
    bytes.extend([0x80; 9]);
    bytes.push(0x01);
    assert_eq!(decode(&bytes), Ok(ID { high: 0, low: 1 << 63 }));
    let mut bytes = vec![0x10];
    bytes.extend([0x80; 8]);
    bytes.push(0x7f);
    assert_eq!(decode(&bytes), Ok(ID { high: 0, low: 0x7f << 56 }));
}

#[test]
fn decode_rejects_a_malformed_varint() {
    let bad = Err(Error::DecodeError);
    // the payload is missing
    assert_eq!(decode(&[0x08]), bad);
    // the payload ends in a byte that asks for another
    assert_eq!(decode(&[0x08, 0x80]), bad);
    assert_eq!(decode(&[0x08, 0xff, 0xff]), bad);
    assert_eq!(decode(&[0x08, 0x05, 0x10, 0xac]), bad);
    // the tenth byte is above one
    let mut bytes = vec![0x08];
    bytes.extend([0xff; 9]);
    bytes.push(0x02);
    assert_eq!(decode(&bytes), bad);
    let mut bytes = vec![0x08];
    bytes.extend([0x80; 9]);
    bytes.push(0x7f);
    assert_eq!(decode(&bytes), bad);
    // ten bytes that all ask for another, then one that does not
    let mut bytes = vec![0x08];
    bytes.extend([0x80; 10]);
    bytes.push(0x01);
    assert_eq!(decode(&bytes), bad);
    let mut bytes = vec![0x08];
    bytes.extend([0x80; 10]);
    assert_eq!(decode(&bytes), bad);
    // the same, with bytes to spare after the varint
    let mut bytes = vec![0x08];
    bytes.extend([0xff; 9]);
    bytes.push(0x02);
    bytes.extend([0x00; 12]);
    assert_eq!(decode(&bytes), bad);
}

#[test]
fn decode_rejects_a_malformed_key() {
    let bad = Err(Error::DecodeError);
    // tag zero
    assert_eq!(decode(&[0x00, 0x00]), bad);
    assert_eq!(decode(&[0x05, 1, 2, 3, 4]), bad);
    // wire types six and seven
    assert_eq!(decode(&[0x0e, 0x00]), bad);
    assert_eq!(decode(&[0x0f, 0x00]), bad);
    // a key above u32::MAX
    assert_eq!(decode(&[0x88, 0x80, 0x80, 0x80, 0x10, 0x00]), bad);
    // a key that is no varint
    assert_eq!(decode(&[0x80]), bad);
    // the largest key is read
    assert_eq!(decode(&[0xf8, 0xff, 0xff, 0xff, 0x0f, 0x00]), Ok(ID::nil()));
}

#[test]
fn decode_rejects_a_word_that_is_no_varint() {
    let bad = Err(Error::DecodeError);
    assert_eq!(decode(&[0x09, 1, 2, 3, 4, 5, 6, 7, 8]), bad);
    assert_eq!(decode(&[0x0a, 0x01, 0x05]), bad);
    assert_eq!(decode(&[0x0d, 1, 2, 3, 4]), bad);
    assert_eq!(decode(&[0x11, 1, 2, 3, 4, 5, 6, 7, 8]), bad);
    assert_eq!(decode(&[0x12, 0x00]), bad);
    assert_eq!(decode(&[0x0b, 0x0c]), bad);
    assert_eq!(decode(&[0x0c]), bad);
}

#[test]
fn decode_rejects_a_malformed_other_field() {
    let bad = Err(Error::DecodeError);
    // too few bytes
    assert_eq!(decode(&[0x49, 1, 2, 3, 4, 5, 6, 7]), bad);
    assert_eq!(decode(&[0x4d, 1, 2, 3]), bad);
    assert_eq!(decode(&[0x4a, 0x03, 1, 2]), bad);
    assert_eq!(decode(&[0x4a]), bad);
    assert_eq!(decode(&[0x48, 0x80]), bad);
    // the end of a group that was not opened
    assert_eq!(decode(&[0x4c]), bad);
    // a group that is not closed, or closed under another tag
    assert_eq!(decode(&[0x4b, 0x08, 0x63]), bad);
    assert_eq!(decode(&[0x4b, 0x08, 0x63, 0x54]), bad);
}

#[test]
fn decode_failure_comes_after_good_fields_too() {
    assert_eq!(decode(&[0x08, 0x05, 0x10, 0xac, 0x02, 0x08]), Err(Error::DecodeError));
}

#[test]
fn merge_field_replaces_one_word() {
    let mut id = ID { high: 7, low: 9 };
    let rest = id.merge_field(1, WireType::Varint, &[0xac, 0x02, 0x33]).unwrap();
    assert_eq!(rest, &[0x33]);
    assert_eq!(id, ID { high: 300, low: 9 });
    let rest = id.merge_field(2, WireType::Varint, &[0x01]).unwrap();
    assert!(rest.is_empty());
    assert_eq!(id, ID { high: 300, low: 1 });
}

#[test]
fn merge_field_passes_over_other_tags() {
    let mut id = ID { high: 7, low: 9 };
    let bytes = [1, 2, 3, 4, 5, 6, 7, 8, 9, 10];
    assert_eq!(id.merge_field(9, WireType::Varint, &bytes).unwrap(), &bytes[1..]);
    assert_eq!(id.merge_field(9, WireType::SixtyFourBit, &bytes).unwrap(), &bytes[8..]);
    assert_eq!(id.merge_field(9, WireType::ThirtyTwoBit, &bytes).unwrap(), &bytes[4..]);
    assert_eq!(id.merge_field(9, WireType::LengthDelimited, &bytes).unwrap(), &bytes[2..]);
    assert_eq!(id.merge_field(3, WireType::LengthDelimited, &[0x00]).unwrap(), &[] as &[u8]);
    assert_eq!(
        id.merge_field(9, WireType::StartGroup, &[0x08, 0x01, 0x4c, 0x55]).unwrap(),
        &[0x55]
    );
    assert_eq!(id.merge_field(0, WireType::Varint, &bytes).unwrap(), &bytes[1..]);
    assert_eq!(id.merge_field(u32::MAX, WireType::ThirtyTwoBit, &bytes).unwrap(), &bytes[4..]);
    assert_eq!(id, ID { high: 7, low: 9 });
}

#[test]
fn merge_field_failure_leaves_the_id() {
    let mut id = ID { high: 7, low: 9 };
    assert_eq!(id.merge_field(1, WireType::Varint, &[0x80]), Err(Error::DecodeError));
    assert_eq!(id.merge_field(1, WireType::Varint, &[]), Err(Error::DecodeError));
    assert_eq!(id.merge_field(2, WireType::SixtyFourBit, &[0; 8]), Err(Error::DecodeError));
    assert_eq!(id.merge_field(2, WireType::EndGroup, &[0x01]), Err(Error::DecodeError));
    assert_eq!(id.merge_field(9, WireType::EndGroup, &[0x01]), Err(Error::DecodeError));
    assert_eq!(id.merge_field(9, WireType::SixtyFourBit, &[0; 7]), Err(Error::DecodeError));
    assert_eq!(id.merge_field(9, WireType::LengthDelimited, &[0x05, 1]), Err(Error::DecodeError));
    assert_eq!(
        id.merge_field(9, WireType::LengthDelimited, &[0xff, 0xff, 0xff, 0xff, 0xff, 0xff, 0xff, 0xff, 0xff, 0x01]),
        Err(Error::DecodeError)
    );
    assert_eq!(id.merge_field(9, WireType::StartGroup, &[0x08, 0x01]), Err(Error::DecodeError));
    assert_eq!(id, ID { high: 7, low: 9 });
}

#[test]
fn clear_makes_nil() {
    let mut id = ID { high: 7, low: 9 };
    id.clear();
    assert_eq!(id, ID::nil());
}
