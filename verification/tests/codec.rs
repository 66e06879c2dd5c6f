use onestore::binary_item::BinaryItem;
use onestore::compact_u64::CompactU64;
use onestore::errors::ParseError;
use onestore::exguid::ExGuid;
use onestore::jcid::JcId;
use onestore::reader::Reader;

fn round_trip(value: u64) {
    let encoded = CompactU64::encode(value);
    let mut reader = Reader::new(encoded.as_slice());
    let decoded = CompactU64::parse(&mut reader).expect("decodes");
    assert_eq!(decoded.value(), value);
    assert_eq!(reader.remaining_len(), 0);
}

#[test]
fn compact_u64_round_trip_all_widths() {
    let samples: Vec<u64> = vec![
        0,
        1,
        0x7f,
        0x80,
        0x3fff,
        0x4000,
        0x1f_ffff,
        0x20_0000,
        0xfff_ffff,
        0x1000_0000,
        0x7_ffff_ffff,
        0x8_0000_0000,
        0x3ff_ffff_ffff,
        0x400_0000_0000,
        0x1_ffff_ffff_ffff,
        0x2_0000_0000_0000,
        u64::MAX,
    ];
    for v in samples {
        round_trip(v);
    }
}

#[test]
fn compact_u64_known_encodings() {
    assert_eq!(CompactU64::encode(0), vec![0u8]);
    // one byte: value shifted left once, low tag bit set
    assert_eq!(CompactU64::encode(1), vec![3u8]);
    assert_eq!(CompactU64::encode(0x7f), vec![0xffu8]);
    // two bytes: value shifted left twice, tag 0b10, little-endian
    assert_eq!(CompactU64::encode(0x1234), vec![0xd2u8, 0x48u8]);
    // full width: a lone top-bit byte, then eight little-endian bytes
    let full = CompactU64::encode(u64::MAX);
    assert_eq!(full[0], 0x80);
    assert_eq!(full.len(), 9);
    assert_eq!(&full[1..], &[0xff; 8]);
}

#[test]
fn compact_u64_decode_leaves_trailing_bytes() {
    let mut bytes = CompactU64::encode(0x4000);
    bytes.push(0xaa);
    bytes.push(0xbb);
    let mut reader = Reader::new(bytes.as_slice());
    let decoded = CompactU64::parse(&mut reader).expect("decodes");
    assert_eq!(decoded.value(), 0x4000);
    assert_eq!(reader.remaining_len(), 2);
}

#[test]
fn compact_u64_truncated_fails() {
    for v in [0x80u64, 0x4000, 0x20_0000, 0x1000_0000, u64::MAX] {
        let mut bytes = CompactU64::encode(v);
        bytes.pop();
        let mut reader = Reader::new(bytes.as_slice());
        assert_eq!(
            CompactU64::parse(&mut reader).unwrap_err(),
            ParseError::TruncatedInput
        );
    }
    let empty: Vec<u8> = Vec::new();
    let mut reader = Reader::new(empty.as_slice());
    assert_eq!(
        CompactU64::parse(&mut reader).unwrap_err(),
        ParseError::TruncatedInput
    );
}

#[test]
fn binary_item_round_trip() {
    for data in [vec![], vec![42u8], vec![1u8, 2, 3, 4, 5], vec![0u8; 300]] {
        let item = BinaryItem::new(data.clone());
        let encoded = item.encode();
        let mut reader = Reader::new(encoded.as_slice());
        let decoded = BinaryItem::parse(&mut reader).expect("decodes");
        assert_eq!(reader.remaining_len(), 0);
        assert_eq!(decoded.value(), data);
    }
}

#[test]
fn binary_item_rejects_oversized_length_prefix() {
    // announces 1000 bytes but carries only 2
    let mut bytes = CompactU64::encode(1000);
    bytes.push(1);
    bytes.push(2);
    let mut reader = Reader::new(bytes.as_slice());
    assert_eq!(
        BinaryItem::parse(&mut reader).unwrap_err(),
        ParseError::TruncatedInput
    );
}

#[test]
fn file_blob_from_binary_item_keeps_bytes() {
    let item = BinaryItem::new(vec![9u8, 8, 7]);
    let blob = onestore::binary_item::FileBlob::from(item);
    assert_eq!(blob.data().as_slice(), &[9u8, 8, 7]);
}

#[test]
fn exguid_parse_reads_guid_and_index() {
    let mut bytes = Vec::new();
    bytes.extend_from_slice(&0x1122_3344_5566_7788u64.to_le_bytes());
    bytes.extend_from_slice(&0x99aa_bbcc_ddee_ff00u64.to_le_bytes());
    bytes.extend_from_slice(&7u32.to_le_bytes());
    bytes.push(0xfe); // trailing byte stays
    let mut reader = Reader::new(bytes.as_slice());
    let g = ExGuid::parse(&mut reader).expect("decodes");
    assert_eq!(g, ExGuid::new(0x1122_3344_5566_7788, 0x99aa_bbcc_ddee_ff00, 7));
    assert_eq!(reader.remaining_len(), 1);

    let short = [0u8; 19];
    let mut reader = Reader::new(&short);
    assert_eq!(
        ExGuid::parse(&mut reader).unwrap_err(),
        ParseError::TruncatedInput
    );
}

#[test]
fn jcid_parse_reads_little_endian_tag() {
    let bytes = [0x34u8, 0x12, 0x00, 0x00];
    let mut reader = Reader::new(&bytes);
    assert_eq!(JcId::parse(&mut reader).expect("decodes"), JcId(0x1234));

    let short = [0x34u8, 0x12];
    let mut reader = Reader::new(&short);
    assert_eq!(
        JcId::parse(&mut reader).unwrap_err(),
        ParseError::TruncatedInput
    );
}

fn keyed_table(entries: &[(u32, &[u8])]) -> Vec<u8> {
    let mut out = CompactU64::encode(entries.len() as u64);
    for (id, value) in entries {
        out.extend_from_slice(&id.to_le_bytes());
        out.extend_from_slice(&BinaryItem::new(value.to_vec()).encode());
    }
    out
}

#[test]
fn keyed_property_lookup_finds_entries() {
    let data = keyed_table(&[
        (0x10, &[1, 2, 3]),
        (0x20, &7u32.to_le_bytes()),
        (0x30, &[1]),
        (0x40, &[0]),
    ]);
    let props = onestore::object_prop_set::ObjectPropSet::new(
        Vec::new(),
        Vec::new(),
        Vec::new(),
        data,
    );
    assert_eq!(props.get_raw(0x10), Some(vec![1u8, 2, 3]));
    assert_eq!(props.get_u32(0x20), Some(7));
    assert_eq!(props.get_bool(0x30), Some(true));
    assert_eq!(props.get_bool(0x40), Some(false));
    // absent key
    assert_eq!(props.get_raw(0x99), None);
    // wrong widths are rejected by the typed getters
    assert_eq!(props.get_u32(0x10), None);
    assert_eq!(props.get_bool(0x20), None);
}

#[test]
fn keyed_property_lookup_rejects_malformed_table() {
    // announces two entries but carries only one
    let mut data = CompactU64::encode(2);
    data.extend_from_slice(&0x10u32.to_le_bytes());
    data.extend_from_slice(&BinaryItem::new(vec![9]).encode());
    let props = onestore::object_prop_set::ObjectPropSet::new(
        Vec::new(),
        Vec::new(),
        Vec::new(),
        data,
    );
    assert_eq!(props.get_raw(0x10), Some(vec![9u8]));
    assert_eq!(props.get_raw(0x20), None);
}
