//! The functions that read bytes.
use realm_db_reader::array::array_string_short::looks_like_short_array_string;
use realm_db_reader::array::integer_array::reinterpret;
use realm_db_reader::array::{RealmRef, RefOrTaggedValue};
use realm_db_reader::column::timestamp::{make_timestamp, timestamp_from_made};
use realm_db_reader::column_type::ColumnType;
use realm_db_reader::index::{reinterpret_unsigned, to_le_bytes, Index};
use realm_db_reader::realm::{decode_slot, Header, SlotValue};
use realm_db_reader::table::column::ColumnAttributes;
use realm_db_reader::utils::{
    lower_bound, read_array_value, same_text, string_from_bytes, text_from_bytes, upper_bound,
};
use realm_db_reader::{NodeHeader, NodeType, RealmFileError, Timestamp, Value};

#[test]
fn slots_of_every_width() {
    // Width 1: bits from the low end of each byte.
    let payload = [0b0000_0101u8, 0b0000_0010];
    let expected: [u64; 10] = [1, 0, 1, 0, 0, 0, 0, 0, 0, 1];
    for (i, e) in expected.iter().enumerate() {
        assert_eq!(read_array_value(&payload, 1, i), *e);
    }
    // Width 2.
    let payload = [0b1110_0100u8];
    for i in 0..4usize {
        assert_eq!(read_array_value(&payload, 2, i), i as u64);
    }
    // Width 4.
    let payload = [0xa5u8, 0x0f];
    assert_eq!(read_array_value(&payload, 4, 0), 5);
    assert_eq!(read_array_value(&payload, 4, 1), 10);
    assert_eq!(read_array_value(&payload, 4, 2), 15);
    assert_eq!(read_array_value(&payload, 4, 3), 0);
    // Width 8 and the little-endian widths.
    let payload = [1u8, 2, 3, 4, 5, 6, 7, 8, 9, 10, 11, 12, 13, 14, 15, 16];
    assert_eq!(read_array_value(&payload, 8, 3), 4);
    assert_eq!(read_array_value(&payload, 16, 1), 0x0403);
    assert_eq!(read_array_value(&payload, 32, 1), 0x0807_0605);
    assert_eq!(read_array_value(&payload, 64, 1), 0x100f_0e0d_0c0b_0a09);
    assert_eq!(read_array_value(&payload, 64, 0), 0x0807_0605_0403_0201);
    // Width 0.
    assert_eq!(read_array_value(&[], 0, 1_000), 0);
}

#[test]
fn slots_are_references_or_tagged_numbers() {
    let payload = [8u8, 0, 0, 0, 0, 0, 0, 0, 7, 0, 0, 0, 0, 0, 0, 0];
    assert_eq!(decode_slot(&payload, 64, 0), SlotValue::Ref(8));
    assert_eq!(decode_slot(&payload, 64, 1), SlotValue::Inline(3));
    assert_eq!(RefOrTaggedValue::from_raw(16), RefOrTaggedValue::Ref(RealmRef::new(16)));
    assert_eq!(RefOrTaggedValue::from_raw(17), RefOrTaggedValue::TaggedValue(8));
    assert_eq!(RealmRef::new(24).to_offset(), 24);
}

#[test]
fn bounds_in_a_sorted_array() {
    //   3 3 3 4 4 4 5 6 7 9 9 9
    let data = [3u8, 3, 3, 4, 4, 4, 5, 6, 7, 9, 9, 9];
    assert_eq!(lower_bound(&data, 8, 12, 1), 0);
    assert_eq!(upper_bound(&data, 8, 12, 1), 0);
    assert_eq!(lower_bound(&data, 8, 12, 4), 3);
    assert_eq!(upper_bound(&data, 8, 12, 4), 6);
    assert_eq!(lower_bound(&data, 8, 12, 8), 9);
    assert_eq!(upper_bound(&data, 8, 12, 8), 9);
    assert_eq!(lower_bound(&data, 8, 12, 15), 12);
    assert_eq!(upper_bound(&data, 8, 12, 15), 12);
    assert_eq!(lower_bound(&data, 8, 0, 3), 0);
    assert_eq!(upper_bound(&data, 8, 1, 3), 1);
    for size in 0..13usize {
        for value in 0..11u64 {
            let low = lower_bound(&data, 8, size, value);
            let high = upper_bound(&data, 8, size, value);
            assert_eq!(low, data[..size].iter().filter(|x| (**x as u64) < value).count());
            assert_eq!(high, data[..size].iter().filter(|x| (**x as u64) <= value).count());
        }
    }
}

#[test]
fn payload_lengths_of_the_three_schemes() {
    // Packed bits: 10 slots of 4 bits are 5 bytes, 3 slots of 1 bit are 1.
    let packed = NodeHeader { checksum: 0x4141_4141, flags: 3, size: 10 };
    assert_eq!(packed.width(), 4);
    assert_eq!(packed.width_scheme(), 0);
    assert_eq!(packed.payload_len(), 5);
    let bits = NodeHeader { checksum: 0x4141_4141, flags: 1, size: 3 };
    assert_eq!(bits.payload_len(), 1);
    // Multiples of bytes: 10 slots of 4 bytes.
    let multiples = NodeHeader { checksum: 0x4141_4141, flags: (1 << 3) | 3, size: 10 };
    assert_eq!(multiples.width_scheme(), 1);
    assert_eq!(multiples.payload_len(), 40);
    // Plain bytes.
    let plain = NodeHeader { checksum: 0x4141_4141, flags: (2 << 3) | 7, size: 10 };
    assert_eq!(plain.width_scheme(), 2);
    assert_eq!(plain.width(), 64);
    assert_eq!(plain.payload_len(), 10);
    let widths: [u8; 8] = [0, 1, 2, 4, 8, 16, 32, 64];
    for (i, w) in widths.iter().enumerate() {
        let h = NodeHeader { checksum: 0x4141_4141, flags: i as u8, size: 0 };
        assert_eq!(h.width(), *w);
    }
}

#[test]
fn node_headers_say_their_type() {
    let inner = NodeHeader { checksum: 0x4141_4141, flags: 0xc0, size: 2 };
    assert!(matches!(inner.get_type(), NodeType::InnerBptree));
    let refs = NodeHeader { checksum: 0x4141_4141, flags: 0x60, size: 2 };
    assert!(matches!(refs.get_type(), NodeType::HasRefs));
    assert!(refs.context_flag());
    let normal = NodeHeader { checksum: 0x4141_4141, flags: 0x20, size: 2 };
    assert!(matches!(normal.get_type(), NodeType::Normal));
}

#[test]
fn node_headers_that_do_not_parse() {
    let short = [0x41u8, 0x41, 0x41, 0x41, 0, 0, 0];
    assert!(matches!(NodeHeader::parse(&short), Err(RealmFileError::InvalidRealmFile { .. })));
    let checksum = [0x41u8, 0x41, 0x41, 0x42, 0, 0, 0, 1];
    assert!(matches!(NodeHeader::parse(&checksum), Err(RealmFileError::InvalidRealmFile { .. })));
    let scheme = [0x41u8, 0x41, 0x41, 0x41, 0x18, 0, 0, 1];
    assert!(matches!(NodeHeader::parse(&scheme), Err(RealmFileError::InvalidRealmFile { .. })));
    let big = [0x41u8, 0x41, 0x41, 0x41, 0, 0x01, 0x02, 0x03];
    assert_eq!(NodeHeader::parse(&big).unwrap().size, 0x01_0203);
}

#[test]
fn file_headers() {
    let mut bytes = [0u8; 24];
    bytes[0] = 0x18;
    bytes[8] = 0x20;
    bytes[9] = 0x01;
    bytes[16..20].copy_from_slice(b"T-DB");
    bytes[20] = 9;
    bytes[21] = 10;
    let header = Header::parse(&bytes).unwrap();
    assert_eq!(header.file_format_version(), (9, 10));
    assert!(!header.is_encrypted());
    assert_eq!(header.current_top_ref().to_offset(), 0x18);
    bytes[23] = 0x81;
    let header = Header::parse(&bytes).unwrap();
    assert!(header.is_encrypted());
    assert_eq!(header.current_top_ref().to_offset(), 0x120);
    assert!(Header::parse(&bytes[..23]).is_err());
    bytes[16] = b't';
    assert!(Header::parse(&bytes).is_err());
}

#[test]
fn column_attributes() {
    let none = ColumnAttributes::new(0);
    assert!(!none.is_indexed() && !none.is_unique() && !none.is_reserved());
    assert!(!none.is_strong_links() && !none.is_nullable() && !none.is_list());
    assert!(!none.is_dictionary() && !none.is_set() && !none.is_fulltext_indexed());
    assert!(!none.is_collection());
    assert!(ColumnAttributes::new(1).is_indexed());
    assert!(ColumnAttributes::new(2).is_unique());
    assert!(ColumnAttributes::new(4).is_reserved());
    assert!(ColumnAttributes::new(8).is_strong_links());
    assert!(ColumnAttributes::new(16).is_nullable());
    assert!(ColumnAttributes::new(32).is_list());
    assert!(ColumnAttributes::new(64).is_dictionary());
    assert!(ColumnAttributes::new(128).is_set());
    assert!(ColumnAttributes::new(256).is_fulltext_indexed());
    assert!(ColumnAttributes::new(32).is_collection());
    assert!(ColumnAttributes::new(64).is_collection());
    assert!(ColumnAttributes::new(128).is_collection());
    assert!(!ColumnAttributes::new(256 | 16 | 1).is_collection());
    assert_eq!(ColumnAttributes::from_u64(17), ColumnAttributes::new(17));
}

#[test]
fn column_types() {
    assert_eq!(ColumnType::from_u64(0).unwrap(), ColumnType::Int);
    assert_eq!(ColumnType::from_u64(5).unwrap(), ColumnType::Table);
    assert_eq!(ColumnType::from_u64(8).unwrap(), ColumnType::Timestamp);
    assert_eq!(ColumnType::from_u64(14).unwrap(), ColumnType::BackLink);
    assert!(ColumnType::from_u64(15).is_err());
    assert!(!ColumnType::Int.has_sub_spec());
    assert!(ColumnType::Table.has_sub_spec());
    assert_eq!(ColumnType::String.sub_spec_entries_count(), 0);
    assert_eq!(ColumnType::Link.sub_spec_entries_count(), 1);
    assert_eq!(ColumnType::LinkList.sub_spec_entries_count(), 1);
    assert_eq!(ColumnType::Table.sub_spec_entries_count(), 1);
    assert_eq!(ColumnType::BackLink.sub_spec_entries_count(), 2);
}

#[test]
fn keys_of_an_index() {
    assert_eq!(Index::create_key(b"abcd"), 0x6162_6364);
    assert_eq!(Index::create_key(b"ab"), 0x6162_0000);
    assert_eq!(Index::create_key(b""), 0);
    assert_eq!(Index::create_key(b"abcdef"), 0x6162_6364);
    // Every value is filed as if it had an X behind it.
    assert_eq!(Index::create_key_with_offset(b"", 0), 0x5800_0000);
    assert_eq!(Index::create_key_with_offset(b"bob", 0), 0x626f_6258);
    assert_eq!(Index::create_key_with_offset(b"abcd", 0), 0x6162_6364);
    assert_eq!(Index::create_key_with_offset(b"abcd", 4), 0x5800_0000);
    assert_eq!(Index::create_key_with_offset(b"abcd", 5), 0);
    assert_eq!(Index::create_key_with_offset(b"abcdef", 4), 0x6566_5800);
    assert_eq!(Index::create_key_with_offset(b"abcdefgh", 2), 0x6364_6566);
}

#[test]
fn bytes_that_an_index_files_values_under() {
    assert_eq!(Index::coerce_to_string(&Value::String("héllo".to_string())), "héllo".as_bytes());
    assert_eq!(Index::coerce_to_string(&Value::Int(0x0102)), vec![2, 1, 0, 0, 0, 0, 0, 0]);
    assert_eq!(Index::coerce_to_string(&Value::Int(-2)), vec![0xfe, 0xff, 0xff, 0xff, 0xff, 0xff, 0xff, 0xff]);
    assert_eq!(Index::coerce_to_string(&Value::Bool(true)), vec![1]);
    assert_eq!(Index::coerce_to_string(&Value::Bool(false)), vec![0]);
    let t = Value::Timestamp(Timestamp { seconds: 0x0a0b, nanoseconds: 0x0c0d });
    assert_eq!(
        Index::coerce_to_string(&t),
        vec![0x0b, 0x0a, 0, 0, 0, 0, 0, 0, 0x0d, 0x0c, 0, 0]
    );
    assert_eq!(to_le_bytes(0x0102_0304, 3), vec![4, 3, 2]);
    assert_eq!(to_le_bytes(1, 0), Vec::<u8>::new());
}

#[test]
fn numbers_keep_their_bits() {
    assert_eq!(reinterpret(0), 0);
    assert_eq!(reinterpret(u64::MAX), -1);
    assert_eq!(reinterpret(0x8000_0000_0000_0000), i64::MIN);
    assert_eq!(reinterpret(0x7fff_ffff_ffff_ffff), i64::MAX);
    assert_eq!(reinterpret_unsigned(-1), u64::MAX);
    assert_eq!(reinterpret_unsigned(i64::MIN), 0x8000_0000_0000_0000);
    assert_eq!(reinterpret_unsigned(5), 5);
}

#[test]
fn text_of_bytes() {
    assert_eq!(text_from_bytes(b"abc".to_vec()).unwrap(), "abc");
    assert_eq!(text_from_bytes("żółw".as_bytes().to_vec()).unwrap(), "żółw");
    assert!(text_from_bytes(vec![0xc3]).is_err());
    assert_eq!(string_from_bytes(b"abc\0".to_vec()).unwrap(), "abc");
    assert_eq!(string_from_bytes(b"abc".to_vec()).unwrap(), "abc");
    assert_eq!(string_from_bytes(b"ab\0\0".to_vec()).unwrap(), "ab\0");
    assert_eq!(string_from_bytes(Vec::new()).unwrap(), "");
    assert!(same_text("abc", "abc"));
    assert!(!same_text("abc", "abd"));
    assert!(!same_text("abc", "ab"));
    assert!(same_text("", ""));
}

#[test]
fn timestamps_that_chrono_takes() {
    match make_timestamp(1_431_648_000, 999_999_999) {
        Value::Timestamp(t) => {
            assert_eq!(t.seconds, 1_431_648_000);
            assert_eq!(t.nanoseconds, 999_999_999);
        },
        other => panic!("unexpected: {:?}", other),
    }
    match make_timestamp(-1, 5) {
        Value::Timestamp(t) => assert_eq!(t, Timestamp { seconds: -1, nanoseconds: 5 }),
        other => panic!("unexpected: {:?}", other),
    }
    assert!(make_timestamp(0, 0).is_none());
    assert!(!make_timestamp(0, 1).is_none());
    // Nanoseconds that are none, and seconds out of range.
    assert!(make_timestamp(10, 2_000_000_000).is_none());
    assert!(make_timestamp(10, -1).is_none());
    assert!(make_timestamp(10, 0x1_0000_0000).is_none());
    assert!(make_timestamp(i64::MAX, 0).is_none());
    assert!(timestamp_from_made(0, 0, Some((0, 0))).is_none());
    assert!(timestamp_from_made(3, 4, None).is_none());
    match timestamp_from_made(3, 4, Some((3, 4))) {
        Value::Timestamp(t) => assert_eq!(t, Timestamp { seconds: 3, nanoseconds: 4 }),
        other => panic!("unexpected: {:?}", other),
    }
}

#[test]
fn payloads_that_look_like_short_strings() {
    // Two strings of width 4: "ab" and a null.
    let payload = [b'a', b'b', 0, 1, 0, 0, 0, 4];
    assert!(looks_like_short_array_string(&payload, 4, 2));
    // A width of 0 and a payload that is too short do not.
    assert!(!looks_like_short_array_string(&payload, 0, 2));
    assert!(!looks_like_short_array_string(&payload, 4, 3));
    // An empty string does not, nor does one with a byte below a space.
    let empty = [0u8, 0, 0, 3];
    assert!(!looks_like_short_array_string(&empty, 4, 1));
    let control = [b'a', 7, 0, 1];
    assert!(!looks_like_short_array_string(&control, 4, 1));
    // A count above the width does not.
    let broken = [b'a', b'b', 0, 9];
    assert!(!looks_like_short_array_string(&broken, 4, 1));
    assert!(looks_like_short_array_string(&payload, 4, 0));
}
