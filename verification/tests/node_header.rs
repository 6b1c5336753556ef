use realm_db_reader::NodeHeader;

#[test]
fn test_node_header() {
    let bytes = [0x41, 0x41, 0x41, 0x41, 0b10, 0x00, 0x00, 0x02];
    let header = NodeHeader::parse(&bytes).unwrap();

    assert!(!header.is_inner_bptree());
    assert!(!header.has_refs());
    assert!(!header.context_flag());
    assert!(header.width_scheme() == 0);
    assert_eq!(header.width(), 2);
    assert_eq!(header.size, 2);

    let bytes = [0x41, 0x41, 0x41, 0x41, 0b01000110, 0x00, 0x00, 0x0A];
    let header = NodeHeader::parse(&bytes).unwrap();

    assert!(!header.is_inner_bptree());
    assert!(header.has_refs());
    assert!(!header.context_flag());
    assert_eq!(header.width_scheme(), 0);
    assert_eq!(header.width(), 32);
    assert_eq!(header.size, 10);
    // 32 bits -> 4 bytes -> *10 = 40
    assert_eq!(header.payload_len(), 40);
}
