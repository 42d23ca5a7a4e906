use auth_service::object_id::ObjectId;

#[test]
fn hex_round_trip() {
    let id = ObjectId::from_bytes([0, 1, 2, 0x0a, 0xff, 0x10, 0x7f, 0x80, 0x99, 0xab, 0xcd, 0xef]);
    let h = id.to_hex();
    assert_eq!(h, "0001020aff107f8099abcdef");
    assert_eq!(ObjectId::parse_str(&h).unwrap(), id);
    assert_eq!(ObjectId::parse_str("0001020AFF107F8099ABCDEF").unwrap(), id);
}

#[test]
fn hex_matches_bson() {
    let id = ObjectId::new();
    assert_eq!(id.to_hex(), bson::oid::ObjectId::from_bytes(id.bytes).to_hex());
}

#[test]
fn parse_rejects_bad_ids() {
    assert!(ObjectId::parse_str("").is_err());
    assert!(ObjectId::parse_str("0001020aff107f8099abcde").is_err());
    assert!(ObjectId::parse_str("0001020aff107f8099abcdeg").is_err());
    assert!(ObjectId::parse_str("0001020aff107f8099abcdef00").is_err());
}
