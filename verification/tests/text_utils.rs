use pgcat::{
    ascii_uppercase, display_name, is_immutable_key, is_valid_utf8, starts_with_str, str_eq,
    Error, Role,
};

#[test]
fn uppercasing_touches_only_ascii_letters() {
    let v = "Show Databases; héllo_1".as_bytes().to_vec();
    assert_eq!(ascii_uppercase(&v), "SHOW DATABASES; HéLLO_1".as_bytes().to_vec());
}

#[test]
fn prefix_matching() {
    let v = b"SHOW STATS;".to_vec();
    assert!(starts_with_str(&v, "SHOW STATS"));
    assert!(starts_with_str(&v, ""));
    assert!(!starts_with_str(&v, "SHOW STATSX"));
    assert!(!starts_with_str(&v, "SHOW STATS; -- longer than the text"));
}

#[test]
fn string_equality_is_exact() {
    assert!(str_eq("connect_timeout", "connect_timeout"));
    assert!(!str_eq("host", "host "));
    assert!(str_eq("héllo", "héllo"));
    assert!(!str_eq("héllo", "hello"));
}

#[test]
fn utf8_validation() {
    assert!(is_valid_utf8(&vec![]));
    assert!(is_valid_utf8(&b"plain ascii".to_vec()));
    assert!(is_valid_utf8(&"héllo → 😀".as_bytes().to_vec()));
    assert!(!is_valid_utf8(&vec![0xff]));
    assert!(!is_valid_utf8(&vec![0xc3])); // truncated two-byte scalar
    assert!(!is_valid_utf8(&vec![0xe2, 0x82])); // truncated three-byte scalar
    assert!(!is_valid_utf8(&vec![0xc0, 0xaf])); // overlong
    assert!(!is_valid_utf8(&vec![0xed, 0xa0, 0x80])); // surrogate
    assert!(!is_valid_utf8(&vec![0xf4, 0x90, 0x80, 0x80])); // above the last scalar
}

#[test]
fn display_names() {
    assert_eq!(display_name(0, Role::Primary, 0), b"shard_0_primary".to_vec());
    assert_eq!(display_name(3, Role::Replica, 0), b"shard_3_replica_0".to_vec());
    assert_eq!(display_name(12, Role::Replica, 7), b"shard_12_replica_7".to_vec());
}

#[test]
fn immutable_keys() {
    assert!(is_immutable_key("host"));
    assert!(is_immutable_key("port"));
    assert!(is_immutable_key("connect_timeout"));
    assert!(!is_immutable_key("pool_size"));
    assert!(!is_immutable_key("pool_mode"));
    assert!(!is_immutable_key("user"));
}

#[test]
fn error_descriptions() {
    assert_eq!(Error::ProtocolSyncError.describe(), "protocol out of sync");
    assert_eq!(Error::QueryDecodeError.describe(), "malformed query frame");
}
