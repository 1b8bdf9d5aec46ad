use node_rankings::dtos::NewNodeDTO;
use node_rankings::mempool_api::NodeConnectivityRanking;
use node_rankings::utils::{convert_unix_to_iso, iso_or_empty, normalize, MAX_TIMESTAMP};

#[test]
fn test_convert_unix_to_iso() {
    let unix_timestamp = 1638316800; // Corresponds to 2021-12-01T00:00:00Z
    let expected_iso = "2021-12-01T00:00:00Z";
    assert_eq!(convert_unix_to_iso(unix_timestamp), expected_iso);

    let invalid_unix_timestamp = u64::MAX; // An invalid timestamp
    assert_eq!(convert_unix_to_iso(invalid_unix_timestamp), String::new());
}

#[test]
fn convert_unix_to_iso_at_the_epoch() {
    assert_eq!(convert_unix_to_iso(0), "1970-01-01T00:00:00Z");
}

#[test]
fn convert_unix_to_iso_at_the_last_second() {
    assert_eq!(convert_unix_to_iso(MAX_TIMESTAMP), "9999-12-31T23:59:59Z");
}

#[test]
fn convert_unix_to_iso_past_the_last_second() {
    assert_eq!(convert_unix_to_iso(MAX_TIMESTAMP + 1), "");
    assert_eq!(convert_unix_to_iso(1u64 << 63), "");
}

#[test]
fn convert_unix_to_iso_has_whole_seconds() {
    let text = convert_unix_to_iso(1609459200);
    assert_eq!(text, "2021-01-01T00:00:00Z");
    assert_eq!(text.len(), 20);
    assert!(!text.contains('.'));
}

#[test]
fn iso_or_empty_keeps_the_text() {
    assert_eq!(iso_or_empty(Some(String::from("2021-12-01T00:00:00Z"))), "2021-12-01T00:00:00Z");
    assert_eq!(iso_or_empty(None), "");
}

#[test]
fn normalize_converts_the_units() {
    let node = NodeConnectivityRanking {
        publicKey: "03c".to_string(),
        alias: "Alice".to_string(),
        channels: 42,
        capacity: 500000000,
        firstSeen: 1609459200,
        updatedAt: 1700000000,
    };
    let capacity = (node.capacity as f64 / 100_000_000.0).to_string();
    assert_eq!(capacity, "5");
    assert_eq!(
        normalize(node, capacity),
        NewNodeDTO {
            channels: 42,
            public_key: "03c".to_string(),
            alias: "Alice".to_string(),
            capacity_in_btc: "5".to_string(),
            first_seen_iso: "2021-01-01T00:00:00Z".to_string(),
            updated_at: 1700000000,
        }
    );
}

#[test]
fn normalize_keeps_an_entry_with_a_time_out_of_range() {
    let node = NodeConnectivityRanking {
        publicKey: "02b".to_string(),
        alias: String::new(),
        channels: u32::MAX,
        capacity: 1,
        firstSeen: u64::MAX,
        updatedAt: 0,
    };
    let record = normalize(node, "0.00000001".to_string());
    assert_eq!(record.first_seen_iso, "");
    assert_eq!(record.channels, 4294967295);
    assert_eq!(record.alias, "");
    assert_eq!(record.capacity_in_btc, "0.00000001");
    assert_eq!(record.updated_at, 0);
}
