use rtt_harness::wire::decode_sequence_id;
use rtt_harness::wire::encode_probe;

#[test]
fn encode_writes_the_record_byte_for_byte() {
    assert_eq!(encode_probe(0, 0), b"{\"tick\":0,\"timestamp\":0}".to_vec());
    assert_eq!(encode_probe(42, 350_000), b"{\"tick\":42,\"timestamp\":350000}".to_vec());
    assert_eq!(encode_probe(10, 9), b"{\"tick\":10,\"timestamp\":9}".to_vec());
    assert_eq!(
        encode_probe(u64::MAX, u64::MAX),
        b"{\"tick\":18446744073709551615,\"timestamp\":18446744073709551615}".to_vec()
    );
}

#[test]
fn encode_matches_std_formatting() {
    for (id, stamp) in [(1u64, 2u64), (99, 100), (1_000_000, 999_999), (7, 18_000_000_000)] {
        let expected = format!("{{\"tick\":{},\"timestamp\":{}}}", id, stamp);
        assert_eq!(encode_probe(id, stamp), expected.into_bytes());
    }
}

#[test]
fn decode_reads_back_what_encode_wrote() {
    for id in [0u64, 1, 9, 10, 4_294_967_296, u64::MAX - 1, u64::MAX] {
        let payload = encode_probe(id, 123_456);
        assert_eq!(decode_sequence_id(&payload), Some(id));
    }
}

#[test]
fn decode_finds_tick_in_any_json_object() {
    assert_eq!(decode_sequence_id(b"{\"tick\":7}"), Some(7));
    assert_eq!(decode_sequence_id(b"{ \"x\": [1, 2], \"tick\": 8, \"y\": null }"), Some(8));
    assert_eq!(decode_sequence_id(b"\n{\"timestamp\":5,\"tick\":9}\n"), Some(9));
}

#[test]
fn decode_rejects_what_is_not_a_record() {
    assert_eq!(decode_sequence_id(b""), None);
    assert_eq!(decode_sequence_id(b"tick"), None);
    assert_eq!(decode_sequence_id(b"7"), None);
    assert_eq!(decode_sequence_id(b"[7]"), None);
    assert_eq!(decode_sequence_id(b"{\"tick\":7"), None);
    assert_eq!(decode_sequence_id(b"{\"tick\":7} trailing"), None);
    assert_eq!(decode_sequence_id(b"{\"tock\":7}"), None);
    assert_eq!(decode_sequence_id(b"Hello from client, message 3"), None);
    assert_eq!(decode_sequence_id(&[0x7b, 0xff, 0x7d]), None);
}

#[test]
fn decode_rejects_tick_that_is_no_unsigned_integer() {
    assert_eq!(decode_sequence_id(b"{\"tick\":-1}"), None);
    assert_eq!(decode_sequence_id(b"{\"tick\":1.5}"), None);
    assert_eq!(decode_sequence_id(b"{\"tick\":\"1\"}"), None);
    assert_eq!(decode_sequence_id(b"{\"tick\":null}"), None);
    assert_eq!(decode_sequence_id(b"{\"tick\":true}"), None);
    assert_eq!(decode_sequence_id(b"{\"tick\":18446744073709551616}"), None);
}

#[test]
fn encode_agrees_with_serde_json() {
    for (id, stamp) in [(0u64, 0u64), (5, 41_665), (u64::MAX, 1)] {
        let mut record = serde_json::Map::new();
        record.insert("tick".to_string(), serde_json::Value::from(id));
        record.insert("timestamp".to_string(), serde_json::Value::from(stamp));
        let written = serde_json::Value::Object(record).to_string();
        assert_eq!(encode_probe(id, stamp), written.into_bytes());
    }
}

#[test]
fn decode_reads_the_last_of_repeated_members() {
    assert_eq!(decode_sequence_id(b"{\"tick\":1,\"tick\":2}"), Some(2));
}
