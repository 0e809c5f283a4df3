use netprobe::store::{Sample, SampleStore};

#[test]
fn snapshot_of_new_store_is_empty() {
    let store = SampleStore::new();
    assert_eq!(store.snapshot(), Vec::new());
    assert_eq!(store.len(), 0);
}

#[test]
fn appends_keep_order_and_content() {
    let mut store = SampleStore::new();
    let a = Sample { timestamp: 1, ping_ms_bits: f64::to_bits(10.0) };
    let b = Sample { timestamp: 2, ping_ms_bits: f64::to_bits(20.5) };
    let c = Sample { timestamp: 3, ping_ms_bits: f64::to_bits(0.25) };
    store.append(a);
    store.append(b);
    store.append(c);
    let snap = store.snapshot();
    assert_eq!(snap, vec![a, b, c]);
}

#[test]
fn two_appends_never_lose_an_update() {
    let mut store = SampleStore::new();
    store.append(Sample { timestamp: 1, ping_ms_bits: 0 });
    store.append(Sample { timestamp: 1, ping_ms_bits: 0 });
    assert!(store.snapshot().len() >= 2);
    assert_eq!(store.len(), 2);
}

#[test]
fn snapshot_is_a_copy_not_a_view() {
    let mut store = SampleStore::new();
    store.append(Sample { timestamp: 7, ping_ms_bits: 1 });
    let before = store.snapshot();
    store.append(Sample { timestamp: 8, ping_ms_bits: 2 });
    assert_eq!(before.len(), 1);
    assert_eq!(store.snapshot().len(), 2);
}

#[test]
fn submission_round_trip_through_json() {
    // What the measurement endpoint does: parse the body, then append.
    let mut store = SampleStore::new();
    let body = "{\"timestamp\":1000,\"ping_ms\":12.5}";
    let value: serde_json::Value = serde_json::from_str(body).expect("valid body");
    let timestamp = value.get("timestamp").and_then(|v| v.as_u64()).expect("timestamp");
    let ping_ms = value.get("ping_ms").and_then(|v| v.as_f64()).expect("ping_ms");
    store.append(Sample { timestamp, ping_ms_bits: f64::to_bits(ping_ms) });
    let snap = store.snapshot();
    assert_eq!(snap.len(), 1);
    assert_eq!(snap[0].timestamp, 1000);
    assert_eq!(f64::from_bits(snap[0].ping_ms_bits), 12.5);
}

#[test]
fn failed_submission_leaves_the_store_unchanged() {
    let mut store = SampleStore::new();
    store.append(Sample { timestamp: 1, ping_ms_bits: 0 });
    let body = "{\"timestamp\":1000,";
    let parsed: Result<serde_json::Value, serde_json::Error> = serde_json::from_str(body);
    assert!(parsed.is_err());
    // The endpoint answers with a client error and never touches the store.
    let snap = store.snapshot();
    assert_eq!(snap.len(), 1);
    assert_eq!(snap[0].timestamp, 1);
}
