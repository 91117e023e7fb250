use host_metrics::store::{Store, MAX_SNAPSHOTS};

fn bytes(text: &str) -> Vec<u8> {
    text.as_bytes().to_vec()
}

#[test]
fn empty_store_answers_with_empty_array() {
    let store = Store::new();
    assert_eq!(store.query_since(0), bytes("[]"));
    assert_eq!(store.query_since(12345), bytes("[]"));
    assert_eq!(store.query_since(u64::MAX), bytes("[]"));
    assert!(store.is_empty());
    assert_eq!(store.len(), 0);
    assert_eq!(store.latest_timestamp(), None);
}

#[test]
fn default_limit_is_a_day_of_minutes() {
    assert_eq!(MAX_SNAPSHOTS, 1440);
    assert_eq!(Store::new().capacity(), 1440);
}

#[test]
fn stale_sample_is_dropped() {
    let mut store = Store::new();
    assert_eq!(store.query_since(0), bytes("[]"));
    store.append(100, bytes("A"));
    store.append(200, bytes("B"));
    store.append(150, bytes("C"));
    assert_eq!(store.len(), 2);
    assert_eq!(store.latest_timestamp(), Some(200));
    assert_eq!(store.query_since(100), bytes("[B]"));
    assert_eq!(store.query_since(0), bytes("[A,B]"));
}

#[test]
fn oldest_sample_leaves_a_full_store() {
    let mut store = Store::with_capacity(2);
    store.append(1, bytes("a"));
    store.append(2, bytes("b"));
    store.append(3, bytes("c"));
    assert_eq!(store.len(), 2);
    assert_eq!(store.capacity(), 2);
    assert_eq!(store.query_since(0), bytes("[b,c]"));
    assert_eq!(store.query_since(1), bytes("[b,c]"));
    assert_eq!(store.query_since(2), bytes("[c]"));
    assert_eq!(store.query_since(3), bytes("[]"));
}

#[test]
fn samples_come_back_in_the_order_of_appending() {
    let mut store = Store::new();
    let stamps: [u64; 6] = [3, 10, 11, 500, 501, 90_000];
    for t in stamps {
        store.append(t, bytes(&format!("{{\"time\":{}}}", t)));
    }
    assert_eq!(store.len(), 6);
    assert_eq!(
        store.query_since(0),
        bytes("[{\"time\":3},{\"time\":10},{\"time\":11},{\"time\":500},{\"time\":501},{\"time\":90000}]")
    );
}

#[test]
fn equal_timestamp_is_dropped() {
    let mut store = Store::new();
    store.append(7, bytes("first"));
    store.append(7, bytes("second"));
    assert_eq!(store.len(), 1);
    assert_eq!(store.query_since(0), bytes("[first]"));
    store.append(6, bytes("third"));
    assert_eq!(store.len(), 1);
    assert_eq!(store.latest_timestamp(), Some(7));
    assert_eq!(store.query_since(0), bytes("[first]"));
}

#[test]
fn store_never_exceeds_its_limit() {
    let mut store = Store::with_capacity(5);
    for t in 1..=40u64 {
        store.append(t, bytes(&t.to_string()));
        assert!(store.len() <= store.capacity());
        assert_eq!(store.len() as u64, t.min(5));
        assert_eq!(store.latest_timestamp(), Some(t));
    }
    assert_eq!(store.query_since(0), bytes("[36,37,38,39,40]"));
}

#[test]
fn every_threshold_selects_exactly_the_newer_samples() {
    let mut store = Store::with_capacity(3);
    for t in 1..=10u64 {
        store.append(t * 10, bytes(&(t * 10).to_string()));
        let oldest = if t > 3 { t - 2 } else { 1 };
        let kept: Vec<u64> = (oldest..=t).map(|k| k * 10).collect();
        for threshold in 0..=(t * 10 + 5) {
            let expected: Vec<String> = kept
                .iter()
                .filter(|&&stamp| stamp > threshold)
                .map(|stamp| stamp.to_string())
                .collect();
            let expected = format!("[{}]", expected.join(","));
            assert_eq!(store.query_since(threshold), bytes(&expected));
        }
    }
}

#[test]
fn threshold_at_or_past_the_latest_selects_nothing() {
    let mut store = Store::new();
    store.append(5, bytes("x"));
    store.append(9, bytes("y"));
    assert_eq!(store.query_since(9), bytes("[]"));
    assert_eq!(store.query_since(10), bytes("[]"));
    assert_eq!(store.query_since(u64::MAX - 1), bytes("[]"));
    assert_eq!(store.query_since(u64::MAX), bytes("[]"));
    assert_eq!(store.query_since(8), bytes("[y]"));
}

#[test]
fn largest_timestamp_is_kept_and_found() {
    let mut store = Store::new();
    store.append(u64::MAX, bytes("last"));
    assert_eq!(store.query_since(u64::MAX - 1), bytes("[last]"));
    assert_eq!(store.query_since(u64::MAX), bytes("[]"));
    store.append(u64::MAX, bytes("again"));
    assert_eq!(store.len(), 1);
}

#[test]
fn repeated_queries_give_the_same_bytes() {
    let mut store = Store::with_capacity(4);
    for t in 1..=9u64 {
        store.append(t, bytes(&format!("s{}", t)));
    }
    let first = store.query_since(6);
    let second = store.query_since(6);
    let third = store.query_since(6);
    assert_eq!(first, bytes("[s7,s8,s9]"));
    assert_eq!(first, second);
    assert_eq!(second, third);
    assert_eq!(store.len(), 4);
}

#[test]
fn sample_at_time_zero_is_kept_but_never_newer_than_zero() {
    let mut store = Store::new();
    store.append(0, bytes("origin"));
    assert_eq!(store.len(), 1);
    assert_eq!(store.latest_timestamp(), Some(0));
    assert_eq!(store.query_since(0), bytes("[]"));
    store.append(1, bytes("next"));
    assert_eq!(store.query_since(0), bytes("[next]"));
}

#[test]
fn empty_payloads_still_get_their_separators() {
    let mut store = Store::new();
    store.append(1, Vec::new());
    store.append(2, Vec::new());
    store.append(3, bytes("z"));
    assert_eq!(store.query_since(0), bytes("[,,z]"));
    assert_eq!(store.query_since(1), bytes("[,z]"));
    assert_eq!(store.query_since(2), bytes("[z]"));
}

#[test]
fn payload_bytes_are_served_as_they_are() {
    let mut store = Store::new();
    let raw: Vec<u8> = vec![0x00, 0xff, b',', b']', b'[', 0x80];
    store.append(1, raw.clone());
    let mut expected = vec![b'['];
    expected.extend_from_slice(&raw);
    expected.push(b']');
    assert_eq!(store.query_since(0), expected);
}

#[test]
fn store_limited_to_zero_retains_nothing() {
    let mut store = Store::with_capacity(0);
    store.append(1, bytes("a"));
    store.append(2, bytes("b"));
    assert_eq!(store.len(), 0);
    assert_eq!(store.capacity(), 0);
    assert_eq!(store.latest_timestamp(), None);
    assert_eq!(store.query_since(0), bytes("[]"));
}

#[test]
fn store_limited_to_one_keeps_the_latest() {
    let mut store = Store::with_capacity(1);
    store.append(4, bytes("a"));
    store.append(8, bytes("b"));
    store.append(6, bytes("c"));
    assert_eq!(store.len(), 1);
    assert_eq!(store.query_since(0), bytes("[b]"));
}

#[test]
fn queries_stay_right_after_the_buffer_wraps() {
    let mut store = Store::with_capacity(7);
    for t in 1..=100u64 {
        store.append(t, bytes(&t.to_string()));
        let oldest = if t > 7 { t - 6 } else { 1 };
        for threshold in (oldest.saturating_sub(2))..=(t + 1) {
            let expected: Vec<String> = (oldest..=t)
                .filter(|stamp| *stamp > threshold)
                .map(|stamp| stamp.to_string())
                .collect();
            assert_eq!(
                store.query_since(threshold),
                bytes(&format!("[{}]", expected.join(",")))
            );
        }
    }
}
