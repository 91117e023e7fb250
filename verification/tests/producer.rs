use host_metrics::producer::{Action, Cycle, Producer, REPORTED_FAILURES, UPDATE_INTERVAL_SECS};
use host_metrics::store::Store;

fn failed(producer: &mut Producer) -> Action {
    producer.step(Cycle::Failed)
}

fn sampled(producer: &mut Producer, timestamp: u64, text: &str) -> Action {
    producer.step(Cycle::Sampled { timestamp, payload: text.as_bytes().to_vec() })
}

#[test]
fn worker_settings() {
    assert_eq!(UPDATE_INTERVAL_SECS, 60);
    assert_eq!(REPORTED_FAILURES, 3);
    assert_eq!(Producer::new().consecutive_failures(), 0);
}

#[test]
fn sample_is_offered_to_the_store() {
    let mut producer = Producer::new();
    match sampled(&mut producer, 17, "{}") {
        Action::Append { timestamp, payload } => {
            assert_eq!(timestamp, 17);
            assert_eq!(payload, b"{}".to_vec());
        }
        _ => panic!("a sample must be appended"),
    }
    assert_eq!(producer.consecutive_failures(), 0);
}

#[test]
fn third_failure_in_a_row_is_reported() {
    let mut producer = Producer::new();
    assert!(matches!(failed(&mut producer), Action::Skip));
    assert_eq!(producer.consecutive_failures(), 1);
    assert!(matches!(failed(&mut producer), Action::Skip));
    assert_eq!(producer.consecutive_failures(), 2);
    assert!(matches!(failed(&mut producer), Action::Report));
    assert_eq!(producer.consecutive_failures(), 3);
    assert!(matches!(failed(&mut producer), Action::Skip));
    assert_eq!(producer.consecutive_failures(), 4);
    assert!(matches!(failed(&mut producer), Action::Skip));
    assert!(matches!(failed(&mut producer), Action::Skip));
    assert_eq!(producer.consecutive_failures(), 6);
}

#[test]
fn sample_ends_a_run_of_failures() {
    let mut producer = Producer::new();
    assert!(matches!(failed(&mut producer), Action::Skip));
    assert!(matches!(failed(&mut producer), Action::Skip));
    assert!(matches!(sampled(&mut producer, 1, "a"), Action::Append { .. }));
    assert_eq!(producer.consecutive_failures(), 0);
    assert!(matches!(failed(&mut producer), Action::Skip));
    assert!(matches!(failed(&mut producer), Action::Skip));
    assert!(matches!(failed(&mut producer), Action::Report));
    assert!(matches!(sampled(&mut producer, 2, "b"), Action::Append { .. }));
    assert_eq!(producer.consecutive_failures(), 0);
}

#[test]
fn worker_feeds_the_store_cycle_by_cycle() {
    let mut producer = Producer::new();
    let mut store = Store::with_capacity(3);
    let mut reports = 0;
    let cycles: Vec<Option<(u64, &str)>> = vec![
        Some((10, "a")),
        None,
        Some((20, "b")),
        Some((15, "late")),
        None,
        None,
        None,
        None,
        Some((30, "c")),
        Some((40, "d")),
    ];
    for cycle in cycles {
        let cycle = match cycle {
            Some((timestamp, text)) => Cycle::Sampled { timestamp, payload: text.as_bytes().to_vec() },
            None => Cycle::Failed,
        };
        match producer.step(cycle) {
            Action::Append { timestamp, payload } => store.append(timestamp, payload),
            Action::Skip => {}
            Action::Report => reports += 1,
        }
    }
    assert_eq!(reports, 1);
    assert_eq!(store.query_since(0), b"[b,c,d]".to_vec());
    assert_eq!(store.query_since(20), b"[c,d]".to_vec());
}
