use spark_dashboard::db::{parse_timestamp_text, prune_cutoff, timestamp_text, window_start, PruneSummary, SECS_PER_DAY};
use spark_dashboard::lock::{lock_file_name, LockDenied};

#[test]
fn timestamps_round_trip() {
    for t in [0i64, 1, -1, 1_700_000_000, i64::MAX, i64::MIN] {
        let s = timestamp_text(t);
        assert_eq!(s, t.to_string());
        assert_eq!(parse_timestamp_text(&s), t);
    }
    assert_eq!(parse_timestamp_text("junk"), 0);
    assert_eq!(parse_timestamp_text("+12"), 12);
}

#[test]
fn prune_and_window_bounds() {
    assert_eq!(prune_cutoff(1_000_000, 7), 1_000_000 - 7 * 86_400);
    assert_eq!(SECS_PER_DAY, 86_400);
    assert_eq!(window_start(1_000, 5), 700);
    let s = PruneSummary { memory: 1, thermal: 2, compute: 3, power: u64::MAX };
    assert_eq!(s.total(), 6 + u64::MAX as u128);
}

#[test]
fn lock_texts() {
    assert_eq!(lock_file_name("spark-collect"), ".spark-collect.lock");
    let d = LockDenied { path: "/db/.spark-collect.lock".to_string(), name: "spark-collect".to_string() };
    let text = d.describe();
    assert!(text.starts_with("another 'spark-collect' is already running against this database (lock: /db/.spark-collect.lock). "));
    assert!(text.ends_with("whichever holds the 'spark-collect' lock) and try again."));
}

#[test]
fn ten_digit_timestamps_sort_as_numbers() {
    let a = timestamp_text(1_700_000_000);
    let b = timestamp_text(1_700_000_001);
    let c = timestamp_text(9_999_999_999);
    assert!(a < b && b < c);
    // Outside one digit length the text order differs from the numeric one.
    assert!(timestamp_text(999_999_999) > timestamp_text(1_000_000_000));
}
