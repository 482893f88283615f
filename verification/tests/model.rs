use expiring_queue::model::is_expired;
use expiring_queue::QueueStats;

#[test]
fn expiry_is_strictly_beyond_max_age() {
    assert!(!is_expired(10, 0, 10));
    assert!(is_expired(11, 0, 10));
    assert!(!is_expired(0, 0, 0));
    assert!(is_expired(1, 0, 0));
    assert!(!is_expired(5, 9, 0));
    assert!(!is_expired(u128::MAX, 0, u128::MAX));
    assert!(is_expired(u128::MAX, 0, u128::MAX - 1));
}

#[test]
fn stats_hold_their_figures() {
    let stats: QueueStats<u32> = QueueStats { min: Some(1), max: Some(9), sum: Some(15), len: 3 };
    assert_eq!(stats.min, Some(1));
    assert_eq!(stats.max, Some(9));
    assert_eq!(stats.sum, Some(15));
    assert_eq!(stats.len, 3);
    let none: QueueStats<u32> = QueueStats { min: None, max: None, sum: None, len: 0 };
    assert_eq!(none.min, None);
    assert_eq!(none.max, None);
    assert_eq!(none.sum, None);
    assert_eq!(none.len, 0);
}
