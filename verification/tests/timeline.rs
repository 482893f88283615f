use expiring_queue::ExpiringQueue;
use std::time::Duration;

const MS: u128 = 1_000_000;
const SEC: u128 = 1_000_000_000;

#[test]
fn five_second_entry_on_a_timeline() {
    let mut queue: ExpiringQueue<&str> = ExpiringQueue::new(Duration::from_secs(5));
    assert_eq!(queue.push_at(0, "A"), 1);
    assert_eq!(queue.len_at(SEC), 1);
    assert_eq!(queue.peek_at(SEC), Some(&"A"));
    assert_eq!(queue.len_at(6 * SEC), 0);
    assert!(queue.is_empty_at(6 * SEC));
    assert_eq!(queue.pop_at(6 * SEC), None);
}

#[test]
fn two_entries_drain_oldest_first() {
    let mut queue: ExpiringQueue<&str> = ExpiringQueue::new(Duration::from_millis(100));
    assert_eq!(queue.push_at(0, "A"), 1);
    assert_eq!(queue.push_at(50 * MS, "B"), 2);
    assert_eq!(queue.peek_at(60 * MS), Some(&"A"));
    assert_eq!(queue.pop_at(60 * MS), Some("A"));
    assert_eq!(queue.pop_at(60 * MS), Some("B"));
    assert_eq!(queue.pop_at(60 * MS), None);
}

#[test]
fn age_equal_to_max_age_is_still_live() {
    let mut queue: ExpiringQueue<u8> = ExpiringQueue::new(Duration::from_secs(5));
    queue.push_at(7, 1);
    assert_eq!(queue.len_at(7 + 5 * SEC), 1);
    assert_eq!(queue.peek_at(7 + 5 * SEC), Some(&1));
    assert_eq!(queue.len_at(7 + 5 * SEC + 1), 0);
    assert_eq!(queue.peek_at(7 + 5 * SEC + 1), None);
}

#[test]
fn max_age_counts_seconds_and_nanoseconds() {
    let mut queue: ExpiringQueue<u8> = ExpiringQueue::new(Duration::new(2, 500));
    queue.push_at(0, 1);
    assert_eq!(queue.len_at(2_000_000_500), 1);
    assert_eq!(queue.len_at(2_000_000_501), 0);
    let mut queue: ExpiringQueue<u8> = ExpiringQueue::new(Duration::from_nanos(3));
    queue.push_at(10, 1);
    assert!(!queue.is_empty_at(13));
    assert!(queue.is_empty_at(14));
}

#[test]
fn zero_max_age_keeps_entry_only_at_its_own_instant() {
    let mut queue: ExpiringQueue<u8> = ExpiringQueue::new(Duration::ZERO);
    assert_eq!(queue.push_at(10, 1), 1);
    assert_eq!(queue.len_at(10), 1);
    assert_eq!(queue.peek_at(10), Some(&1));
    assert_eq!(queue.len_at(11), 0);
    assert_eq!(queue.pop_at(11), None);
}

#[test]
fn reading_before_insertion_counts_as_no_age() {
    let mut queue: ExpiringQueue<u8> = ExpiringQueue::new(Duration::from_nanos(5));
    queue.push_at(100, 1);
    assert_eq!(queue.len_at(50), 1);
    assert_eq!(queue.len_at(0), 1);
    assert_eq!(queue.len_at(105), 1);
    assert_eq!(queue.len_at(106), 0);
}

#[test]
fn push_at_discards_before_it_counts() {
    let mut queue: ExpiringQueue<u8> = ExpiringQueue::new(Duration::from_secs(5));
    assert_eq!(queue.push_at(0, 1), 1);
    assert_eq!(queue.push_at(SEC, 2), 2);
    assert_eq!(queue.push_at(5 * SEC + 1, 3), 2);
    assert_eq!(queue.push_at(10 * SEC, 4), 2);
    assert_eq!(queue.push_at(20 * SEC, 5), 1);
    assert_eq!(queue.pop_at(20 * SEC), Some(5));
    assert_eq!(queue.pop_at(20 * SEC), None);
}

#[test]
fn peek_is_oldest_live_whatever_the_insertion_order() {
    let mut queue: ExpiringQueue<u32> = ExpiringQueue::new(Duration::from_nanos(100));
    queue.push_at(50, 50);
    assert_eq!(queue.peek_at(50), Some(&50));
    queue.push_at(30, 30);
    assert_eq!(queue.peek_at(50), Some(&30));
    queue.push_at(40, 40);
    assert_eq!(queue.peek_at(50), Some(&30));
    queue.push_at(10, 10);
    assert_eq!(queue.peek_at(50), Some(&10));
    queue.push_at(20, 20);
    assert_eq!(queue.peek_at(110), Some(&10));
    assert_eq!(queue.peek_at(111), Some(&20));
    assert_eq!(queue.pop_at(111), Some(20));
    assert_eq!(queue.peek_at(131), Some(&40));
    assert_eq!(queue.len_at(131), 2);
    assert_eq!(queue.peek_at(150), Some(&50));
    assert_eq!(queue.peek_at(151), None);
}

#[test]
fn pops_come_in_insertion_time_order() {
    let mut queue: ExpiringQueue<u128> = ExpiringQueue::new(Duration::from_secs(1));
    let mut state: u128 = 12345;
    let mut times: Vec<u128> = Vec::new();
    for _ in 0..500 {
        state = (state * 6364136223846793005 + 1442695040888963407) % (1u128 << 64);
        let time = state % 1000;
        times.push(time);
        queue.push_at(time, time);
    }
    times.sort();
    assert_eq!(queue.len_at(1000), 500);
    let mut drained: Vec<u128> = Vec::new();
    while let Some(value) = queue.pop_at(1000) {
        drained.push(value);
    }
    assert_eq!(drained, times);
    assert_eq!(queue.len_at(1000), 0);
}

#[test]
fn expired_entry_is_neither_counted_nor_served() {
    let mut queue: ExpiringQueue<&str> = ExpiringQueue::new(Duration::from_nanos(10));
    queue.push_at(0, "old");
    queue.push_at(5, "mid");
    queue.push_at(9, "new");
    assert_eq!(queue.len_at(10), 3);
    assert_eq!(queue.len_at(11), 2);
    assert_eq!(queue.peek_at(11), Some(&"mid"));
    assert_eq!(queue.pop_at(16), Some("new"));
    assert_eq!(queue.len_at(16), 0);
    assert_eq!(queue.pop_at(16), None);
}

#[test]
fn repeated_access_without_expiry_changes_nothing() {
    let mut queue: ExpiringQueue<u8> = ExpiringQueue::new(Duration::from_nanos(10));
    queue.push_at(0, 1);
    queue.push_at(4, 2);
    assert_eq!(queue.len_at(5), 2);
    assert_eq!(queue.len_at(5), 2);
    assert!(!queue.is_empty_at(5));
    assert!(!queue.is_empty_at(5));
    assert_eq!(queue.len_at(10), 2);
    assert_eq!(queue.len_at(20), 0);
    assert_eq!(queue.len_at(20), 0);
    assert!(queue.is_empty_at(20));
    assert!(queue.is_empty_at(20));
}

#[test]
fn clear_oldest_discards_exactly_the_expired() {
    let mut queue: ExpiringQueue<u8> = ExpiringQueue::new(Duration::from_nanos(10));
    for time in 0..20u8 {
        queue.push_at(time as u128, time);
    }
    queue.clear_oldest(19);
    assert_eq!(queue.len_at(19), 11);
    queue.clear_oldest(25);
    assert_eq!(queue.peek_at(25), Some(&15));
    assert_eq!(queue.len_at(25), 5);
    queue.clear_oldest(1000);
    assert_eq!(queue.len_at(25), 0);
}

#[test]
fn clear_empties_and_capacity_covers_length() {
    let mut queue: ExpiringQueue<u32> = ExpiringQueue::with_capacity(Duration::from_secs(1), 10);
    assert!(queue.capacity() >= 10);
    for i in 0..100u32 {
        queue.push_at(i as u128, i);
    }
    assert!(queue.capacity() >= 100);
    queue.clear();
    assert_eq!(queue.len_at(0), 0);
    assert_eq!(queue.pop_at(0), None);
    assert_eq!(queue.max_age(), Duration::from_secs(1));
}

#[test]
fn large_readings_do_not_overflow() {
    let longest: u128 = Duration::MAX.as_nanos();
    let mut queue: ExpiringQueue<u8> = ExpiringQueue::new(Duration::MAX);
    queue.push_at(0, 1);
    assert_eq!(queue.push_at(longest, 2), 2);
    assert_eq!(queue.push_at(u128::MAX, 3), 1);
    assert_eq!(queue.pop_at(u128::MAX), Some(3));
    let mut queue: ExpiringQueue<u8> = ExpiringQueue::new(Duration::from_nanos(1));
    queue.push_at(0, 1);
    queue.push_at(u128::MAX - 1, 2);
    assert_eq!(queue.len_at(u128::MAX), 1);
    assert_eq!(queue.pop_at(u128::MAX), Some(2));
}

#[test]
fn earlier_access_does_not_change_what_a_later_one_leaves() {
    let mut direct: ExpiringQueue<u8> = ExpiringQueue::new(Duration::from_nanos(10));
    let mut stepped: ExpiringQueue<u8> = ExpiringQueue::new(Duration::from_nanos(10));
    for time in [0u8, 2, 4, 6, 8] {
        direct.clear_oldest(0);
        direct.push_at(time as u128, time);
        stepped.clear_oldest(0);
        stepped.push_at(time as u128, time);
    }
    assert_eq!(stepped.len_at(11), 4);
    assert_eq!(stepped.len_at(13), 3);
    assert_eq!(stepped.len_at(15), 2);
    assert_eq!(direct.len_at(15), 2);
    assert_eq!(stepped.pop_at(15), Some(6));
    assert_eq!(direct.pop_at(15), Some(6));
    assert_eq!(stepped.pop_at(15), Some(8));
    assert_eq!(direct.pop_at(15), Some(8));
    assert_eq!(stepped.pop_at(15), None);
    assert_eq!(direct.pop_at(15), None);
}
