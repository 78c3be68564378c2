use user_stats::{Address, BoundedEventLog, KeyedLog, StatEntry, Timestamp, CAPACITY, WINDOW_SECS};

fn secs(n: u64) -> Timestamp {
    Timestamp::from_u64(n)
}

fn entry(payload: &str, stamp: u64) -> StatEntry {
    StatEntry { stats_json: payload.to_string(), timestamp: secs(stamp) }
}

#[test]
fn capacity_and_window_are_fixed() {
    assert_eq!(CAPACITY, 50);
    assert_eq!(WINDOW_SECS, 120);
}

#[test]
fn new_log_is_empty() {
    let key = Address::new([9u8; 20]);
    let log = KeyedLog::new(key);
    assert_eq!(log.len(), 0);
    assert!(log.entries().is_empty());
    assert_eq!(log.key(), key);
    assert!(log.query_recent(secs(0)).is_empty());
}

#[test]
fn growing_log_adds_at_the_end() {
    let mut log = KeyedLog::new(Address::default());
    log.append("first".to_string(), secs(1));
    log.append("second".to_string(), secs(2));
    log.append("third".to_string(), secs(2));
    assert_eq!(log.len(), 3);
    assert_eq!(
        log.entries(),
        &vec![entry("first", 1), entry("second", 2), entry("third", 2)]
    );
}

#[test]
fn log_fills_up_to_capacity_and_stays_full() {
    let mut log = KeyedLog::new(Address::default());
    for i in 0..50u64 {
        assert_eq!(log.len(), i as usize);
        log.append(format!("{}", i), secs(i));
    }
    assert_eq!(log.len(), 50);
    assert_eq!(log.entries()[0], entry("0", 0));
    for i in 50..200u64 {
        log.append(format!("{}", i), secs(i));
        assert_eq!(log.len(), 50);
        assert_eq!(log.entries()[0], entry(&format!("{}", i - 49), i - 49));
        assert_eq!(log.entries()[49], entry(&format!("{}", i), i));
    }
}

#[test]
fn full_log_drops_only_the_oldest() {
    let mut log = KeyedLog::new(Address::default());
    for i in 0..50u64 {
        log.append(format!("old{}", i), secs(i));
    }
    let before: Vec<StatEntry> = log.entries().clone();
    log.append("new".to_string(), secs(77));
    let after = log.entries();
    assert_eq!(after.len(), 50);
    assert_eq!(&after[..49], &before[1..]);
    assert_eq!(after[49], entry("new", 77));
}

#[test]
fn duplicates_are_kept() {
    let mut log = KeyedLog::new(Address::default());
    log.append("same".to_string(), secs(5));
    log.append("same".to_string(), secs(5));
    assert_eq!(log.entries(), &vec![entry("same", 5), entry("same", 5)]);
    assert_eq!(
        log.query_recent(secs(5)),
        vec![("same".to_string(), secs(5)), ("same".to_string(), secs(5))]
    );
}

#[test]
fn query_keeps_stored_order_and_does_not_sort() {
    let mut log = KeyedLog::new(Address::default());
    log.append("late".to_string(), secs(900));
    log.append("early".to_string(), secs(100));
    log.append("middle".to_string(), secs(890));
    log.append("edge".to_string(), secs(880));
    log.append("old".to_string(), secs(879));
    assert_eq!(
        log.query_recent(secs(1000)),
        vec![
            ("late".to_string(), secs(900)),
            ("middle".to_string(), secs(890)),
            ("edge".to_string(), secs(880)),
        ]
    );
    assert_eq!(log.len(), 5);
}

#[test]
fn query_of_old_log_is_empty() {
    let mut log = KeyedLog::new(Address::default());
    log.append("a".to_string(), secs(10));
    log.append("b".to_string(), secs(20));
    assert!(log.query_recent(secs(141)).is_empty());
    assert_eq!(log.query_recent(secs(140)), vec![("b".to_string(), secs(20))]);
}

#[test]
fn table_starts_without_logs() {
    let table = BoundedEventLog::new();
    assert!(table.log(Address::default()).is_none());
    assert!(table.query_recent(Address::default(), secs(1)).is_empty());
}

#[test]
fn table_append_returns_the_timestamp() {
    let mut table = BoundedEventLog::new();
    let key = Address::new([4u8; 20]);
    assert_eq!(table.append(key, "x".to_string(), secs(42)), secs(42));
    let big = Timestamp { limbs: [1, 2, 3, 4] };
    assert_eq!(table.append(key, "y".to_string(), big), big);
}

#[test]
fn table_creates_a_log_on_first_append() {
    let mut table = BoundedEventLog::new();
    let key = Address::new([4u8; 20]);
    let other = Address::new([5u8; 20]);
    table.append(key, "x".to_string(), secs(42));
    let log = table.log(key).unwrap();
    assert_eq!(log.key(), key);
    assert_eq!(log.entries(), &vec![entry("x", 42)]);
    assert!(table.log(other).is_none());
    table.append(other, "y".to_string(), secs(43));
    table.append(key, "z".to_string(), secs(44));
    assert_eq!(table.log(key).unwrap().entries(), &vec![entry("x", 42), entry("z", 44)]);
    assert_eq!(table.log(other).unwrap().entries(), &vec![entry("y", 43)]);
}

#[test]
fn table_evicts_per_key() {
    let mut table = BoundedEventLog::new();
    let busy = Address::new([1u8; 20]);
    let quiet = Address::new([2u8; 20]);
    table.append(quiet, "q".to_string(), secs(1));
    for i in 0..75u64 {
        table.append(busy, format!("b{}", i), secs(i));
    }
    assert_eq!(table.log(busy).unwrap().len(), 50);
    assert_eq!(table.log(busy).unwrap().entries()[0], entry("b25", 25));
    assert_eq!(table.log(quiet).unwrap().entries(), &vec![entry("q", 1)]);
    assert_eq!(
        table.query_recent(quiet, secs(121)),
        vec![("q".to_string(), secs(1))]
    );
    assert!(table.query_recent(quiet, secs(122)).is_empty());
}

#[test]
fn keys_differ_by_any_byte() {
    let mut table = BoundedEventLog::new();
    let mut bytes = [0u8; 20];
    for place in 0..20 {
        bytes[place] = 1;
        table.append(Address::new(bytes), format!("k{}", place), secs(place as u64));
        bytes[place] = 0;
    }
    for place in 0..20 {
        bytes[place] = 1;
        let log = table.log(Address::new(bytes)).unwrap();
        assert_eq!(log.entries(), &vec![entry(&format!("k{}", place), place as u64)]);
        bytes[place] = 0;
    }
    assert!(table.log(Address::new(bytes)).is_none());
}

#[test]
fn window_is_measured_across_limbs() {
    let mut log = KeyedLog::new(Address::default());
    let too_old = Timestamp { limbs: [u64::MAX - 115, 0, 0, 0] };
    let edge = Timestamp { limbs: [u64::MAX - 114, 0, 0, 0] };
    let carried = Timestamp { limbs: [0, 1, 0, 0] };
    let later = Timestamp { limbs: [0, 0, 1, 0] };
    log.append("too old".to_string(), too_old);
    log.append("edge".to_string(), edge);
    log.append("carried".to_string(), carried);
    log.append("later".to_string(), later);
    let now = Timestamp { limbs: [5, 1, 0, 0] };
    assert_eq!(
        log.query_recent(now),
        vec![
            ("edge".to_string(), edge),
            ("carried".to_string(), carried),
            ("later".to_string(), later),
        ]
    );
}

#[test]
fn timestamps_compare_as_numbers_not_limb_by_limb() {
    let mut log = KeyedLog::new(Address::default());
    let low_limb_large = Timestamp { limbs: [u64::MAX, u64::MAX, u64::MAX, 0] };
    let high_limb_one = Timestamp { limbs: [0, 0, 0, 1] };
    log.append("below".to_string(), low_limb_large);
    log.append("above".to_string(), high_limb_one);
    let now = Timestamp { limbs: [120, 0, 0, 1] };
    assert_eq!(log.query_recent(now), vec![("above".to_string(), high_limb_one)]);
    let now = Timestamp { limbs: [119, 0, 0, 1] };
    assert_eq!(
        log.query_recent(now),
        vec![
            ("below".to_string(), low_limb_large),
            ("above".to_string(), high_limb_one),
        ]
    );
}
