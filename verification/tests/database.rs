use resp_kv::clock::unix_millis;
use resp_kv::database::{is_expired, is_expired_at};
use resp_kv::{Data, Database, ExecutionError};

fn entry(value: &str, expire_time: Option<u128>) -> Data {
    Data {
        value: value.to_owned(),
        expire_time,
    }
}

#[test]
fn new_store_is_empty() {
    let mut db = Database::new();
    assert!(db.get("k").is_none());
    assert!(db.get_at("", Some(0)).is_none());
}

#[test]
fn set_returns_the_entry_it_replaces() {
    let mut db = Database::new();
    assert!(db.set_at("k", &entry("v1", None), Some(1)).is_none());
    let previous = db.set_at("k", &entry("v2", Some(u128::MAX)), Some(2)).unwrap();
    assert_eq!(previous.value, "v1");
    assert_eq!(previous.expire_time, None);
    let previous = db.set("k", &entry("v3", None)).unwrap();
    assert_eq!(previous.value, "v2");
    assert_eq!(previous.expire_time, Some(u128::MAX));
    assert_eq!(db.get("k").unwrap().value, "v3");
}

#[test]
fn set_does_not_return_an_expired_entry() {
    let mut db = Database::new();
    db.set_at("k", &entry("v1", Some(5)), Some(1));
    assert!(db.set_at("k", &entry("v2", None), Some(6)).is_none());
    assert_eq!(db.get_at("k", Some(7)).unwrap().value, "v2");
}

#[test]
fn entry_expires_after_its_instant_not_at_it() {
    let mut db = Database::new();
    db.set_at("k", &entry("v", Some(5)), Some(1));
    assert_eq!(db.get_at("k", Some(4)).unwrap().value, "v");
    assert_eq!(db.get_at("k", Some(5)).unwrap().value, "v");
    assert!(db.get_at("k", Some(6)).is_none());
}

#[test]
fn get_removes_the_expired_entry() {
    let mut db = Database::new();
    db.set_at("k", &entry("v", Some(5)), Some(1));
    assert!(db.get_at("k", Some(6)).is_none());
    assert!(db.get_at("k", Some(1)).is_none());
}

#[test]
fn get_keeps_entries_under_other_keys() {
    let mut db = Database::new();
    db.set_at("a", &entry("1", Some(5)), Some(1));
    db.set_at("b", &entry("2", Some(5)), Some(1));
    assert!(db.get_at("a", Some(6)).is_none());
    assert_eq!(db.get_at("b", Some(1)).unwrap().value, "2");
}

#[test]
fn unreadable_clock_hides_entries_that_expire() {
    let mut db = Database::new();
    db.set_at("forever", &entry("1", None), None);
    db.set_at("for now", &entry("2", Some(u128::MAX)), None);
    assert_eq!(db.get_at("forever", None).unwrap().value, "1");
    assert!(db.get_at("for now", None).is_none());
    assert!(db.get_at("for now", Some(0)).is_none());
}

#[test]
fn entry_that_expired_long_ago_is_gone_by_the_system_clock() {
    let mut db = Database::new();
    db.set("k", &entry("v", Some(1)));
    assert!(db.get("k").is_none());
    assert!(db.get_at("k", Some(0)).is_none());
}

#[test]
fn entry_that_expires_far_ahead_is_seen_by_the_system_clock() {
    let mut db = Database::new();
    db.set("k", &entry("v", Some(u128::MAX)));
    assert_eq!(db.get("k").unwrap().value, "v");
    assert_eq!(db.get("k").unwrap().expire_time, Some(u128::MAX));
}

#[test]
fn keys_are_told_apart_by_their_characters() {
    let mut db = Database::new();
    db.set_at("key", &entry("lower", None), None);
    db.set_at("KEY", &entry("upper", None), None);
    db.set_at("", &entry("empty", None), None);
    assert_eq!(db.get_at("key", None).unwrap().value, "lower");
    assert_eq!(db.get_at("KEY", None).unwrap().value, "upper");
    assert_eq!(db.get_at("", None).unwrap().value, "empty");
    assert!(db.get_at("Key", None).is_none());
}

#[test]
fn is_expired_at_compares_with_the_given_instant() {
    assert_eq!(is_expired_at(5, Some(4)), Ok(false));
    assert_eq!(is_expired_at(5, Some(5)), Ok(false));
    assert_eq!(is_expired_at(5, Some(6)), Ok(true));
    assert_eq!(is_expired_at(5, None), Err(ExecutionError::ClockBeforeEpoch));
}

#[test]
fn is_expired_compares_with_the_system_clock() {
    assert_eq!(is_expired(0), Ok(true));
    assert_eq!(is_expired(u128::MAX), Ok(false));
}

#[test]
fn system_clock_reads_milliseconds_since_the_epoch() {
    let first = unix_millis().unwrap();
    // 2020-01-01 and 2200-01-01 in milliseconds since the epoch.
    assert!(first > 1_577_836_800_000);
    assert!(first < 7_258_118_400_000);
    let second = unix_millis().unwrap();
    assert!(second + 60_000 > first);
}

#[test]
fn data_clone_is_equal() {
    let data = entry("v", Some(3));
    let copy = data.clone();
    assert_eq!(copy.value, data.value);
    assert_eq!(copy.expire_time, data.expire_time);
}
