//! The time-bucket key formula and the update-chain resolver, on concrete
//! values.

use sharefeed::resolve::resolve_latest;
use sharefeed::time_index::bucket_key;
use sharefeed::types::{Address, BucketKey, Edge, Endpoint, LinkTypes, Timestamp};

fn micros(seconds: i64) -> Timestamp {
    Timestamp(seconds * 1_000_000)
}

fn update_edge(id: u64, source: Address, target: Address, seconds: i64) -> Edge {
    Edge {
        id: Address(id),
        source: Endpoint::Record(source),
        target: Endpoint::Record(target),
        link_type: LinkTypes::ShareItemUpdates,
        timestamp: micros(seconds),
    }
}

#[test]
fn bucket_key_is_deterministic() {
    let t = micros(1_700_000_000);
    assert_eq!(bucket_key(t), bucket_key(t));
}

#[test]
fn bucket_key_at_epoch() {
    assert_eq!(bucket_key(micros(0)), BucketKey { year: 1970, week: 1 });
}

#[test]
fn bucket_key_exact_value() {
    // 1_700_000_000 s = 19675 days; 19675 / 365 = 53 years, day 330 of the
    // fixed-length year; 330 / 7 + 1 = week 48.
    assert_eq!(
        bucket_key(micros(1_700_000_000)),
        BucketKey { year: 2023, week: 48 }
    );
}

#[test]
fn bucket_key_same_week_same_key() {
    // Days 7..13 of 1970 all fall in week 2.
    let a = bucket_key(micros(7 * 86_400));
    let b = bucket_key(micros(13 * 86_400 + 86_399));
    assert_eq!(a, BucketKey { year: 1970, week: 2 });
    assert_eq!(a, b);
}

#[test]
fn bucket_key_week_boundary_splits() {
    // Day 6 is the last day of week 1; day 7 starts week 2.
    let last_of_week_1 = bucket_key(micros(6 * 86_400 + 86_399));
    let first_of_week_2 = bucket_key(micros(7 * 86_400));
    assert_eq!(last_of_week_1, BucketKey { year: 1970, week: 1 });
    assert_eq!(first_of_week_2, BucketKey { year: 1970, week: 2 });
}

#[test]
fn bucket_key_fixed_year_boundary() {
    // The formula uses fixed 365-day years: day 365 starts "1971".
    assert_eq!(
        bucket_key(micros(365 * 86_400)),
        BucketKey { year: 1971, week: 1 }
    );
    assert_eq!(
        bucket_key(micros(365 * 86_400 - 1)),
        BucketKey { year: 1970, week: 53 }
    );
}

#[test]
fn resolve_latest_without_updates_returns_original() {
    let original = Address(11);
    assert_eq!(resolve_latest(original, &Vec::new()), original);
}

#[test]
fn resolve_latest_picks_newest_regardless_of_creation_order() {
    let original = Address(1);
    let t1 = update_edge(100, original, Address(2), 10);
    let t2 = update_edge(101, original, Address(3), 20);
    let t3 = update_edge(102, original, Address(4), 30);
    assert_eq!(
        resolve_latest(original, &vec![t1, t2, t3]),
        Address(4)
    );
    assert_eq!(
        resolve_latest(original, &vec![t3, t1, t2]),
        Address(4)
    );
    assert_eq!(
        resolve_latest(original, &vec![t2, t3, t1]),
        Address(4)
    );
}

#[test]
fn resolve_latest_breaks_timestamp_ties_by_position() {
    let original = Address(1);
    let a = update_edge(100, original, Address(2), 10);
    let b = update_edge(101, original, Address(3), 10);
    // Equal timestamps: the later entry wins, deterministically.
    assert_eq!(resolve_latest(original, &vec![a, b]), Address(3));
    assert_eq!(resolve_latest(original, &vec![b, a]), Address(2));
}
