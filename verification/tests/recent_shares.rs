//! Time-bucketed retrieval: per-week queries and the bounded recent-shares
//! query with its previous-week fallback.

use sharefeed::store::Store;
use sharefeed::types::{AgentId, ShareItem, TimeRangeInput, Timestamp};

fn micros(seconds: i64) -> Timestamp {
    Timestamp(seconds * 1_000_000)
}

fn item(url: &str, title: &str) -> ShareItem {
    ShareItem {
        url: url.to_string(),
        title: title.to_string(),
        description: None,
        selection: None,
        favicon: None,
        thumbnail: None,
        tags: Vec::new(),
    }
}

const DAY: i64 = 86_400;

#[test]
fn week_query_returns_items_newest_first() {
    let mut store = Store::new();
    let author = AgentId(1);
    // Three items on day 7 (week 2 of 1970), created out of order.
    let a = store
        .create_share_item(author, micros(7 * DAY + 50), item("http://a", "a"))
        .unwrap();
    let b = store
        .create_share_item(author, micros(7 * DAY + 10), item("http://b", "b"))
        .unwrap();
    let c = store
        .create_share_item(author, micros(7 * DAY + 30), item("http://c", "c"))
        .unwrap();
    let listed = store.get_shares_for_week(TimeRangeInput { year: 1970, week: 2 });
    let addresses: Vec<_> = listed.iter().map(|s| s.action_hash).collect();
    assert_eq!(addresses, vec![a.address, c.address, b.address]);
    assert!(listed.windows(2).all(|w| w[0].created_at.0 >= w[1].created_at.0));
}

#[test]
fn week_query_keeps_insertion_order_for_equal_timestamps() {
    let mut store = Store::new();
    let author = AgentId(1);
    let first = store
        .create_share_item(author, micros(7 * DAY + 10), item("http://a", "a"))
        .unwrap();
    let second = store
        .create_share_item(author, micros(7 * DAY + 10), item("http://b", "b"))
        .unwrap();
    let listed = store.get_shares_for_week(TimeRangeInput { year: 1970, week: 2 });
    let addresses: Vec<_> = listed.iter().map(|s| s.action_hash).collect();
    assert_eq!(addresses, vec![first.address, second.address]);
}

#[test]
fn empty_week_is_empty() {
    let store = Store::new();
    assert!(store
        .get_shares_for_week(TimeRangeInput { year: 1970, week: 2 })
        .is_empty());
}

#[test]
fn recent_falls_back_to_previous_week_when_sparse() {
    let mut store = Store::new();
    let author = AgentId(1);
    // Two items in week 1 (days 0..6), three in week 2 (day 7).
    let w1a = store
        .create_share_item(author, micros(2 * DAY), item("http://w1a", "w1a"))
        .unwrap();
    let w1b = store
        .create_share_item(author, micros(3 * DAY), item("http://w1b", "w1b"))
        .unwrap();
    let w2a = store
        .create_share_item(author, micros(7 * DAY + 10), item("http://w2a", "w2a"))
        .unwrap();
    let w2b = store
        .create_share_item(author, micros(7 * DAY + 20), item("http://w2b", "w2b"))
        .unwrap();
    let w2c = store
        .create_share_item(author, micros(7 * DAY + 30), item("http://w2c", "w2c"))
        .unwrap();

    let recent = store.get_recent_shares(micros(7 * DAY + 100));
    let addresses: Vec<_> = recent.iter().map(|s| s.action_hash).collect();
    assert_eq!(
        addresses,
        vec![w2c.address, w2b.address, w2a.address, w1b.address, w1a.address]
    );
}

#[test]
fn recent_skips_previous_week_when_current_is_full() {
    let mut store = Store::new();
    let author = AgentId(1);
    let old = store
        .create_share_item(author, micros(2 * DAY), item("http://old", "old"))
        .unwrap();
    // Twenty items in week 2 reach the fill threshold.
    for k in 0..20i64 {
        store
            .create_share_item(
                author,
                micros(7 * DAY + k),
                item(&format!("http://w2-{}", k), "w2"),
            )
            .unwrap();
    }
    let recent = store.get_recent_shares(micros(7 * DAY + 100));
    assert_eq!(recent.len(), 20);
    assert!(recent.iter().all(|s| s.action_hash != old.address));
}

#[test]
fn recent_never_exceeds_fifty_and_stays_sorted() {
    let mut store = Store::new();
    let author = AgentId(1);
    for k in 0..60i64 {
        store
            .create_share_item(
                author,
                micros(7 * DAY + k),
                item(&format!("http://n{}", k), "n"),
            )
            .unwrap();
    }
    let recent = store.get_recent_shares(micros(7 * DAY + 200));
    assert_eq!(recent.len(), 50);
    assert!(recent.windows(2).all(|w| w[0].created_at.0 >= w[1].created_at.0));
    // The newest items survive the cap.
    assert_eq!(recent[0].created_at, micros(7 * DAY + 59));
}

#[test]
fn recent_does_not_cross_the_year_boundary() {
    let mut store = Store::new();
    let author = AgentId(1);
    // An item in the last week of the fixed-length year 1970.
    store
        .create_share_item(author, micros(364 * DAY), item("http://tail", "tail"))
        .unwrap();
    // Week 1 of 1971 is sparse, but the fallback never reaches back into
    // the previous year's last week.
    let recent = store.get_recent_shares(micros(365 * DAY + 10));
    assert!(recent.is_empty());
}
