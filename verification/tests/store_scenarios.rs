//! End-to-end scenarios on the store: feed creation and membership, share
//! attachment and detachment, the update chain, and deletion.

use sharefeed::store::Store;
use sharefeed::types::{
    AddMemberToFeedInput, AddShareToFeedInput, AgentId, Feed, LinkTypes, RemoveShareFromFeedInput,
    ShareItem, Timestamp, UpdateShareItemInput,
};

fn micros(seconds: i64) -> Timestamp {
    Timestamp(seconds * 1_000_000)
}

fn item(url: &str, title: &str) -> ShareItem {
    ShareItem {
        url: url.to_string(),
        title: title.to_string(),
        description: None,
        selection: None,
        favicon: None,
        thumbnail: None,
        tags: Vec::new(),
    }
}

fn feed(name: &str, stewards: Vec<AgentId>) -> Feed {
    Feed {
        name: name.to_string(),
        description: None,
        stewards,
        is_public: true,
    }
}

#[test]
fn feed_creation_writes_one_member_edge_per_steward() {
    let mut store = Store::new();
    let creator = AgentId(1);
    let stewards = vec![AgentId(1), AgentId(2), AgentId(3)];
    let rec = store
        .create_feed(creator, micros(10), feed("reading", stewards.clone()))
        .unwrap();

    let agent_edges: Vec<_> = store
        .edges
        .iter()
        .filter(|e| e.link_type == LinkTypes::AgentToFeed)
        .collect();
    let member_edges: Vec<_> = store
        .edges
        .iter()
        .filter(|e| e.link_type == LinkTypes::FeedToMember)
        .collect();
    assert_eq!(agent_edges.len(), 1);
    assert_eq!(member_edges.len(), stewards.len());
    assert_eq!(store.get_feed_members(rec.address), stewards);
}

#[test]
fn invalid_feed_creation_changes_nothing() {
    let mut store = Store::new();
    let r = store.create_feed(AgentId(1), micros(10), feed("reading", Vec::new()));
    assert_eq!(r.unwrap_err(), "Feed must have at least one steward");
    assert!(store.records.is_empty());
    assert!(store.edges.is_empty());
}

#[test]
fn invalid_share_item_creation_changes_nothing() {
    let mut store = Store::new();
    let r = store.create_share_item(AgentId(1), micros(10), item("", "t"));
    assert_eq!(r.unwrap_err(), "ShareItem url cannot be empty");
    assert!(store.records.is_empty());
    assert!(store.edges.is_empty());
}

#[test]
fn attach_query_detach_roundtrip() {
    let mut store = Store::new();
    let steward = AgentId(1);
    let feed_rec = store
        .create_feed(steward, micros(10), feed("reading", vec![steward]))
        .unwrap();

    let my_feeds = store.get_my_feeds(steward);
    assert_eq!(my_feeds.len(), 1);
    assert_eq!(my_feeds[0].action_hash, feed_rec.address);
    assert_eq!(my_feeds[0].feed.name, "reading");

    let share_rec = store
        .create_share_item(steward, micros(20), item("http://x", "t"))
        .unwrap();
    store
        .add_share_to_feed(
            micros(30),
            AddShareToFeedInput {
                feed_hash: feed_rec.address,
                share_item_hash: share_rec.address,
            },
        )
        .unwrap();

    let shares = store.get_feed_shares(feed_rec.address);
    assert_eq!(shares.len(), 1);
    assert_eq!(shares[0].action_hash, share_rec.address);
    assert_eq!(shares[0].share_item.url, "http://x");
    assert_eq!(shares[0].created_at, micros(30));
    assert_eq!(shares[0].author, steward);

    let link_hash = store
        .edges
        .iter()
        .find(|e| e.link_type == LinkTypes::FeedToShare)
        .unwrap()
        .id;
    store
        .remove_share_from_feed(RemoveShareFromFeedInput { link_hash })
        .unwrap();

    assert!(store.get_feed_shares(feed_rec.address).is_empty());
    // The item itself is untouched by detachment.
    assert!(store.get_share_item(share_rec.address).is_some());
}

#[test]
fn attach_rejects_non_share_item_target() {
    let mut store = Store::new();
    let steward = AgentId(1);
    let feed_rec = store
        .create_feed(steward, micros(10), feed("reading", vec![steward]))
        .unwrap();
    let r = store.add_share_to_feed(
        micros(20),
        AddShareToFeedInput {
            feed_hash: feed_rec.address,
            share_item_hash: feed_rec.address,
        },
    );
    assert_eq!(r.unwrap_err(), "Linked action must reference a ShareItem entry");
}

#[test]
fn update_chain_resolves_to_newest_version() {
    let mut store = Store::new();
    let author = AgentId(1);
    let original = store
        .create_share_item(author, micros(10), item("http://x", "v1"))
        .unwrap();
    let second = store
        .update_share_item(
            author,
            micros(20),
            UpdateShareItemInput {
                original_share_item_hash: original.address,
                previous_share_item_hash: original.address,
                updated_share_item: item("http://x", "v2"),
            },
        )
        .unwrap();
    let third = store
        .update_share_item(
            author,
            micros(30),
            UpdateShareItemInput {
                original_share_item_hash: original.address,
                previous_share_item_hash: second.address,
                updated_share_item: item("http://x", "v3"),
            },
        )
        .unwrap();

    let current = store.get_share_item(original.address).unwrap();
    assert_eq!(current.address, third.address);
    match &current.entry {
        sharefeed::types::EntryTypes::ShareItem(it) => assert_eq!(it.title, "v3"),
        _ => panic!("expected a share item"),
    }
}

#[test]
fn update_with_invalid_content_is_rejected() {
    let mut store = Store::new();
    let author = AgentId(1);
    let original = store
        .create_share_item(author, micros(10), item("http://x", "v1"))
        .unwrap();
    let records_before = store.records.len();
    let r = store.update_share_item(
        author,
        micros(20),
        UpdateShareItemInput {
            original_share_item_hash: original.address,
            previous_share_item_hash: original.address,
            updated_share_item: item("http://x", ""),
        },
    );
    assert_eq!(r.unwrap_err(), "ShareItem title cannot be empty");
    assert_eq!(store.records.len(), records_before);
}

#[test]
fn update_chain_edges_cannot_be_removed() {
    let mut store = Store::new();
    let author = AgentId(1);
    let original = store
        .create_share_item(author, micros(10), item("http://x", "v1"))
        .unwrap();
    store
        .update_share_item(
            author,
            micros(20),
            UpdateShareItemInput {
                original_share_item_hash: original.address,
                previous_share_item_hash: original.address,
                updated_share_item: item("http://x", "v2"),
            },
        )
        .unwrap();
    let chain_edge = store
        .edges
        .iter()
        .find(|e| e.link_type == LinkTypes::ShareItemUpdates)
        .unwrap()
        .id;
    let r = store.remove_share_from_feed(RemoveShareFromFeedInput { link_hash: chain_edge });
    assert_eq!(r.unwrap_err(), "ShareItemUpdates links cannot be deleted");
    // The edge is still live: resolution still reaches the new version.
    let current = store.get_share_item(original.address).unwrap();
    assert_ne!(current.address, original.address);
}

#[test]
fn deleting_a_share_item_hides_it_from_reads() {
    let mut store = Store::new();
    let author = AgentId(1);
    let feed_rec = store
        .create_feed(author, micros(5), feed("reading", vec![author]))
        .unwrap();
    let share_rec = store
        .create_share_item(author, micros(10), item("http://x", "t"))
        .unwrap();
    store
        .add_share_to_feed(
            micros(15),
            AddShareToFeedInput {
                feed_hash: feed_rec.address,
                share_item_hash: share_rec.address,
            },
        )
        .unwrap();
    store.delete_share_item(share_rec.address).unwrap();
    assert!(store.get_share_item(share_rec.address).is_none());
    // The dangling attachment edge is tolerated and skipped by readers.
    assert!(store.get_feed_shares(feed_rec.address).is_empty());
}

#[test]
fn deleting_a_missing_record_is_reported() {
    let mut store = Store::new();
    let r = store.delete_feed(sharefeed::types::Address(99));
    assert_eq!(r.unwrap_err(), "Record not found");
}

#[test]
fn added_members_are_listed_in_order() {
    let mut store = Store::new();
    let steward = AgentId(1);
    let feed_rec = store
        .create_feed(steward, micros(10), feed("reading", vec![steward]))
        .unwrap();
    store
        .add_member_to_feed(
            micros(20),
            AddMemberToFeedInput { feed_hash: feed_rec.address, member_pubkey: AgentId(9) },
        )
        .unwrap();
    store
        .add_member_to_feed(
            micros(30),
            AddMemberToFeedInput { feed_hash: feed_rec.address, member_pubkey: AgentId(4) },
        )
        .unwrap();
    assert_eq!(
        store.get_feed_members(feed_rec.address),
        vec![AgentId(1), AgentId(9), AgentId(4)]
    );
}

#[test]
fn feed_updates_resolve_to_newest_version() {
    let mut store = Store::new();
    let author = AgentId(1);
    let original = store
        .create_feed(author, micros(10), feed("reading", vec![author]))
        .unwrap();
    let second = store
        .update_feed(
            author,
            micros(20),
            sharefeed::types::UpdateFeedInput {
                original_feed_hash: original.address,
                previous_feed_hash: original.address,
                updated_feed: feed("reading list", vec![author]),
            },
        )
        .unwrap();
    let current = store.get_feed(original.address).unwrap();
    assert_eq!(current.address, second.address);
    match &current.entry {
        sharefeed::types::EntryTypes::Feed(f) => assert_eq!(f.name, "reading list"),
        _ => panic!("expected a feed"),
    }
}

#[test]
fn update_with_missing_previous_is_reported() {
    let mut store = Store::new();
    let author = AgentId(1);
    let original = store
        .create_share_item(author, micros(10), item("http://x", "v1"))
        .unwrap();
    let r = store.update_share_item(
        author,
        micros(20),
        UpdateShareItemInput {
            original_share_item_hash: original.address,
            previous_share_item_hash: sharefeed::types::Address(999),
            updated_share_item: item("http://x", "v2"),
        },
    );
    assert_eq!(r.unwrap_err(), "Record not found");
    assert_eq!(store.records.len(), 1);
}

#[test]
fn update_against_a_non_item_original_is_partially_applied() {
    let mut store = Store::new();
    let author = AgentId(1);
    let feed_rec = store
        .create_feed(author, micros(10), feed("reading", vec![author]))
        .unwrap();
    let records_before = store.records.len();
    let edges_before = store.edges.len();
    // The original address holds a feed, so the update edge is refused —
    // but the new version record was already stored.
    let r = store.update_share_item(
        author,
        micros(20),
        UpdateShareItemInput {
            original_share_item_hash: feed_rec.address,
            previous_share_item_hash: feed_rec.address,
            updated_share_item: item("http://x", "v2"),
        },
    );
    assert_eq!(r.unwrap_err(), "Linked action must reference an entry");
    assert_eq!(store.records.len(), records_before + 1);
    assert_eq!(store.edges.len(), edges_before);
}

#[test]
fn removing_a_missing_link_is_reported() {
    let mut store = Store::new();
    let r = store.remove_share_from_feed(RemoveShareFromFeedInput {
        link_hash: sharefeed::types::Address(42),
    });
    assert_eq!(r.unwrap_err(), "Link not found");
}
