//! The validation engine's accept/reject rules, on concrete inputs.

use sharefeed::types::{EntryTypes, Feed, LinkTypes, ShareItem, ValidateCallbackResult};
use sharefeed::validation::{
    genesis_self_check, validate, validate_agent_joining, validate_create_feed,
    validate_create_link_agent_to_feed, validate_create_link_feed_to_member,
    validate_create_link_feed_to_share, validate_create_link_feed_updates,
    validate_create_link_share_item_updates, validate_create_share_item, validate_delete_feed,
    validate_delete_link_agent_to_feed, validate_delete_link_feed_to_member,
    validate_delete_link_feed_to_share, validate_delete_link_feed_updates,
    validate_delete_link_share_item_updates, validate_delete_share_item, validate_update_feed,
    validate_update_share_item, Op,
};
use sharefeed::types::AgentId;

fn item(url: &str, title: &str) -> ShareItem {
    ShareItem {
        url: url.to_string(),
        title: title.to_string(),
        description: None,
        selection: None,
        favicon: None,
        thumbnail: None,
        tags: Vec::new(),
    }
}

fn feed(name: &str, stewards: Vec<AgentId>) -> Feed {
    Feed {
        name: name.to_string(),
        description: None,
        stewards,
        is_public: true,
    }
}

fn invalid(reason: &str) -> ValidateCallbackResult {
    ValidateCallbackResult::Invalid(reason.to_string())
}

#[test]
fn share_item_empty_url_rejected() {
    let r = validate_create_share_item(&item("", "a title"));
    assert_eq!(r, invalid("ShareItem url cannot be empty"));
}

#[test]
fn share_item_empty_title_rejected() {
    let r = validate_create_share_item(&item("http://x", ""));
    assert_eq!(r, invalid("ShareItem title cannot be empty"));
}

#[test]
fn share_item_both_empty_rejected_on_url_first() {
    let r = validate_create_share_item(&item("", ""));
    assert_eq!(r, invalid("ShareItem url cannot be empty"));
}

#[test]
fn share_item_non_empty_accepted() {
    let r = validate_create_share_item(&item("http://x", "t"));
    assert_eq!(r, ValidateCallbackResult::Valid);
}

#[test]
fn feed_empty_name_rejected() {
    let r = validate_create_feed(&feed("", vec![AgentId(1)]));
    assert_eq!(r, invalid("Feed name cannot be empty"));
}

#[test]
fn feed_empty_stewards_rejected() {
    let r = validate_create_feed(&feed("reading", Vec::new()));
    assert_eq!(r, invalid("Feed must have at least one steward"));
}

#[test]
fn feed_accepted() {
    let r = validate_create_feed(&feed("reading", vec![AgentId(1), AgentId(2)]));
    assert_eq!(r, ValidateCallbackResult::Valid);
}

#[test]
fn update_and_delete_entries_accepted() {
    assert_eq!(
        validate_update_share_item(&item("", "")),
        ValidateCallbackResult::Valid
    );
    assert_eq!(
        validate_update_feed(&feed("", Vec::new())),
        ValidateCallbackResult::Valid
    );
    assert_eq!(validate_delete_share_item(), ValidateCallbackResult::Valid);
    assert_eq!(validate_delete_feed(), ValidateCallbackResult::Valid);
}

#[test]
fn share_item_updates_link_needs_share_items_at_both_ends() {
    let share = EntryTypes::ShareItem(item("http://x", "t"));
    let feed_entry = EntryTypes::Feed(feed("reading", vec![AgentId(1)]));
    assert_eq!(
        validate_create_link_share_item_updates(Some(&share), Some(&share)),
        ValidateCallbackResult::Valid
    );
    assert_eq!(
        validate_create_link_share_item_updates(None, Some(&share)),
        invalid("Linked action must reference an entry")
    );
    assert_eq!(
        validate_create_link_share_item_updates(Some(&share), Some(&feed_entry)),
        invalid("Linked action must reference an entry")
    );
}

#[test]
fn feed_updates_link_needs_feeds_at_both_ends() {
    let share = EntryTypes::ShareItem(item("http://x", "t"));
    let feed_entry = EntryTypes::Feed(feed("reading", vec![AgentId(1)]));
    assert_eq!(
        validate_create_link_feed_updates(Some(&feed_entry), Some(&feed_entry)),
        ValidateCallbackResult::Valid
    );
    assert_eq!(
        validate_create_link_feed_updates(Some(&share), Some(&feed_entry)),
        invalid("Linked action must reference an entry")
    );
    assert_eq!(
        validate_create_link_feed_updates(Some(&feed_entry), None),
        invalid("Linked action must reference an entry")
    );
}

#[test]
fn feed_to_share_link_needs_share_item_target() {
    let share = EntryTypes::ShareItem(item("http://x", "t"));
    let feed_entry = EntryTypes::Feed(feed("reading", vec![AgentId(1)]));
    assert_eq!(
        validate_create_link_feed_to_share(Some(&share)),
        ValidateCallbackResult::Valid
    );
    assert_eq!(
        validate_create_link_feed_to_share(Some(&feed_entry)),
        invalid("Linked action must reference a ShareItem entry")
    );
    assert_eq!(
        validate_create_link_feed_to_share(None),
        invalid("Linked action must reference a ShareItem entry")
    );
}

#[test]
fn agent_to_feed_link_needs_feed_target() {
    let share = EntryTypes::ShareItem(item("http://x", "t"));
    let feed_entry = EntryTypes::Feed(feed("reading", vec![AgentId(1)]));
    assert_eq!(
        validate_create_link_agent_to_feed(Some(&feed_entry)),
        ValidateCallbackResult::Valid
    );
    assert_eq!(
        validate_create_link_agent_to_feed(Some(&share)),
        invalid("Linked action must reference a Feed entry")
    );
    assert_eq!(
        validate_create_link_agent_to_feed(None),
        invalid("Linked action must reference a Feed entry")
    );
}

#[test]
fn update_chain_links_can_never_be_deleted() {
    assert_eq!(
        validate_delete_link_share_item_updates(),
        invalid("ShareItemUpdates links cannot be deleted")
    );
    assert_eq!(
        validate_delete_link_feed_updates(),
        invalid("FeedUpdates links cannot be deleted")
    );
}

#[test]
fn other_link_deletions_accepted() {
    assert_eq!(
        validate_delete_link_feed_to_share(),
        ValidateCallbackResult::Valid
    );
    assert_eq!(
        validate_delete_link_agent_to_feed(),
        ValidateCallbackResult::Valid
    );
    assert_eq!(
        validate_delete_link_feed_to_member(),
        ValidateCallbackResult::Valid
    );
    assert_eq!(
        validate_create_link_feed_to_member(),
        ValidateCallbackResult::Valid
    );
}

#[test]
fn dispatcher_routes_every_operation_kind() {
    let share = EntryTypes::ShareItem(item("", "t"));
    let good = EntryTypes::ShareItem(item("http://x", "t"));
    assert_eq!(
        validate(&Op::StoreEntry { entry: &share }),
        invalid("ShareItem url cannot be empty")
    );
    assert_eq!(
        validate(&Op::StoreEntry { entry: &good }),
        ValidateCallbackResult::Valid
    );
    assert_eq!(
        validate(&Op::RegisterUpdate { entry: &share }),
        ValidateCallbackResult::Valid
    );
    assert_eq!(validate(&Op::RegisterDelete), ValidateCallbackResult::Valid);
    assert_eq!(
        validate(&Op::RegisterCreateLink {
            link_type: LinkTypes::TimeIndex,
            base: None,
            target: None,
        }),
        ValidateCallbackResult::Valid
    );
    assert_eq!(
        validate(&Op::RegisterCreateLink {
            link_type: LinkTypes::AgentToFeed,
            base: None,
            target: None,
        }),
        invalid("Linked action must reference a Feed entry")
    );
    assert_eq!(
        validate(&Op::RegisterDeleteLink {
            link_type: LinkTypes::FeedUpdates,
        }),
        invalid("FeedUpdates links cannot be deleted")
    );
    assert_eq!(
        validate(&Op::RegisterDeleteLink {
            link_type: LinkTypes::FeedToShare,
        }),
        ValidateCallbackResult::Valid
    );
}

#[test]
fn host_callbacks_accept() {
    assert_eq!(genesis_self_check(), ValidateCallbackResult::Valid);
    assert_eq!(validate_agent_joining(AgentId(7)), ValidateCallbackResult::Valid);
}
