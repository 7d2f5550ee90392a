//! The validation engine: pure accept/reject decisions for every proposed
//! record and edge mutation, taken before the mutation becomes durable.
//!
//! Structural rules that need a store lookup (an edge whose target must
//! dereference to a record of a given type) take the looked-up entry as an
//! argument: the caller reads the store, the engine only decides.  A lookup
//! that found nothing, a tombstoned record, or a record of the wrong type all
//! arrive here as the same thing — not the expected entry — and are rejected
//! with the reason the rule names.

use vstd::prelude::*;
use vstd::string::StringExecFns;

use crate::types::{AgentId, EntryTypes, Feed, LinkTypes, ShareItem, ValidateCallbackResult};

verus! {

/// A share item may be created iff its `url` and `title` are non-empty.
pub open spec fn share_item_valid(item: ShareItem) -> bool {
    item.url@.len() > 0 && item.title@.len() > 0
}

/// A feed may be created iff its `name` is non-empty and it declares at
/// least one steward.
pub open spec fn feed_valid(feed: Feed) -> bool {
    feed.name@.len() > 0 && feed.stewards@.len() > 0
}

/// Content rule for any entry.
pub open spec fn entry_valid(entry: EntryTypes) -> bool {
    match entry {
        EntryTypes::ShareItem(item) => share_item_valid(item),
        EntryTypes::Feed(feed) => feed_valid(feed),
    }
}

/// The reason an invalid share item is rejected with: the first failing rule.
pub open spec fn share_item_reject_reason(item: ShareItem) -> Seq<char> {
    if item.url@.len() == 0 {
        "ShareItem url cannot be empty"@
    } else {
        "ShareItem title cannot be empty"@
    }
}

/// The reason an invalid feed is rejected with: the first failing rule.
pub open spec fn feed_reject_reason(feed: Feed) -> Seq<char> {
    if feed.name@.len() == 0 {
        "Feed name cannot be empty"@
    } else {
        "Feed must have at least one steward"@
    }
}

/// The reason an invalid entry is rejected with.
pub open spec fn entry_reject_reason(entry: EntryTypes) -> Seq<char> {
    match entry {
        EntryTypes::ShareItem(item) => share_item_reject_reason(item),
        EntryTypes::Feed(feed) => feed_reject_reason(feed),
    }
}

/// `r` is a rejection carrying exactly the reason `msg`.
pub open spec fn invalid_with(r: ValidateCallbackResult, msg: Seq<char>) -> bool {
    match r {
        ValidateCallbackResult::Valid => false,
        ValidateCallbackResult::Invalid(m) => m@ == msg,
    }
}

/// The looked-up entry is a share item record's content.
pub open spec fn entry_is_share_item(entry: Option<&EntryTypes>) -> bool {
    match entry {
        Some(EntryTypes::ShareItem(_)) => true,
        _ => false,
    }
}

/// The looked-up entry is a feed record's content.
pub open spec fn entry_is_feed(entry: Option<&EntryTypes>) -> bool {
    match entry {
        Some(EntryTypes::Feed(_)) => true,
        _ => false,
    }
}

/// Structural rule for creating an edge of type `link_type`, given what the
/// edge's source and target addresses dereference to.
pub open spec fn create_link_allowed(
    link_type: LinkTypes,
    base: Option<&EntryTypes>,
    target: Option<&EntryTypes>,
) -> bool {
    match link_type {
        LinkTypes::TimeIndex => true,
        LinkTypes::ShareItemUpdates => entry_is_share_item(base) && entry_is_share_item(target),
        LinkTypes::FeedUpdates => entry_is_feed(base) && entry_is_feed(target),
        LinkTypes::FeedToShare => entry_is_share_item(target),
        LinkTypes::AgentToFeed => entry_is_feed(target),
        LinkTypes::FeedToMember => true,
    }
}

/// The reason a structurally invalid edge creation is rejected with.
pub open spec fn create_link_reason(link_type: LinkTypes) -> Seq<char> {
    match link_type {
        LinkTypes::FeedToShare => "Linked action must reference a ShareItem entry"@,
        LinkTypes::AgentToFeed => "Linked action must reference a Feed entry"@,
        _ => "Linked action must reference an entry"@,
    }
}

/// Deleting an edge is allowed for every type except the two update chains:
/// their absence would make version history ambiguous.
pub open spec fn delete_link_allowed(link_type: LinkTypes) -> bool {
    !(link_type is ShareItemUpdates || link_type is FeedUpdates)
}

/// The reason a forbidden edge deletion is rejected with.
pub open spec fn delete_link_reason(link_type: LinkTypes) -> Seq<char> {
    if link_type is ShareItemUpdates {
        "ShareItemUpdates links cannot be deleted"@
    } else {
        "FeedUpdates links cannot be deleted"@
    }
}

/// Create a share item: reject iff `url` or `title` is empty.
pub fn validate_create_share_item(share_item: &ShareItem) -> (r: ValidateCallbackResult)
    ensures
        r is Valid <==> share_item_valid(*share_item),
        !share_item_valid(*share_item) ==> invalid_with(r, share_item_reject_reason(*share_item)),
{
    if share_item.url.as_str().is_empty() {
        return ValidateCallbackResult::Invalid(String::from_str("ShareItem url cannot be empty"));
    }
    if share_item.title.as_str().is_empty() {
        return ValidateCallbackResult::Invalid(String::from_str("ShareItem title cannot be empty"));
    }
    ValidateCallbackResult::Valid
}

/// Update a share item: no constraints beyond those of creation, which the
/// caller re-checks against the new content.
pub fn validate_update_share_item(share_item: &ShareItem) -> (r: ValidateCallbackResult)
    ensures
        r is Valid,
{
    let _ = share_item;
    ValidateCallbackResult::Valid
}

/// Delete a share item: always accepted.
pub fn validate_delete_share_item() -> (r: ValidateCallbackResult)
    ensures
        r is Valid,
{
    ValidateCallbackResult::Valid
}

/// Create a `ShareItemUpdates` edge: both ends must dereference to share
/// item records.
pub fn validate_create_link_share_item_updates(
    base: Option<&EntryTypes>,
    target: Option<&EntryTypes>,
) -> (r: ValidateCallbackResult)
    ensures
        r is Valid <==> entry_is_share_item(base) && entry_is_share_item(target),
        !(entry_is_share_item(base) && entry_is_share_item(target)) ==> invalid_with(
            r,
            "Linked action must reference an entry"@,
        ),
{
    match base {
        Some(EntryTypes::ShareItem(_)) => {},
        _ => {
            return ValidateCallbackResult::Invalid(
                String::from_str("Linked action must reference an entry"),
            );
        },
    }
    match target {
        Some(EntryTypes::ShareItem(_)) => {},
        _ => {
            return ValidateCallbackResult::Invalid(
                String::from_str("Linked action must reference an entry"),
            );
        },
    }
    ValidateCallbackResult::Valid
}

/// Delete a `ShareItemUpdates` edge: always rejected, history is immutable.
pub fn validate_delete_link_share_item_updates() -> (r: ValidateCallbackResult)
    ensures
        invalid_with(r, "ShareItemUpdates links cannot be deleted"@),
{
    ValidateCallbackResult::Invalid(String::from_str("ShareItemUpdates links cannot be deleted"))
}

/// Create a feed: reject iff `name` is empty or `stewards` is empty.
pub fn validate_create_feed(feed: &Feed) -> (r: ValidateCallbackResult)
    ensures
        r is Valid <==> feed_valid(*feed),
        !feed_valid(*feed) ==> invalid_with(r, feed_reject_reason(*feed)),
{
    if feed.name.as_str().is_empty() {
        return ValidateCallbackResult::Invalid(String::from_str("Feed name cannot be empty"));
    }
    if feed.stewards.len() == 0 {
        return ValidateCallbackResult::Invalid(
            String::from_str("Feed must have at least one steward"),
        );
    }
    ValidateCallbackResult::Valid
}

/// Update a feed: no constraints beyond those of creation, which the caller
/// re-checks against the new content.
pub fn validate_update_feed(feed: &Feed) -> (r: ValidateCallbackResult)
    ensures
        r is Valid,
{
    let _ = feed;
    ValidateCallbackResult::Valid
}

/// Delete a feed: always accepted.
pub fn validate_delete_feed() -> (r: ValidateCallbackResult)
    ensures
        r is Valid,
{
    ValidateCallbackResult::Valid
}

/// Create a `FeedUpdates` edge: both ends must dereference to feed records.
pub fn validate_create_link_feed_updates(
    base: Option<&EntryTypes>,
    target: Option<&EntryTypes>,
) -> (r: ValidateCallbackResult)
    ensures
        r is Valid <==> entry_is_feed(base) && entry_is_feed(target),
        !(entry_is_feed(base) && entry_is_feed(target)) ==> invalid_with(
            r,
            "Linked action must reference an entry"@,
        ),
{
    match base {
        Some(EntryTypes::Feed(_)) => {},
        _ => {
            return ValidateCallbackResult::Invalid(
                String::from_str("Linked action must reference an entry"),
            );
        },
    }
    match target {
        Some(EntryTypes::Feed(_)) => {},
        _ => {
            return ValidateCallbackResult::Invalid(
                String::from_str("Linked action must reference an entry"),
            );
        },
    }
    ValidateCallbackResult::Valid
}

/// Delete a `FeedUpdates` edge: always rejected, history is immutable.
pub fn validate_delete_link_feed_updates() -> (r: ValidateCallbackResult)
    ensures
        invalid_with(r, "FeedUpdates links cannot be deleted"@),
{
    ValidateCallbackResult::Invalid(String::from_str("FeedUpdates links cannot be deleted"))
}

/// Create a `FeedToShare` edge: the target must dereference to a share item
/// record.  The source is not re-validated: feed existence was checked when
/// the feed was created.
pub fn validate_create_link_feed_to_share(target: Option<&EntryTypes>) -> (r:
    ValidateCallbackResult)
    ensures
        r is Valid <==> entry_is_share_item(target),
        !entry_is_share_item(target) ==> invalid_with(
            r,
            "Linked action must reference a ShareItem entry"@,
        ),
{
    match target {
        Some(EntryTypes::ShareItem(_)) => ValidateCallbackResult::Valid,
        _ => ValidateCallbackResult::Invalid(
            String::from_str("Linked action must reference a ShareItem entry"),
        ),
    }
}

/// Delete a `FeedToShare` edge: always accepted — this is how an item is
/// removed from a feed without deleting the item itself.
pub fn validate_delete_link_feed_to_share() -> (r: ValidateCallbackResult)
    ensures
        r is Valid,
{
    ValidateCallbackResult::Valid
}

/// Create an `AgentToFeed` edge: the target must dereference to a feed
/// record.
pub fn validate_create_link_agent_to_feed(target: Option<&EntryTypes>) -> (r:
    ValidateCallbackResult)
    ensures
        r is Valid <==> entry_is_feed(target),
        !entry_is_feed(target) ==> invalid_with(r, "Linked action must reference a Feed entry"@),
{
    match target {
        Some(EntryTypes::Feed(_)) => ValidateCallbackResult::Valid,
        _ => ValidateCallbackResult::Invalid(
            String::from_str("Linked action must reference a Feed entry"),
        ),
    }
}

/// Delete an `AgentToFeed` edge: always accepted.
pub fn validate_delete_link_agent_to_feed() -> (r: ValidateCallbackResult)
    ensures
        r is Valid,
{
    ValidateCallbackResult::Valid
}

/// Create a `FeedToMember` edge: no structural validation — the target is an
/// identity, not independently verifiable as existing.
pub fn validate_create_link_feed_to_member() -> (r: ValidateCallbackResult)
    ensures
        r is Valid,
{
    ValidateCallbackResult::Valid
}

/// Delete a `FeedToMember` edge: always accepted.
pub fn validate_delete_link_feed_to_member() -> (r: ValidateCallbackResult)
    ensures
        r is Valid,
{
    ValidateCallbackResult::Valid
}

/// Host self-check at genesis: nothing to check in this application.
pub fn genesis_self_check() -> (r: ValidateCallbackResult)
    ensures
        r is Valid,
{
    ValidateCallbackResult::Valid
}

/// An agent joining the network: always accepted.
pub fn validate_agent_joining(agent: AgentId) -> (r: ValidateCallbackResult)
    ensures
        r is Valid,
{
    let _ = agent;
    ValidateCallbackResult::Valid
}

/// A proposed mutation, flattened to the closed set of operation kinds the
/// engine decides on.  For edge creations the caller supplies what the
/// source and target addresses dereference to.
#[derive(Clone, Copy)]
pub enum Op<'a> {
    /// A record is being stored with the given content (a create, or the new
    /// content of an update — both are held to the creation rules).
    StoreEntry { entry: &'a EntryTypes },
    /// An update action is being registered for the given new content.
    RegisterUpdate { entry: &'a EntryTypes },
    /// A delete action is being registered.
    RegisterDelete,
    /// An edge is being created.
    RegisterCreateLink {
        link_type: LinkTypes,
        base: Option<&'a EntryTypes>,
        target: Option<&'a EntryTypes>,
    },
    /// An edge is being deleted.
    RegisterDeleteLink { link_type: LinkTypes },
}

/// The whole engine as one closed dispatch: every operation kind is decided
/// here, with no side effects.
pub fn validate(op: &Op<'_>) -> (r: ValidateCallbackResult)
    ensures
        match *op {
            Op::StoreEntry { entry } => {
                &&& r is Valid <==> entry_valid(*entry)
                &&& !entry_valid(*entry) ==> invalid_with(r, entry_reject_reason(*entry))
            },
            Op::RegisterUpdate { entry: _ } => r is Valid,
            Op::RegisterDelete => r is Valid,
            Op::RegisterCreateLink { link_type, base, target } => {
                &&& r is Valid <==> create_link_allowed(link_type, base, target)
                &&& !create_link_allowed(link_type, base, target) ==> invalid_with(
                    r,
                    create_link_reason(link_type),
                )
            },
            Op::RegisterDeleteLink { link_type } => {
                &&& r is Valid <==> delete_link_allowed(link_type)
                &&& !delete_link_allowed(link_type) ==> invalid_with(
                    r,
                    delete_link_reason(link_type),
                )
            },
        },
{
    match *op {
        Op::StoreEntry { entry } => match entry {
            EntryTypes::ShareItem(item) => validate_create_share_item(item),
            EntryTypes::Feed(feed) => validate_create_feed(feed),
        },
        Op::RegisterUpdate { entry } => match entry {
            EntryTypes::ShareItem(item) => validate_update_share_item(item),
            EntryTypes::Feed(feed) => validate_update_feed(feed),
        },
        Op::RegisterDelete => ValidateCallbackResult::Valid,
        Op::RegisterCreateLink { link_type, base, target } => match link_type {
            LinkTypes::TimeIndex => ValidateCallbackResult::Valid,
            LinkTypes::ShareItemUpdates => validate_create_link_share_item_updates(base, target),
            LinkTypes::FeedUpdates => validate_create_link_feed_updates(base, target),
            LinkTypes::FeedToShare => validate_create_link_feed_to_share(target),
            LinkTypes::AgentToFeed => validate_create_link_agent_to_feed(target),
            LinkTypes::FeedToMember => validate_create_link_feed_to_member(),
        },
        Op::RegisterDeleteLink { link_type } => match link_type {
            LinkTypes::TimeIndex => ValidateCallbackResult::Valid,
            LinkTypes::ShareItemUpdates => validate_delete_link_share_item_updates(),
            LinkTypes::FeedUpdates => validate_delete_link_feed_updates(),
            LinkTypes::FeedToShare => validate_delete_link_feed_to_share(),
            LinkTypes::AgentToFeed => validate_delete_link_agent_to_feed(),
            LinkTypes::FeedToMember => validate_delete_link_feed_to_member(),
        },
    }
}

} // verus!
