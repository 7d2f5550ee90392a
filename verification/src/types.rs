//! The data model: identities, addresses, timestamps, entry contents,
//! edge endpoints and edges, and the result type of the validation engine.
//!
//! Agent identities and record addresses are opaque to the logic: nothing is
//! ever computed from their contents, they are only compared and routed.  They
//! are therefore modelled as plain numeric tokens.

use vstd::prelude::*;

verus! {

/// An agent identity (a public key in the host system), opaque to the logic.
#[derive(Clone, Copy, Debug, PartialEq, Eq, Structural)]
pub struct AgentId(pub u64);

/// A content-derived address of a record or edge, opaque to the logic.
/// The store assigns a fresh address to every record and edge it admits;
/// an address never changes after creation.
#[derive(Clone, Copy, Debug, PartialEq, Eq, Structural)]
pub struct Address(pub u64);

/// A point in time, in microseconds since the Unix epoch.
#[derive(Clone, Copy, Debug, PartialEq, Eq, Structural)]
pub struct Timestamp(pub i64);

/// A derived time-bucket key; used only as the source endpoint of
/// `TimeIndex` edges, never stored as an entity of its own.
#[derive(Clone, Copy, Debug, PartialEq, Eq, Structural)]
pub struct BucketKey {
    pub year: i64,
    pub week: u32,
}

/// A shared bookmark.  Immutable once created; logical mutation happens by
/// creating a new record and linking it as an update.
#[derive(Debug, PartialEq, Eq)]
pub struct ShareItem {
    pub url: String,
    pub title: String,
    pub description: Option<String>,
    pub selection: Option<String>,
    pub favicon: Option<String>,
    pub thumbnail: Option<String>,
    pub tags: Vec<String>,
}

/// A feed of shared bookmarks, owned by its stewards.
#[derive(Debug, PartialEq, Eq)]
pub struct Feed {
    pub name: String,
    pub description: Option<String>,
    pub stewards: Vec<AgentId>,
    pub is_public: bool,
}

/// The closed set of entry contents a record can hold.
#[derive(Debug, PartialEq, Eq)]
pub enum EntryTypes {
    ShareItem(ShareItem),
    Feed(Feed),
}

/// The closed set of edge types.
#[derive(Clone, Copy, Debug, PartialEq, Eq, Structural)]
pub enum LinkTypes {
    /// From a time bucket to an item created in that bucket.
    TimeIndex,
    /// From an original share item to each of its successive versions.
    ShareItemUpdates,
    /// From an original feed to each of its successive versions.
    FeedUpdates,
    /// From a feed to an item shared into it.
    FeedToShare,
    /// From an agent to a feed the agent created.
    AgentToFeed,
    /// From a feed to one of its members.
    FeedToMember,
}

/// An endpoint of an edge: a record address, an agent identity, or a derived
/// time-bucket key.
#[derive(Clone, Copy, Debug, PartialEq, Eq, Structural)]
pub enum Endpoint {
    Record(Address),
    Agent(AgentId),
    Bucket(BucketKey),
}

/// A directed, typed, timestamped edge.  Edges are append-only: deletion
/// tombstones an edge by its address, it is never rewritten.
#[derive(Clone, Copy, Debug, PartialEq, Eq, Structural)]
pub struct Edge {
    /// The edge's own address, assigned by the store; tombstones refer to it.
    pub id: Address,
    pub source: Endpoint,
    pub target: Endpoint,
    pub link_type: LinkTypes,
    pub timestamp: Timestamp,
}

/// An immutable record: one entry content plus store-assigned metadata.
#[derive(Debug, PartialEq, Eq)]
pub struct Record {
    pub address: Address,
    pub author: AgentId,
    pub timestamp: Timestamp,
    pub entry: EntryTypes,
}

/// The validation engine's verdict on a proposed mutation.  A rejection
/// carries a human-readable reason; this is the only error channel for
/// invalid input.
#[derive(Debug, PartialEq, Eq)]
pub enum ValidateCallbackResult {
    Valid,
    Invalid(String),
}

/// A share item enriched with its address, the timestamp of the edge that
/// listed it, and the author of its record.
#[derive(Debug, PartialEq, Eq)]
pub struct ShareItemInfo {
    pub action_hash: Address,
    pub share_item: ShareItem,
    pub created_at: Timestamp,
    pub author: AgentId,
}

/// A feed enriched with its address and the timestamp of the edge that
/// listed it.
#[derive(Debug, PartialEq, Eq)]
pub struct FeedInfo {
    pub action_hash: Address,
    pub feed: Feed,
    pub created_at: Timestamp,
}

/// Inputs of the update, attach, detach and membership operations.
#[derive(Debug, PartialEq, Eq)]
pub struct UpdateFeedInput {
    pub original_feed_hash: Address,
    pub previous_feed_hash: Address,
    pub updated_feed: Feed,
}

#[derive(Debug, PartialEq, Eq)]
pub struct UpdateShareItemInput {
    pub original_share_item_hash: Address,
    pub previous_share_item_hash: Address,
    pub updated_share_item: ShareItem,
}

#[derive(Clone, Copy, Debug, PartialEq, Eq, Structural)]
pub struct AddShareToFeedInput {
    pub feed_hash: Address,
    pub share_item_hash: Address,
}

#[derive(Clone, Copy, Debug, PartialEq, Eq, Structural)]
pub struct RemoveShareFromFeedInput {
    pub link_hash: Address,
}

#[derive(Clone, Copy, Debug, PartialEq, Eq, Structural)]
pub struct AddMemberToFeedInput {
    pub feed_hash: Address,
    pub member_pubkey: AgentId,
}

/// An explicit `(year, week)` bucket to query.
#[derive(Clone, Copy, Debug, PartialEq, Eq, Structural)]
pub struct TimeRangeInput {
    pub year: i64,
    pub week: u32,
}

/// Mathematical image of a [`ShareItem`]: `Vec` fields become sequences, so
/// that two items with the same content are equal as values.
pub ghost struct ShareItemV {
    pub url: String,
    pub title: String,
    pub description: Option<String>,
    pub selection: Option<String>,
    pub favicon: Option<String>,
    pub thumbnail: Option<String>,
    pub tags: Seq<String>,
}

pub ghost struct FeedV {
    pub name: String,
    pub description: Option<String>,
    pub stewards: Seq<AgentId>,
    pub is_public: bool,
}

pub ghost enum EntryV {
    ShareItem(ShareItemV),
    Feed(FeedV),
}

pub ghost struct RecordV {
    pub address: Address,
    pub author: AgentId,
    pub timestamp: Timestamp,
    pub entry: EntryV,
}

pub ghost struct ShareItemInfoV {
    pub action_hash: Address,
    pub share_item: ShareItemV,
    pub created_at: Timestamp,
    pub author: AgentId,
}

pub ghost struct FeedInfoV {
    pub action_hash: Address,
    pub feed: FeedV,
    pub created_at: Timestamp,
}

impl View for ShareItem {
    type V = ShareItemV;

    open spec fn view(&self) -> ShareItemV {
        ShareItemV {
            url: self.url,
            title: self.title,
            description: self.description,
            selection: self.selection,
            favicon: self.favicon,
            thumbnail: self.thumbnail,
            tags: self.tags@,
        }
    }
}

impl View for Feed {
    type V = FeedV;

    open spec fn view(&self) -> FeedV {
        FeedV {
            name: self.name,
            description: self.description,
            stewards: self.stewards@,
            is_public: self.is_public,
        }
    }
}

impl View for EntryTypes {
    type V = EntryV;

    open spec fn view(&self) -> EntryV {
        match self {
            EntryTypes::ShareItem(item) => EntryV::ShareItem(item@),
            EntryTypes::Feed(feed) => EntryV::Feed(feed@),
        }
    }
}

impl View for Record {
    type V = RecordV;

    open spec fn view(&self) -> RecordV {
        RecordV {
            address: self.address,
            author: self.author,
            timestamp: self.timestamp,
            entry: self.entry@,
        }
    }
}

impl View for ShareItemInfo {
    type V = ShareItemInfoV;

    open spec fn view(&self) -> ShareItemInfoV {
        ShareItemInfoV {
            action_hash: self.action_hash,
            share_item: self.share_item@,
            created_at: self.created_at,
            author: self.author,
        }
    }
}

impl View for FeedInfo {
    type V = FeedInfoV;

    open spec fn view(&self) -> FeedInfoV {
        FeedInfoV {
            action_hash: self.action_hash,
            feed: self.feed@,
            created_at: self.created_at,
        }
    }
}

fn clone_opt_string(o: &Option<String>) -> (res: Option<String>)
    ensures
        res == *o,
{
    match o {
        Some(s) => Some(s.clone()),
        None => None,
    }
}

fn clone_string_vec(v: &Vec<String>) -> (res: Vec<String>)
    ensures
        res@ == v@,
{
    let mut out: Vec<String> = Vec::new();
    let mut i: usize = 0;
    while i < v.len()
        invariant
            i <= v.len(),
            out@ =~= v@.take(i as int),
        decreases v.len() - i,
    {
        out.push(v[i].clone());
        i += 1;
    }
    proof {
        assert(out@ =~= v@);
    }
    out
}

pub(crate) fn clone_agent_vec(v: &Vec<AgentId>) -> (res: Vec<AgentId>)
    ensures
        res@ == v@,
{
    let mut out: Vec<AgentId> = Vec::new();
    let mut i: usize = 0;
    while i < v.len()
        invariant
            i <= v.len(),
            out@ =~= v@.take(i as int),
        decreases v.len() - i,
    {
        out.push(v[i]);
        i += 1;
    }
    proof {
        assert(out@ =~= v@);
    }
    out
}

impl Clone for ShareItem {
    /// A clone has the same content, up to the view.
    fn clone(&self) -> (res: Self)
        ensures
            res@ == self@,
    {
        ShareItem {
            url: self.url.clone(),
            title: self.title.clone(),
            description: clone_opt_string(&self.description),
            selection: clone_opt_string(&self.selection),
            favicon: clone_opt_string(&self.favicon),
            thumbnail: clone_opt_string(&self.thumbnail),
            tags: clone_string_vec(&self.tags),
        }
    }
}

impl Clone for Feed {
    /// A clone has the same content, up to the view.
    fn clone(&self) -> (res: Self)
        ensures
            res@ == self@,
    {
        Feed {
            name: self.name.clone(),
            description: clone_opt_string(&self.description),
            stewards: clone_agent_vec(&self.stewards),
            is_public: self.is_public,
        }
    }
}

impl Clone for EntryTypes {
    /// A clone has the same content, up to the view.
    fn clone(&self) -> (res: Self)
        ensures
            res@ == self@,
    {
        match self {
            EntryTypes::ShareItem(item) => EntryTypes::ShareItem(item.clone()),
            EntryTypes::Feed(feed) => EntryTypes::Feed(feed.clone()),
        }
    }
}

impl Clone for Record {
    /// A clone has the same metadata and content, up to the view.
    fn clone(&self) -> (res: Self)
        ensures
            res@ == self@,
    {
        Record {
            address: self.address,
            author: self.author,
            timestamp: self.timestamp,
            entry: self.entry.clone(),
        }
    }
}

} // verus!
