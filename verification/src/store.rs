//! The store: an append-only set of immutable records plus a typed link
//! graph, together with the application operations on it.
//!
//! Every mutating operation routes its proposed mutation through the
//! validation engine first and performs it only on acceptance; the
//! well-formedness invariant [`Store::wf`] records what the engine thereby
//! guarantees of every reachable store.  Deletion never rewrites anything:
//! it appends a tombstone, and reads skip tombstoned records and edges.
//!
//! Reads that follow an edge to a record that is missing or tombstoned skip
//! that entry rather than fail; the update-chain reads fall back to the
//! original address where the chain leads nowhere usable.

use vstd::prelude::*;
use vstd::string::StringExecFns;

use crate::order::{
    infos_view, lemma_sort_desc_of_sorted, lemma_sort_desc_props, sort_by_created_at_desc,
    sort_desc, sorted_desc,
};
use crate::resolve::{latest_target, resolve_latest};
use crate::time_index::{bucket_key, spec_bucket_key, timestamp_seconds};
use crate::types::{
    AddMemberToFeedInput, AddShareToFeedInput, Address, AgentId, BucketKey, Edge, Endpoint,
    EntryTypes, Feed, FeedInfo, FeedInfoV, LinkTypes, Record, RemoveShareFromFeedInput, ShareItem,
    ShareItemInfo, ShareItemInfoV, TimeRangeInput, Timestamp, UpdateFeedInput,
    UpdateShareItemInput, ValidateCallbackResult,
};
use crate::validation::{
    delete_link_allowed, delete_link_reason, entry_valid, feed_reject_reason, feed_valid,
    share_item_reject_reason, share_item_valid, validate, Op,
};

verus! {

/// Querying the current bucket stops short of the previous one when it
/// already holds this many items.
pub const FILL_THRESHOLD: usize = 20;

/// The most recent items query never returns more than this many items.
pub const RECENT_LIMIT: usize = 50;

/// The store: records and edges are append-only; the tombstone lists hold
/// the addresses of deleted records and edges; `next_id` feeds the fresh
/// addresses the store assigns.
pub struct Store {
    pub records: Vec<Record>,
    pub edges: Vec<Edge>,
    pub record_tombstones: Vec<Address>,
    pub edge_tombstones: Vec<Address>,
    pub next_id: u64,
}

/// The first record carrying `address`, tombstones disregarded.
pub open spec fn find_record(records: Seq<Record>, address: Address) -> Option<Record>
    decreases records.len(),
{
    if records.len() == 0 {
        None
    } else if records[0].address == address {
        Some(records[0])
    } else {
        find_record(records.drop_first(), address)
    }
}

/// The first edge carrying `id`, tombstones disregarded.
pub open spec fn find_edge(edges: Seq<Edge>, id: Address) -> Option<Edge>
    decreases edges.len(),
{
    if edges.len() == 0 {
        None
    } else if edges[0].id == id {
        Some(edges[0])
    } else {
        find_edge(edges.drop_first(), id)
    }
}

/// The live edges leaving `source` with type `link_type`, in creation order.
pub open spec fn edges_from(
    edges: Seq<Edge>,
    deleted: Seq<Address>,
    source: Endpoint,
    link_type: LinkTypes,
) -> Seq<Edge>
    decreases edges.len(),
{
    if edges.len() == 0 {
        Seq::empty()
    } else {
        let rest = edges_from(edges.drop_last(), deleted, source, link_type);
        let e = edges.last();
        if e.source == source && e.link_type == link_type && !deleted.contains(e.id) {
            rest.push(e)
        } else {
            rest
        }
    }
}

/// Some record at `address` holds a share item (whether or not tombstoned:
/// record content never disappears, only its visibility does).
pub open spec fn share_item_stored_at(records: Seq<Record>, address: Address) -> bool {
    exists|i: int|
        0 <= i < records.len() && records[i].address == address && records[i].entry
            is ShareItem
}

/// Some record at `address` holds a feed.
pub open spec fn feed_stored_at(records: Seq<Record>, address: Address) -> bool {
    exists|i: int|
        0 <= i < records.len() && records[i].address == address && records[i].entry is Feed
}

/// What the validation engine guarantees of an admitted edge, per type.
pub open spec fn edge_wf(records: Seq<Record>, e: Edge) -> bool {
    match e.link_type {
        LinkTypes::TimeIndex => e.source is Bucket && (e.target matches Endpoint::Record(a)
            && share_item_stored_at(records, a)),
        LinkTypes::ShareItemUpdates => (e.source matches Endpoint::Record(a)
            && share_item_stored_at(records, a)) && (e.target matches Endpoint::Record(b)
            && share_item_stored_at(records, b)),
        LinkTypes::FeedUpdates => (e.source matches Endpoint::Record(a)
            && feed_stored_at(records, a)) && (e.target matches Endpoint::Record(b)
            && feed_stored_at(records, b)),
        LinkTypes::FeedToShare => e.source is Record && (e.target matches Endpoint::Record(a)
            && share_item_stored_at(records, a)),
        LinkTypes::AgentToFeed => e.source is Agent && (e.target matches Endpoint::Record(a)
            && feed_stored_at(records, a)),
        LinkTypes::FeedToMember => e.source is Record && e.target is Agent,
    }
}

/// Update-chain edges are permanent: none of them is ever tombstoned.
pub open spec fn update_link_permanent(e: Edge, deleted: Seq<Address>) -> bool {
    (e.link_type is ShareItemUpdates || e.link_type is FeedUpdates) ==> !deleted.contains(e.id)
}

/// The listings read off a sequence of edges: for each edge whose target is
/// a live share item record, the item with the edge's timestamp and the
/// record's author; anything else is skipped.
pub open spec fn share_infos_v(s: Store, es: Seq<Edge>) -> Seq<ShareItemInfoV>
    decreases es.len(),
{
    if es.len() == 0 {
        Seq::empty()
    } else {
        let rest = share_infos_v(s, es.drop_last());
        let e = es.last();
        match e.target {
            Endpoint::Record(address) => match s.lookup(address) {
                Some(rec) => match rec.entry {
                    EntryTypes::ShareItem(item) => rest.push(
                        ShareItemInfoV {
                            action_hash: address,
                            share_item: item@,
                            created_at: e.timestamp,
                            author: rec.author,
                        },
                    ),
                    _ => rest,
                },
                None => rest,
            },
            _ => rest,
        }
    }
}

/// The feed listings read off a sequence of edges, analogously.
pub open spec fn feed_infos_v(s: Store, es: Seq<Edge>) -> Seq<FeedInfoV>
    decreases es.len(),
{
    if es.len() == 0 {
        Seq::empty()
    } else {
        let rest = feed_infos_v(s, es.drop_last());
        let e = es.last();
        match e.target {
            Endpoint::Record(address) => match s.lookup(address) {
                Some(rec) => match rec.entry {
                    EntryTypes::Feed(feed) => rest.push(
                        FeedInfoV {
                            action_hash: address,
                            feed: feed@,
                            created_at: e.timestamp,
                        },
                    ),
                    _ => rest,
                },
                None => rest,
            },
            _ => rest,
        }
    }
}

/// The views of a sequence of feed listings.
pub open spec fn feed_infos_view(s: Seq<FeedInfo>) -> Seq<FeedInfoV> {
    s.map_values(|x: FeedInfo| x@)
}

/// The agent targets of a sequence of edges, in order; other targets are
/// skipped.
pub open spec fn members_of(es: Seq<Edge>) -> Seq<AgentId>
    decreases es.len(),
{
    if es.len() == 0 {
        Seq::empty()
    } else {
        let rest = members_of(es.drop_last());
        match es.last().target {
            Endpoint::Agent(agent) => rest.push(agent),
            _ => rest,
        }
    }
}

impl Store {
    /// The record at `address` is tombstoned.
    pub open spec fn record_deleted(self, address: Address) -> bool {
        self.record_tombstones@.contains(address)
    }

    /// The edge with address `id` is tombstoned.
    pub open spec fn edge_deleted(self, id: Address) -> bool {
        self.edge_tombstones@.contains(id)
    }

    /// Dereference an address to its live record.
    pub open spec fn lookup(self, address: Address) -> Option<Record> {
        if self.record_deleted(address) {
            None
        } else {
            find_record(self.records@, address)
        }
    }

    /// Dereference an edge address to its live edge.
    pub open spec fn edge_lookup(self, id: Address) -> Option<Edge> {
        if self.edge_deleted(id) {
            None
        } else {
            find_edge(self.edges@, id)
        }
    }

    /// The live edges leaving `source` with type `link_type`.
    pub open spec fn links_from_spec(self, source: Endpoint, link_type: LinkTypes) -> Seq<Edge> {
        edges_from(self.edges@, self.edge_tombstones@, source, link_type)
    }

    /// `address` dereferences to a live share item record.
    pub open spec fn share_item_live_at(self, address: Address) -> bool {
        match self.lookup(address) {
            Some(rec) => rec.entry is ShareItem,
            None => false,
        }
    }

    /// `address` dereferences to a live feed record.
    pub open spec fn feed_live_at(self, address: Address) -> bool {
        match self.lookup(address) {
            Some(rec) => rec.entry is Feed,
            None => false,
        }
    }

    /// The sorted listings of a time bucket.
    pub open spec fn week_shares_spec(self, key: BucketKey) -> Seq<ShareItemInfoV> {
        sort_desc(
            share_infos_v(
                self,
                self.links_from_spec(Endpoint::Bucket(key), LinkTypes::TimeIndex),
            ),
        )
    }

    /// Every reachable store satisfies this: addresses are fresh and unique,
    /// every record content passed the validation engine, every edge has the
    /// endpoint shape its type demands, and no update-chain edge is ever
    /// tombstoned.
    pub open spec fn wf(self) -> bool {
        &&& forall|i: int|
            0 <= i < self.records@.len() ==> (#[trigger] self.records@[i]).address.0
                < self.next_id
        &&& forall|i: int, j: int|
            0 <= i < j < self.records@.len() ==> self.records@[i].address
                != self.records@[j].address
        &&& forall|i: int|
            0 <= i < self.records@.len() ==> entry_valid((#[trigger] self.records@[i]).entry)
        &&& forall|i: int|
            0 <= i < self.edges@.len() ==> (#[trigger] self.edges@[i]).id.0 < self.next_id
        &&& forall|i: int, j: int|
            0 <= i < j < self.edges@.len() ==> self.edges@[i].id != self.edges@[j].id
        &&& forall|i: int|
            0 <= i < self.edges@.len() ==> edge_wf(self.records@, #[trigger] self.edges@[i])
        &&& forall|i: int|
            0 <= i < self.edges@.len() ==> update_link_permanent(
                #[trigger] self.edges@[i],
                self.edge_tombstones@,
            )
        &&& forall|i: int|
            0 <= i < self.edge_tombstones@.len() ==> (#[trigger] self.edge_tombstones@[i]).0
                < self.next_id
    }

    /// An empty store.
    pub fn new() -> (s: Store)
        ensures
            s.wf(),
            s.records@ == Seq::<Record>::empty(),
            s.edges@ == Seq::<Edge>::empty(),
            s.record_tombstones@ == Seq::<Address>::empty(),
            s.edge_tombstones@ == Seq::<Address>::empty(),
            s.next_id == 0,
    {
        Store {
            records: Vec::new(),
            edges: Vec::new(),
            record_tombstones: Vec::new(),
            edge_tombstones: Vec::new(),
            next_id: 0,
        }
    }

    /// Dereference an address to its live record, if any.
    pub fn lookup_record(&self, address: Address) -> (r: Option<&Record>)
        ensures
            match r {
                Some(rec) => self.lookup(address) == Some(*rec),
                None => self.lookup(address) is None,
            },
    {
        if address_in(&self.record_tombstones, address) {
            return None;
        }
        let mut i: usize = 0;
        proof {
            assert(self.records@.skip(0) =~= self.records@);
        }
        while i < self.records.len()
            invariant
                i <= self.records.len(),
                !self.record_tombstones@.contains(address),
                find_record(self.records@, address) == find_record(
                    self.records@.skip(i as int),
                    address,
                ),
            decreases self.records.len() - i,
        {
            proof {
                assert(self.records@.skip(i as int)[0] == self.records@[i as int]);
                assert(self.records@.skip(i as int).drop_first() =~= self.records@.skip(
                    i as int + 1,
                ));
            }
            if self.records[i].address == address {
                proof {
                    assert(find_record(self.records@.skip(i as int), address) == Some(
                        self.records@[i as int],
                    ));
                }
                return Some(&self.records[i]);
            }
            i += 1;
        }
        proof {
            assert(self.records@.skip(self.records@.len() as int) =~= Seq::<Record>::empty());
        }
        None
    }

    /// The live edge at `id`, if any.
    pub fn lookup_edge(&self, id: Address) -> (r: Option<Edge>)
        ensures
            r == self.edge_lookup(id),
    {
        if address_in(&self.edge_tombstones, id) {
            return None;
        }
        let mut i: usize = 0;
        proof {
            assert(self.edges@.skip(0) =~= self.edges@);
        }
        while i < self.edges.len()
            invariant
                i <= self.edges.len(),
                !self.edge_tombstones@.contains(id),
                find_edge(self.edges@, id) == find_edge(self.edges@.skip(i as int), id),
            decreases self.edges.len() - i,
        {
            proof {
                assert(self.edges@.skip(i as int)[0] == self.edges@[i as int]);
                assert(self.edges@.skip(i as int).drop_first() =~= self.edges@.skip(i as int + 1));
            }
            if self.edges[i].id == id {
                proof {
                    assert(find_edge(self.edges@.skip(i as int), id) == Some(
                        self.edges@[i as int],
                    ));
                }
                return Some(self.edges[i]);
            }
            i += 1;
        }
        proof {
            assert(self.edges@.skip(self.edges@.len() as int) =~= Seq::<Edge>::empty());
        }
        None
    }

    /// The live edges leaving `source` with type `link_type`, in creation
    /// order.
    pub fn links_from(&self, source: Endpoint, link_type: LinkTypes) -> (r: Vec<Edge>)
        ensures
            r@ == self.links_from_spec(source, link_type),
    {
        let mut out: Vec<Edge> = Vec::new();
        let mut i: usize = 0;
        while i < self.edges.len()
            invariant
                i <= self.edges.len(),
                out@ == edges_from(
                    self.edges@.take(i as int),
                    self.edge_tombstones@,
                    source,
                    link_type,
                ),
            decreases self.edges.len() - i,
        {
            let e = self.edges[i];
            if e.source == source && e.link_type == link_type && !address_in(
                &self.edge_tombstones,
                e.id,
            ) {
                out.push(e);
            }
            proof {
                let taken = self.edges@.take(i as int + 1);
                assert(taken.drop_last() =~= self.edges@.take(i as int));
                assert(taken.last() == self.edges@[i as int]);
            }
            i += 1;
        }
        proof {
            assert(self.edges@.take(self.edges@.len() as int) =~= self.edges@);
        }
        out
    }

    /// Dereference each edge's target and keep the live share items, with
    /// the edge's timestamp and the record's author.
    fn collect_share_infos(&self, links: &Vec<Edge>) -> (r: Vec<ShareItemInfo>)
        ensures
            infos_view(r@) == share_infos_v(*self, links@),
    {
        let mut out: Vec<ShareItemInfo> = Vec::new();
        let mut i: usize = 0;
        while i < links.len()
            invariant
                i <= links.len(),
                infos_view(out@) == share_infos_v(*self, links@.take(i as int)),
            decreases links.len() - i,
        {
            let e = links[i];
            let ghost before = infos_view(out@);
            match e.target {
                Endpoint::Record(address) => match self.lookup_record(address) {
                    Some(rec) => match &rec.entry {
                        EntryTypes::ShareItem(item) => {
                            let info = ShareItemInfo {
                                action_hash: address,
                                share_item: item.clone(),
                                created_at: e.timestamp,
                                author: rec.author,
                            };
                            proof {
                                assert(infos_view(out@.push(info)) =~= before.push(info@));
                            }
                            out.push(info);
                        },
                        _ => {},
                    },
                    None => {},
                },
                _ => {},
            }
            proof {
                let taken = links@.take(i as int + 1);
                assert(taken.drop_last() =~= links@.take(i as int));
                assert(taken.last() == links@[i as int]);
            }
            i += 1;
        }
        proof {
            assert(links@.take(links@.len() as int) =~= links@);
        }
        out
    }

    /// Dereference each edge's target and keep the live feeds.
    fn collect_feed_infos(&self, links: &Vec<Edge>) -> (r: Vec<FeedInfo>)
        ensures
            feed_infos_view(r@) == feed_infos_v(*self, links@),
    {
        let mut out: Vec<FeedInfo> = Vec::new();
        let mut i: usize = 0;
        while i < links.len()
            invariant
                i <= links.len(),
                feed_infos_view(out@) == feed_infos_v(*self, links@.take(i as int)),
            decreases links.len() - i,
        {
            let e = links[i];
            let ghost before = feed_infos_view(out@);
            match e.target {
                Endpoint::Record(address) => match self.lookup_record(address) {
                    Some(rec) => match &rec.entry {
                        EntryTypes::Feed(feed) => {
                            let info = FeedInfo {
                                action_hash: address,
                                feed: feed.clone(),
                                created_at: e.timestamp,
                            };
                            proof {
                                assert(feed_infos_view(out@.push(info)) =~= before.push(info@));
                            }
                            out.push(info);
                        },
                        _ => {},
                    },
                    None => {},
                },
                _ => {},
            }
            proof {
                let taken = links@.take(i as int + 1);
                assert(taken.drop_last() =~= links@.take(i as int));
                assert(taken.last() == links@[i as int]);
            }
            i += 1;
        }
        proof {
            assert(links@.take(links@.len() as int) =~= links@);
        }
        out
    }

    /// The current version of the feed created at `original_feed_hash`:
    /// follow the update chain, then dereference.
    pub fn get_feed(&self, original_feed_hash: Address) -> (r: Option<Record>)
        ensures
            ({
                let latest = latest_target(
                    original_feed_hash,
                    self.links_from_spec(
                        Endpoint::Record(original_feed_hash),
                        LinkTypes::FeedUpdates,
                    ),
                );
                match r {
                    Some(rec) => self.lookup(latest) matches Some(stored) && rec@ == stored@,
                    None => self.lookup(latest) is None,
                }
            }),
    {
        let links = self.links_from(Endpoint::Record(original_feed_hash), LinkTypes::FeedUpdates);
        let latest = resolve_latest(original_feed_hash, &links);
        match self.lookup_record(latest) {
            Some(rec) => Some(rec.clone()),
            None => None,
        }
    }

    /// The current version of the share item created at
    /// `original_share_item_hash`.
    pub fn get_share_item(&self, original_share_item_hash: Address) -> (r: Option<Record>)
        ensures
            ({
                let latest = latest_target(
                    original_share_item_hash,
                    self.links_from_spec(
                        Endpoint::Record(original_share_item_hash),
                        LinkTypes::ShareItemUpdates,
                    ),
                );
                match r {
                    Some(rec) => self.lookup(latest) matches Some(stored) && rec@ == stored@,
                    None => self.lookup(latest) is None,
                }
            }),
    {
        let links = self.links_from(
            Endpoint::Record(original_share_item_hash),
            LinkTypes::ShareItemUpdates,
        );
        let latest = resolve_latest(original_share_item_hash, &links);
        match self.lookup_record(latest) {
            Some(rec) => Some(rec.clone()),
            None => None,
        }
    }

    /// The items shared into a feed, newest attachment first.
    pub fn get_feed_shares(&self, feed_hash: Address) -> (r: Vec<ShareItemInfo>)
        ensures
            infos_view(r@) == sort_desc(
                share_infos_v(
                    *self,
                    self.links_from_spec(Endpoint::Record(feed_hash), LinkTypes::FeedToShare),
                ),
            ),
    {
        let links = self.links_from(Endpoint::Record(feed_hash), LinkTypes::FeedToShare);
        let share_items = self.collect_share_infos(&links);
        sort_by_created_at_desc(share_items)
    }

    /// The feeds created by `author`, in creation order.
    pub fn get_my_feeds(&self, author: AgentId) -> (r: Vec<FeedInfo>)
        ensures
            feed_infos_view(r@) == feed_infos_v(
                *self,
                self.links_from_spec(Endpoint::Agent(author), LinkTypes::AgentToFeed),
            ),
    {
        let links = self.links_from(Endpoint::Agent(author), LinkTypes::AgentToFeed);
        self.collect_feed_infos(&links)
    }

    /// The members of a feed, in the order they were added.
    pub fn get_feed_members(&self, feed_hash: Address) -> (r: Vec<AgentId>)
        ensures
            r@ == members_of(
                self.links_from_spec(Endpoint::Record(feed_hash), LinkTypes::FeedToMember),
            ),
    {
        let links = self.links_from(Endpoint::Record(feed_hash), LinkTypes::FeedToMember);
        let mut out: Vec<AgentId> = Vec::new();
        let mut i: usize = 0;
        while i < links.len()
            invariant
                i <= links.len(),
                out@ == members_of(links@.take(i as int)),
            decreases links.len() - i,
        {
            match links[i].target {
                Endpoint::Agent(agent) => out.push(agent),
                _ => {},
            }
            proof {
                let taken = links@.take(i as int + 1);
                assert(taken.drop_last() =~= links@.take(i as int));
                assert(taken.last() == links@[i as int]);
            }
            i += 1;
        }
        proof {
            assert(links@.take(links@.len() as int) =~= links@);
        }
        out
    }

    /// The items indexed under an explicit `(year, week)` bucket, newest
    /// first.
    pub fn get_shares_for_week(&self, input: TimeRangeInput) -> (r: Vec<ShareItemInfo>)
        ensures
            infos_view(r@) == self.week_shares_spec(
                BucketKey { year: input.year, week: input.week },
            ),
    {
        let links = self.links_from(
            Endpoint::Bucket(BucketKey { year: input.year, week: input.week }),
            LinkTypes::TimeIndex,
        );
        let share_items = self.collect_share_infos(&links);
        sort_by_created_at_desc(share_items)
    }
}

impl Store {
    /// Create a share item: validate its content, store it, and index it
    /// under the time bucket of `now`.  On rejection nothing changes.
    pub fn create_share_item(&mut self, author: AgentId, now: Timestamp, share_item: ShareItem) -> (r:
        Result<Record, String>)
        requires
            old(self).wf(),
            now.0 >= 0,
            old(self).next_id + 2 <= u64::MAX,
        ensures
            final(self).wf(),
            !share_item_valid(share_item) ==> {
                &&& *final(self) == *old(self)
                &&& r matches Err(m) && m@ == share_item_reject_reason(share_item)
            },
            share_item_valid(share_item) ==> ({
                let address = Address(old(self).next_id);
                let rec = Record {
                    address,
                    author,
                    timestamp: now,
                    entry: EntryTypes::ShareItem(share_item),
                };
                let edge = Edge {
                    id: Address((old(self).next_id + 1) as u64),
                    source: Endpoint::Bucket(spec_bucket_key(timestamp_seconds(now))),
                    target: Endpoint::Record(address),
                    link_type: LinkTypes::TimeIndex,
                    timestamp: now,
                };
                &&& final(self).records@ == old(self).records@.push(rec)
                &&& final(self).edges@ == old(self).edges@.push(edge)
                &&& final(self).record_tombstones@ == old(self).record_tombstones@
                &&& final(self).edge_tombstones@ == old(self).edge_tombstones@
                &&& final(self).next_id == old(self).next_id + 2
                &&& r matches Ok(ret) && ret@ == rec@
            }),
    {
        let entry = EntryTypes::ShareItem(share_item);
        let verdict = validate(&Op::StoreEntry { entry: &entry });
        match verdict {
            ValidateCallbackResult::Invalid(m) => {
                return Err(m);
            },
            ValidateCallbackResult::Valid => {},
        }
        let address = Address(self.next_id);
        let key = bucket_key(now);
        let record = Record { address, author, timestamp: now, entry };
        let ret = record.clone();
        let edge = Edge {
            id: Address(self.next_id + 1),
            source: Endpoint::Bucket(key),
            target: Endpoint::Record(address),
            link_type: LinkTypes::TimeIndex,
            timestamp: now,
        };
        let ghost grec = record;
        let ghost gedge = edge;
        self.records.push(record);
        self.edges.push(edge);
        self.next_id = self.next_id + 2;
        proof {
            assert(self.records@ =~= old(self).records@ + seq![grec]);
            assert(self.edges@ =~= old(self).edges@ + seq![gedge]);
            assert(share_item_stored_at(self.records@, address)) by {
                assert(self.records@[self.records@.len() - 1] == grec);
            }
            lemma_wf_extend(*old(self), *self, seq![grec], seq![gedge]);
        }
        Ok(ret)
    }

    /// Create a feed: validate its content, store it, link it from its
    /// creating agent, and link it to every declared steward as a member.
    /// On rejection nothing changes.
    pub fn create_feed(&mut self, author: AgentId, now: Timestamp, feed: Feed) -> (r: Result<
        Record,
        String,
    >)
        requires
            old(self).wf(),
            old(self).next_id + 2 + feed.stewards@.len() <= u64::MAX,
        ensures
            final(self).wf(),
            !feed_valid(feed) ==> {
                &&& *final(self) == *old(self)
                &&& r matches Err(m) && m@ == feed_reject_reason(feed)
            },
            feed_valid(feed) ==> ({
                let address = Address(old(self).next_id);
                let rec = Record { address, author, timestamp: now, entry: EntryTypes::Feed(feed) };
                let agent_edge = Edge {
                    id: Address((old(self).next_id + 1) as u64),
                    source: Endpoint::Agent(author),
                    target: Endpoint::Record(address),
                    link_type: LinkTypes::AgentToFeed,
                    timestamp: now,
                };
                &&& final(self).records@ == old(self).records@.push(rec)
                &&& final(self).edges@ == old(self).edges@.push(agent_edge) + member_edges(
                    address,
                    feed.stewards@,
                    now,
                    old(self).next_id + 2,
                )
                &&& final(self).record_tombstones@ == old(self).record_tombstones@
                &&& final(self).edge_tombstones@ == old(self).edge_tombstones@
                &&& final(self).next_id == old(self).next_id + 2 + feed.stewards@.len()
                &&& r matches Ok(ret) && ret@ == rec@
            }),
    {
        let stewards_list = crate::types::clone_agent_vec(&feed.stewards);
        let ghost stewards_seq = feed.stewards@;
        let entry = EntryTypes::Feed(feed);
        let verdict = validate(&Op::StoreEntry { entry: &entry });
        match verdict {
            ValidateCallbackResult::Invalid(m) => {
                return Err(m);
            },
            ValidateCallbackResult::Valid => {},
        }
        let base: u64 = self.next_id;
        let address = Address(base);
        let record = Record { address, author, timestamp: now, entry };
        let ret = record.clone();
        let agent_edge = Edge {
            id: Address(base + 1),
            source: Endpoint::Agent(author),
            target: Endpoint::Record(address),
            link_type: LinkTypes::AgentToFeed,
            timestamp: now,
        };
        let ghost grec = record;
        let ghost gagent = agent_edge;
        self.records.push(record);
        self.edges.push(agent_edge);
        proof {
            assert(member_edges(address, stewards_seq.take(0), now, base + 2 as int)
                =~= Seq::<Edge>::empty());
            assert(self.edges@ =~= old(self).edges@.push(gagent) + member_edges(
                address,
                stewards_seq.take(0),
                now,
                base + 2 as int,
            ));
        }
        let mut k: usize = 0;
        while k < stewards_list.len()
            invariant
                k <= stewards_list.len(),
                stewards_list@ == stewards_seq,
                base == old(self).next_id,
                base + 2 + stewards_seq.len() <= u64::MAX,
                self.next_id == base,
                address == Address(base),
                self.records@ == old(self).records@.push(grec),
                self.record_tombstones@ == old(self).record_tombstones@,
                self.edge_tombstones@ == old(self).edge_tombstones@,
                self.edges@ == old(self).edges@.push(gagent) + member_edges(
                    address,
                    stewards_seq.take(k as int),
                    now,
                    base + 2 as int,
                ),
            decreases stewards_list.len() - k,
        {
            let steward = stewards_list[k];
            let member_edge = Edge {
                id: Address(base + 2 + (k as u64)),
                source: Endpoint::Record(address),
                target: Endpoint::Agent(steward),
                link_type: LinkTypes::FeedToMember,
                timestamp: now,
            };
            self.edges.push(member_edge);
            proof {
                let taken = stewards_seq.take(k as int + 1);
                assert(taken.drop_last() =~= stewards_seq.take(k as int));
                assert(taken.last() == stewards_seq[k as int]);
                assert(self.edges@ =~= old(self).edges@.push(gagent) + member_edges(
                    address,
                    taken,
                    now,
                    base + 2 as int,
                ));
            }
            k += 1;
        }
        self.next_id = base + 2 + (stewards_list.len() as u64);
        proof {
            assert(stewards_seq.take(stewards_seq.len() as int) =~= stewards_seq);
            let members = member_edges(address, stewards_seq, now, base + 2 as int);
            lemma_member_edges_shape(address, stewards_seq, now, base + 2 as int);
            assert(self.records@ =~= old(self).records@ + seq![grec]);
            assert(self.edges@ =~= old(self).edges@ + (seq![gagent] + members));
            assert(feed_stored_at(self.records@, address)) by {
                assert(self.records@[self.records@.len() - 1] == grec);
            }
            let new_edges = seq![gagent] + members;
            assert forall|i: int| 0 <= i < new_edges.len() implies edge_wf(
                self.records@,
                #[trigger] new_edges[i],
            ) by {
                if i > 0 {
                    assert(new_edges[i] == members[i - 1]);
                }
            }
            lemma_wf_extend(*old(self), *self, seq![grec], new_edges);
        }
        Ok(ret)
    }
}

impl Store {
    /// Update a share item: the new content is held to the creation rules,
    /// stored as a record of its own, and linked from the original by a
    /// `ShareItemUpdates` edge.  The previous version must dereference; if
    /// the original does not dereference to a share item, the new record is
    /// stored but the update edge is refused — a partially applied
    /// operation, which callers of this interface must tolerate.
    pub fn update_share_item(
        &mut self,
        author: AgentId,
        now: Timestamp,
        input: UpdateShareItemInput,
    ) -> (r: Result<Record, String>)
        requires
            old(self).wf(),
            old(self).next_id + 2 <= u64::MAX,
        ensures
            final(self).wf(),
            ({
                let item = input.updated_share_item;
                let address = Address(old(self).next_id);
                let rec = Record {
                    address,
                    author,
                    timestamp: now,
                    entry: EntryTypes::ShareItem(item),
                };
                let chain_edge = Edge {
                    id: Address((old(self).next_id + 1) as u64),
                    source: Endpoint::Record(input.original_share_item_hash),
                    target: Endpoint::Record(address),
                    link_type: LinkTypes::ShareItemUpdates,
                    timestamp: now,
                };
                if !share_item_valid(item) {
                    &&& *final(self) == *old(self)
                    &&& r matches Err(m) && m@ == share_item_reject_reason(item)
                } else if old(self).lookup(input.previous_share_item_hash) is None {
                    &&& *final(self) == *old(self)
                    &&& r matches Err(m) && m@ == "Record not found"@
                } else if !old(self).share_item_live_at(input.original_share_item_hash) {
                    &&& final(self).records@ == old(self).records@.push(rec)
                    &&& final(self).edges@ == old(self).edges@
                    &&& final(self).record_tombstones@ == old(self).record_tombstones@
                    &&& final(self).edge_tombstones@ == old(self).edge_tombstones@
                    &&& final(self).next_id == old(self).next_id + 1
                    &&& r matches Err(m) && m@ == "Linked action must reference an entry"@
                } else {
                    &&& final(self).records@ == old(self).records@.push(rec)
                    &&& final(self).edges@ == old(self).edges@.push(chain_edge)
                    &&& final(self).record_tombstones@ == old(self).record_tombstones@
                    &&& final(self).edge_tombstones@ == old(self).edge_tombstones@
                    &&& final(self).next_id == old(self).next_id + 2
                    &&& r matches Ok(ret) && ret@ == rec@
                }
            }),
    {
        let entry = EntryTypes::ShareItem(input.updated_share_item);
        let verdict = validate(&Op::StoreEntry { entry: &entry });
        match verdict {
            ValidateCallbackResult::Invalid(m) => {
                return Err(m);
            },
            ValidateCallbackResult::Valid => {},
        }
        match self.lookup_record(input.previous_share_item_hash) {
            None => {
                return Err(String::from_str("Record not found"));
            },
            Some(_) => {},
        }
        let link_verdict = {
            let base = self.lookup_record(input.original_share_item_hash);
            let base_entry = match base {
                Some(rec) => Some(&rec.entry),
                None => None,
            };
            validate(
                &Op::RegisterCreateLink {
                    link_type: LinkTypes::ShareItemUpdates,
                    base: base_entry,
                    target: Some(&entry),
                },
            )
        };
        let address = Address(self.next_id);
        let record = Record { address, author, timestamp: now, entry };
        let ret = record.clone();
        let ghost grec = record;
        self.records.push(record);
        match link_verdict {
            ValidateCallbackResult::Invalid(m) => {
                self.next_id = self.next_id + 1;
                proof {
                    assert(self.records@ =~= old(self).records@ + seq![grec]);
                    assert(self.edges@ =~= old(self).edges@ + Seq::<Edge>::empty());
                    lemma_wf_extend(*old(self), *self, seq![grec], Seq::empty());
                }
                return Err(m);
            },
            ValidateCallbackResult::Valid => {},
        }
        let chain_edge = Edge {
            id: Address(self.next_id + 1),
            source: Endpoint::Record(input.original_share_item_hash),
            target: Endpoint::Record(address),
            link_type: LinkTypes::ShareItemUpdates,
            timestamp: now,
        };
        let ghost gedge = chain_edge;
        self.edges.push(chain_edge);
        self.next_id = self.next_id + 2;
        proof {
            assert(self.records@ =~= old(self).records@ + seq![grec]);
            assert(self.edges@ =~= old(self).edges@ + seq![gedge]);
            assert(share_item_stored_at(self.records@, address)) by {
                assert(self.records@[self.records@.len() - 1] == grec);
            }
            assert(share_item_stored_at(self.records@, input.original_share_item_hash)) by {
                lemma_find_record_is_stored(old(self).records@, input.original_share_item_hash);
                let rec = find_record(
                    old(self).records@,
                    input.original_share_item_hash,
                ).unwrap();
                let i = choose|i: int|
                    0 <= i < old(self).records@.len() && old(self).records@[i] == rec;
                assert(self.records@[i] == rec);
            }
            lemma_wf_extend(*old(self), *self, seq![grec], seq![gedge]);
        }
        Ok(ret)
    }

    /// Update a feed, exactly as [`Store::update_share_item`] updates a
    /// share item.
    pub fn update_feed(&mut self, author: AgentId, now: Timestamp, input: UpdateFeedInput) -> (r:
        Result<Record, String>)
        requires
            old(self).wf(),
            old(self).next_id + 2 <= u64::MAX,
        ensures
            final(self).wf(),
            ({
                let feed = input.updated_feed;
                let address = Address(old(self).next_id);
                let rec = Record { address, author, timestamp: now, entry: EntryTypes::Feed(feed) };
                let chain_edge = Edge {
                    id: Address((old(self).next_id + 1) as u64),
                    source: Endpoint::Record(input.original_feed_hash),
                    target: Endpoint::Record(address),
                    link_type: LinkTypes::FeedUpdates,
                    timestamp: now,
                };
                if !feed_valid(feed) {
                    &&& *final(self) == *old(self)
                    &&& r matches Err(m) && m@ == feed_reject_reason(feed)
                } else if old(self).lookup(input.previous_feed_hash) is None {
                    &&& *final(self) == *old(self)
                    &&& r matches Err(m) && m@ == "Record not found"@
                } else if !old(self).feed_live_at(input.original_feed_hash) {
                    &&& final(self).records@ == old(self).records@.push(rec)
                    &&& final(self).edges@ == old(self).edges@
                    &&& final(self).record_tombstones@ == old(self).record_tombstones@
                    &&& final(self).edge_tombstones@ == old(self).edge_tombstones@
                    &&& final(self).next_id == old(self).next_id + 1
                    &&& r matches Err(m) && m@ == "Linked action must reference an entry"@
                } else {
                    &&& final(self).records@ == old(self).records@.push(rec)
                    &&& final(self).edges@ == old(self).edges@.push(chain_edge)
                    &&& final(self).record_tombstones@ == old(self).record_tombstones@
                    &&& final(self).edge_tombstones@ == old(self).edge_tombstones@
                    &&& final(self).next_id == old(self).next_id + 2
                    &&& r matches Ok(ret) && ret@ == rec@
                }
            }),
    {
        let entry = EntryTypes::Feed(input.updated_feed);
        let verdict = validate(&Op::StoreEntry { entry: &entry });
        match verdict {
            ValidateCallbackResult::Invalid(m) => {
                return Err(m);
            },
            ValidateCallbackResult::Valid => {},
        }
        match self.lookup_record(input.previous_feed_hash) {
            None => {
                return Err(String::from_str("Record not found"));
            },
            Some(_) => {},
        }
        let link_verdict = {
            let base = self.lookup_record(input.original_feed_hash);
            let base_entry = match base {
                Some(rec) => Some(&rec.entry),
                None => None,
            };
            validate(
                &Op::RegisterCreateLink {
                    link_type: LinkTypes::FeedUpdates,
                    base: base_entry,
                    target: Some(&entry),
                },
            )
        };
        let address = Address(self.next_id);
        let record = Record { address, author, timestamp: now, entry };
        let ret = record.clone();
        let ghost grec = record;
        self.records.push(record);
        match link_verdict {
            ValidateCallbackResult::Invalid(m) => {
                self.next_id = self.next_id + 1;
                proof {
                    assert(self.records@ =~= old(self).records@ + seq![grec]);
                    assert(self.edges@ =~= old(self).edges@ + Seq::<Edge>::empty());
                    lemma_wf_extend(*old(self), *self, seq![grec], Seq::empty());
                }
                return Err(m);
            },
            ValidateCallbackResult::Valid => {},
        }
        let chain_edge = Edge {
            id: Address(self.next_id + 1),
            source: Endpoint::Record(input.original_feed_hash),
            target: Endpoint::Record(address),
            link_type: LinkTypes::FeedUpdates,
            timestamp: now,
        };
        let ghost gedge = chain_edge;
        self.edges.push(chain_edge);
        self.next_id = self.next_id + 2;
        proof {
            assert(self.records@ =~= old(self).records@ + seq![grec]);
            assert(self.edges@ =~= old(self).edges@ + seq![gedge]);
            assert(feed_stored_at(self.records@, address)) by {
                assert(self.records@[self.records@.len() - 1] == grec);
            }
            assert(feed_stored_at(self.records@, input.original_feed_hash)) by {
                lemma_find_record_is_stored(old(self).records@, input.original_feed_hash);
                let rec = find_record(old(self).records@, input.original_feed_hash).unwrap();
                let i = choose|i: int|
                    0 <= i < old(self).records@.len() && old(self).records@[i] == rec;
                assert(self.records@[i] == rec);
            }
            lemma_wf_extend(*old(self), *self, seq![grec], seq![gedge]);
        }
        Ok(ret)
    }

    /// Delete a share item record: always accepted by the engine; the
    /// record is tombstoned and the address of the delete marker returned.
    /// Deleting an address that does not dereference is refused.
    pub fn delete_share_item(&mut self, original_share_item_hash: Address) -> (r: Result<
        Address,
        String,
    >)
        requires
            old(self).wf(),
            old(self).next_id + 1 <= u64::MAX,
        ensures
            final(self).wf(),
            old(self).lookup(original_share_item_hash) is None ==> {
                &&& *final(self) == *old(self)
                &&& r matches Err(m) && m@ == "Record not found"@
            },
            old(self).lookup(original_share_item_hash) is Some ==> {
                &&& final(self).records@ == old(self).records@
                &&& final(self).edges@ == old(self).edges@
                &&& final(self).record_tombstones@ == old(self).record_tombstones@.push(
                    original_share_item_hash,
                )
                &&& final(self).edge_tombstones@ == old(self).edge_tombstones@
                &&& final(self).next_id == old(self).next_id + 1
                &&& r == Ok::<Address, String>(Address(old(self).next_id))
            },
    {
        match self.lookup_record(original_share_item_hash) {
            None => {
                return Err(String::from_str("Record not found"));
            },
            Some(_) => {},
        }
        let verdict = validate(&Op::RegisterDelete);
        match verdict {
            ValidateCallbackResult::Invalid(m) => {
                return Err(m);
            },
            ValidateCallbackResult::Valid => {},
        }
        let marker = Address(self.next_id);
        self.record_tombstones.push(original_share_item_hash);
        self.next_id = self.next_id + 1;
        proof {
            assert(self.records@ =~= old(self).records@ + Seq::<Record>::empty());
            assert(self.edges@ =~= old(self).edges@ + Seq::<Edge>::empty());
            lemma_wf_extend(*old(self), *self, Seq::empty(), Seq::empty());
        }
        Ok(marker)
    }

    /// Delete a feed record, exactly as [`Store::delete_share_item`].
    pub fn delete_feed(&mut self, original_feed_hash: Address) -> (r: Result<Address, String>)
        requires
            old(self).wf(),
            old(self).next_id + 1 <= u64::MAX,
        ensures
            final(self).wf(),
            old(self).lookup(original_feed_hash) is None ==> {
                &&& *final(self) == *old(self)
                &&& r matches Err(m) && m@ == "Record not found"@
            },
            old(self).lookup(original_feed_hash) is Some ==> {
                &&& final(self).records@ == old(self).records@
                &&& final(self).edges@ == old(self).edges@
                &&& final(self).record_tombstones@ == old(self).record_tombstones@.push(
                    original_feed_hash,
                )
                &&& final(self).edge_tombstones@ == old(self).edge_tombstones@
                &&& final(self).next_id == old(self).next_id + 1
                &&& r == Ok::<Address, String>(Address(old(self).next_id))
            },
    {
        match self.lookup_record(original_feed_hash) {
            None => {
                return Err(String::from_str("Record not found"));
            },
            Some(_) => {},
        }
        let verdict = validate(&Op::RegisterDelete);
        match verdict {
            ValidateCallbackResult::Invalid(m) => {
                return Err(m);
            },
            ValidateCallbackResult::Valid => {},
        }
        let marker = Address(self.next_id);
        self.record_tombstones.push(original_feed_hash);
        self.next_id = self.next_id + 1;
        proof {
            assert(self.records@ =~= old(self).records@ + Seq::<Record>::empty());
            assert(self.edges@ =~= old(self).edges@ + Seq::<Edge>::empty());
            lemma_wf_extend(*old(self), *self, Seq::empty(), Seq::empty());
        }
        Ok(marker)
    }

    /// Attach a share item to a feed: the item must dereference to a live
    /// share item record; the feed end is not re-validated.
    pub fn add_share_to_feed(&mut self, now: Timestamp, input: AddShareToFeedInput) -> (r: Result<
        (),
        String,
    >)
        requires
            old(self).wf(),
            old(self).next_id + 1 <= u64::MAX,
        ensures
            final(self).wf(),
            !old(self).share_item_live_at(input.share_item_hash) ==> {
                &&& *final(self) == *old(self)
                &&& r matches Err(m) && m@ == "Linked action must reference a ShareItem entry"@
            },
            old(self).share_item_live_at(input.share_item_hash) ==> {
                &&& final(self).edges@ == old(self).edges@.push(
                    Edge {
                        id: Address(old(self).next_id),
                        source: Endpoint::Record(input.feed_hash),
                        target: Endpoint::Record(input.share_item_hash),
                        link_type: LinkTypes::FeedToShare,
                        timestamp: now,
                    },
                )
                &&& final(self).records@ == old(self).records@
                &&& final(self).record_tombstones@ == old(self).record_tombstones@
                &&& final(self).edge_tombstones@ == old(self).edge_tombstones@
                &&& final(self).next_id == old(self).next_id + 1
                &&& r is Ok
            },
    {
        let link_verdict = {
            let target = self.lookup_record(input.share_item_hash);
            let target_entry = match target {
                Some(rec) => Some(&rec.entry),
                None => None,
            };
            validate(
                &Op::RegisterCreateLink {
                    link_type: LinkTypes::FeedToShare,
                    base: None,
                    target: target_entry,
                },
            )
        };
        match link_verdict {
            ValidateCallbackResult::Invalid(m) => {
                return Err(m);
            },
            ValidateCallbackResult::Valid => {},
        }
        let edge = Edge {
            id: Address(self.next_id),
            source: Endpoint::Record(input.feed_hash),
            target: Endpoint::Record(input.share_item_hash),
            link_type: LinkTypes::FeedToShare,
            timestamp: now,
        };
        let ghost gedge = edge;
        self.edges.push(edge);
        self.next_id = self.next_id + 1;
        proof {
            assert(self.records@ =~= old(self).records@ + Seq::<Record>::empty());
            assert(self.edges@ =~= old(self).edges@ + seq![gedge]);
            assert(share_item_stored_at(self.records@, input.share_item_hash)) by {
                lemma_find_record_is_stored(old(self).records@, input.share_item_hash);
                let rec = find_record(old(self).records@, input.share_item_hash).unwrap();
                let i = choose|i: int|
                    0 <= i < old(self).records@.len() && old(self).records@[i] == rec;
                assert(self.records@[i] == rec);
            }
            lemma_wf_extend(*old(self), *self, Seq::empty(), seq![gedge]);
        }
        Ok(())
    }

    /// Detach the edge at `link_hash`, whatever its type, where the engine
    /// allows it: update-chain edges are refused, everything else is
    /// tombstoned.
    pub fn remove_share_from_feed(&mut self, input: RemoveShareFromFeedInput) -> (r: Result<
        (),
        String,
    >)
        requires
            old(self).wf(),
        ensures
            final(self).wf(),
            old(self).edge_lookup(input.link_hash) is None ==> {
                &&& *final(self) == *old(self)
                &&& r matches Err(m) && m@ == "Link not found"@
            },
            old(self).edge_lookup(input.link_hash) matches Some(e) ==> {
                &&& !delete_link_allowed(e.link_type) ==> {
                    &&& *final(self) == *old(self)
                    &&& r matches Err(m) && m@ == delete_link_reason(e.link_type)
                }
                &&& delete_link_allowed(e.link_type) ==> {
                    &&& final(self).edge_tombstones@ == old(self).edge_tombstones@.push(
                        input.link_hash,
                    )
                    &&& final(self).records@ == old(self).records@
                    &&& final(self).edges@ == old(self).edges@
                    &&& final(self).record_tombstones@ == old(self).record_tombstones@
                    &&& final(self).next_id == old(self).next_id
                    &&& r is Ok
                }
            },
    {
        let found = self.lookup_edge(input.link_hash);
        let e = match found {
            None => {
                return Err(String::from_str("Link not found"));
            },
            Some(e) => e,
        };
        let verdict = validate(&Op::RegisterDeleteLink { link_type: e.link_type });
        match verdict {
            ValidateCallbackResult::Invalid(m) => {
                return Err(m);
            },
            ValidateCallbackResult::Valid => {},
        }
        self.edge_tombstones.push(input.link_hash);
        proof {
            lemma_find_edge_is_stored(old(self).edges@, input.link_hash);
            let i0 = choose|i: int| 0 <= i < old(self).edges@.len() && old(self).edges@[i] == e;
            assert forall|i: int| 0 <= i < self.edge_tombstones@.len() implies (
            #[trigger] self.edge_tombstones@[i]).0 < self.next_id by {
                if i < old(self).edge_tombstones@.len() {
                    assert(self.edge_tombstones@[i] == old(self).edge_tombstones@[i]);
                } else {
                    assert(self.edge_tombstones@[i] == input.link_hash);
                    assert(old(self).edges@[i0].id.0 < old(self).next_id);
                }
            }
            assert forall|i: int| 0 <= i < self.edges@.len() implies update_link_permanent(
                #[trigger] self.edges@[i],
                self.edge_tombstones@,
            ) by {
                if self.edges@[i].link_type is ShareItemUpdates || self.edges@[i].link_type
                    is FeedUpdates {
                    assert(!old(self).edge_tombstones@.contains(self.edges@[i].id));
                    assert(self.edges@[i].id != input.link_hash) by {
                        if self.edges@[i].id == input.link_hash {
                            if i < i0 {
                                assert(old(self).edges@[i].id != old(self).edges@[i0].id);
                            } else if i0 < i {
                                assert(old(self).edges@[i0].id != old(self).edges@[i].id);
                            }
                        }
                    }
                    assert(!self.edge_tombstones@.contains(self.edges@[i].id)) by {
                        if self.edge_tombstones@.contains(self.edges@[i].id) {
                            let j = choose|j: int|
                                0 <= j < self.edge_tombstones@.len() && self.edge_tombstones@[j]
                                    == self.edges@[i].id;
                            if j < old(self).edge_tombstones@.len() {
                                assert(old(self).edge_tombstones@.contains(self.edges@[i].id)) by {
                                    assert(old(self).edge_tombstones@[j] == self.edges@[i].id);
                                }
                            }
                        }
                    }
                }
            }
        }
        Ok(())
    }

    /// Add a member to a feed: no structural validation, always accepted.
    pub fn add_member_to_feed(&mut self, now: Timestamp, input: AddMemberToFeedInput) -> (r:
        Result<(), String>)
        requires
            old(self).wf(),
            old(self).next_id + 1 <= u64::MAX,
        ensures
            final(self).wf(),
            final(self).edges@ == old(self).edges@.push(
                Edge {
                    id: Address(old(self).next_id),
                    source: Endpoint::Record(input.feed_hash),
                    target: Endpoint::Agent(input.member_pubkey),
                    link_type: LinkTypes::FeedToMember,
                    timestamp: now,
                },
            ),
            final(self).records@ == old(self).records@,
            final(self).record_tombstones@ == old(self).record_tombstones@,
            final(self).edge_tombstones@ == old(self).edge_tombstones@,
            final(self).next_id == old(self).next_id + 1,
            r is Ok,
    {
        let verdict = validate(
            &Op::RegisterCreateLink { link_type: LinkTypes::FeedToMember, base: None, target: None },
        );
        match verdict {
            ValidateCallbackResult::Invalid(m) => {
                return Err(m);
            },
            ValidateCallbackResult::Valid => {},
        }
        let edge = Edge {
            id: Address(self.next_id),
            source: Endpoint::Record(input.feed_hash),
            target: Endpoint::Agent(input.member_pubkey),
            link_type: LinkTypes::FeedToMember,
            timestamp: now,
        };
        let ghost gedge = edge;
        self.edges.push(edge);
        self.next_id = self.next_id + 1;
        proof {
            assert(self.records@ =~= old(self).records@ + Seq::<Record>::empty());
            assert(self.edges@ =~= old(self).edges@ + seq![gedge]);
            lemma_wf_extend(*old(self), *self, Seq::empty(), seq![gedge]);
        }
        Ok(())
    }
}

/// Records already stored stay stored when more records are appended.
proof fn lemma_stored_monotone(records: Seq<Record>, more: Seq<Record>)
    ensures
        forall|a: Address|
            share_item_stored_at(records, a) ==> #[trigger] share_item_stored_at(
                records + more,
                a,
            ),
        forall|a: Address|
            feed_stored_at(records, a) ==> #[trigger] feed_stored_at(records + more, a),
{
    assert forall|a: Address| share_item_stored_at(records, a) implies share_item_stored_at(
        records + more,
        a,
    ) by {
        let i = choose|i: int|
            0 <= i < records.len() && records[i].address == a && records[i].entry is ShareItem;
        assert((records + more)[i] == records[i]);
    }
    assert forall|a: Address| feed_stored_at(records, a) implies feed_stored_at(
        records + more,
        a,
    ) by {
        let i = choose|i: int|
            0 <= i < records.len() && records[i].address == a && records[i].entry is Feed;
        assert((records + more)[i] == records[i]);
    }
}

/// A record found by address is one of the stored records, and carries the
/// address it was found under.
proof fn lemma_find_record_is_stored(records: Seq<Record>, address: Address)
    ensures
        find_record(records, address) matches Some(rec) ==> {
            &&& rec.address == address
            &&& exists|i: int| 0 <= i < records.len() && records[i] == rec
        },
    decreases records.len(),
{
    if records.len() > 0 {
        if records[0].address == address {
            assert(records[0] == find_record(records, address).unwrap());
        } else {
            lemma_find_record_is_stored(records.drop_first(), address);
            if find_record(records.drop_first(), address) is Some {
                let rec = find_record(records.drop_first(), address).unwrap();
                let i = choose|i: int|
                    0 <= i < records.drop_first().len() && records.drop_first()[i] == rec;
                assert(records[i + 1] == rec);
            }
        }
    }
}

/// An edge found by address is one of the stored edges, and carries the
/// address it was found under.
proof fn lemma_find_edge_is_stored(edges: Seq<Edge>, id: Address)
    ensures
        find_edge(edges, id) matches Some(e) ==> {
            &&& e.id == id
            &&& exists|i: int| 0 <= i < edges.len() && edges[i] == e
        },
    decreases edges.len(),
{
    if edges.len() > 0 {
        if edges[0].id == id {
            assert(edges[0] == find_edge(edges, id).unwrap());
        } else {
            lemma_find_edge_is_stored(edges.drop_first(), id);
            if find_edge(edges.drop_first(), id) is Some {
                let e = find_edge(edges.drop_first(), id).unwrap();
                let i = choose|i: int|
                    0 <= i < edges.drop_first().len() && edges.drop_first()[i] == e;
                assert(edges[i + 1] == e);
            }
        }
    }
}

/// Appending validated records and well-shaped fresh edges preserves
/// well-formedness.
proof fn lemma_wf_extend(pre: Store, post: Store, new_records: Seq<Record>, new_edges: Seq<Edge>)
    requires
        pre.wf(),
        post.records@ == pre.records@ + new_records,
        post.edges@ == pre.edges@ + new_edges,
        post.edge_tombstones@ == pre.edge_tombstones@,
        post.next_id >= pre.next_id,
        forall|k: int|
            0 <= k < new_records.len() ==> pre.next_id <= (#[trigger] new_records[k]).address.0
                < post.next_id,
        forall|k: int, l: int|
            0 <= k < l < new_records.len() ==> new_records[k].address != new_records[l].address,
        forall|k: int|
            0 <= k < new_records.len() ==> entry_valid((#[trigger] new_records[k]).entry),
        forall|k: int|
            0 <= k < new_edges.len() ==> pre.next_id <= (#[trigger] new_edges[k]).id.0
                < post.next_id,
        forall|k: int, l: int|
            0 <= k < l < new_edges.len() ==> new_edges[k].id != new_edges[l].id,
        forall|k: int| 0 <= k < new_edges.len() ==> edge_wf(post.records@, #[trigger] new_edges[k]),
    ensures
        post.wf(),
{
    assert forall|k: int| 0 <= k < new_edges.len() implies update_link_permanent(
        #[trigger] new_edges[k],
        post.edge_tombstones@,
    ) by {
        assert(!post.edge_tombstones@.contains(new_edges[k].id)) by {
            if post.edge_tombstones@.contains(new_edges[k].id) {
                let j = choose|j: int|
                    0 <= j < pre.edge_tombstones@.len() && pre.edge_tombstones@[j]
                        == new_edges[k].id;
                assert(pre.edge_tombstones@[j].0 < pre.next_id);
            }
        }
    }
    assert forall|i: int| 0 <= i < post.edge_tombstones@.len() implies (
    #[trigger] post.edge_tombstones@[i]).0 < post.next_id by {
        assert(post.edge_tombstones@[i] == pre.edge_tombstones@[i]);
    }
    lemma_stored_monotone(pre.records@, new_records);
    assert forall|i: int| 0 <= i < post.records@.len() implies (
    #[trigger] post.records@[i]).address.0 < post.next_id by {
        if i < pre.records@.len() {
            assert(post.records@[i] == pre.records@[i]);
        }
    }
    assert forall|i: int, j: int| 0 <= i < j < post.records@.len() implies post.records@[i].address
        != post.records@[j].address by {
        if i < pre.records@.len() && j >= pre.records@.len() {
            assert(post.records@[i] == pre.records@[i]);
            assert(pre.records@[i].address.0 < pre.next_id);
        }
    }
    assert forall|i: int| 0 <= i < post.records@.len() implies entry_valid(
        (#[trigger] post.records@[i]).entry,
    ) by {
        if i < pre.records@.len() {
            assert(post.records@[i] == pre.records@[i]);
        }
    }
    assert forall|i: int| 0 <= i < post.edges@.len() implies (#[trigger] post.edges@[i]).id.0
        < post.next_id by {
        if i < pre.edges@.len() {
            assert(post.edges@[i] == pre.edges@[i]);
        }
    }
    assert forall|i: int, j: int| 0 <= i < j < post.edges@.len() implies post.edges@[i].id
        != post.edges@[j].id by {
        if i < pre.edges@.len() && j >= pre.edges@.len() {
            assert(post.edges@[i] == pre.edges@[i]);
            assert(pre.edges@[i].id.0 < pre.next_id);
        }
    }
    assert forall|i: int| 0 <= i < post.edges@.len() implies edge_wf(
        post.records@,
        #[trigger] post.edges@[i],
    ) by {
        if i < pre.edges@.len() {
            assert(post.edges@[i] == pre.edges@[i]);
            assert(edge_wf(pre.records@, pre.edges@[i]));
        }
    }
    assert forall|i: int| 0 <= i < post.edges@.len() implies update_link_permanent(
        #[trigger] post.edges@[i],
        post.edge_tombstones@,
    ) by {
        if i < pre.edges@.len() {
            assert(post.edges@[i] == pre.edges@[i]);
        }
    }
}

/// The membership edges created with a feed: one `FeedToMember` edge per
/// declared steward, in declaration order, with consecutive fresh addresses
/// starting at `first_id` — and nothing else.
pub open spec fn member_edges(
    feed_hash: Address,
    stewards: Seq<AgentId>,
    now: Timestamp,
    first_id: int,
) -> Seq<Edge>
    decreases stewards.len(),
{
    if stewards.len() == 0 {
        Seq::empty()
    } else {
        member_edges(feed_hash, stewards.drop_last(), now, first_id).push(
            Edge {
                id: Address((first_id + stewards.len() - 1) as u64),
                source: Endpoint::Record(feed_hash),
                target: Endpoint::Agent(stewards.last()),
                link_type: LinkTypes::FeedToMember,
                timestamp: now,
            },
        )
    }
}

/// Feed creation yields exactly one membership edge per steward: the `k`-th
/// edge points from the feed to the `k`-th steward.
pub proof fn lemma_member_edges_shape(
    feed_hash: Address,
    stewards: Seq<AgentId>,
    now: Timestamp,
    first_id: int,
)
    ensures
        member_edges(feed_hash, stewards, now, first_id).len() == stewards.len(),
        forall|k: int|
            0 <= k < stewards.len() ==> member_edges(feed_hash, stewards, now, first_id)[k]
                == (Edge {
                id: Address((first_id + k) as u64),
                source: Endpoint::Record(feed_hash),
                target: Endpoint::Agent(stewards[k]),
                link_type: LinkTypes::FeedToMember,
                timestamp: now,
            }),
    decreases stewards.len(),
{
    if stewards.len() > 0 {
        lemma_member_edges_shape(feed_hash, stewards.drop_last(), now, first_id);
    }
}

impl Store {
    /// The most recent shares: query the bucket of `now`; when it holds
    /// fewer than [`FILL_THRESHOLD`] items and the week is not the year's
    /// first, also query the previous week of the same year; merge, sort
    /// newest first, and cap at [`RECENT_LIMIT`] items.  The fallback never
    /// crosses a year boundary: week 1 does not reach into the previous
    /// year.
    pub fn get_recent_shares(&self, now: Timestamp) -> (r: Vec<ShareItemInfo>)
        requires
            now.0 >= 0,
        ensures
            ({
                let key = spec_bucket_key(timestamp_seconds(now));
                let cur = self.week_shares_spec(key);
                if cur.len() < FILL_THRESHOLD && key.week > 1 {
                    let prev = self.week_shares_spec(
                        BucketKey { year: key.year, week: (key.week - 1) as u32 },
                    );
                    let total = cur.len() + prev.len();
                    infos_view(r@) == sort_desc(cur + prev).take(
                        if total <= RECENT_LIMIT {
                            total as int
                        } else {
                            RECENT_LIMIT as int
                        },
                    )
                } else {
                    infos_view(r@) == cur.take(
                        if cur.len() <= RECENT_LIMIT {
                            cur.len() as int
                        } else {
                            RECENT_LIMIT as int
                        },
                    )
                }
            }),
            r@.len() <= RECENT_LIMIT,
            sorted_desc(infos_view(r@)),
    {
        let key = bucket_key(now);
        let mut all_shares = self.get_shares_for_week(
            TimeRangeInput { year: key.year, week: key.week },
        );
        let ghost cur = self.week_shares_spec(key);
        proof {
            assert(cur.len() == all_shares@.len());
        }
        if all_shares.len() < FILL_THRESHOLD && key.week > 1 {
            let mut prev_shares = self.get_shares_for_week(
                TimeRangeInput { year: key.year, week: key.week - 1 },
            );
            let ghost prev = self.week_shares_spec(
                BucketKey { year: key.year, week: (key.week - 1) as u32 },
            );
            let ghost before = all_shares@;
            let ghost before_prev = prev_shares@;
            all_shares.append(&mut prev_shares);
            proof {
                assert(infos_view(all_shares@) =~= infos_view(before) + infos_view(before_prev));
                assert(infos_view(all_shares@) == cur + prev);
            }
        } else {
            proof {
                let bucket_links = self.links_from_spec(
                    Endpoint::Bucket(key),
                    LinkTypes::TimeIndex,
                );
                lemma_sort_desc_props(share_infos_v(*self, bucket_links));
                lemma_sort_desc_of_sorted(cur);
                assert(sort_desc(infos_view(all_shares@)) == cur);
            }
        }
        let ghost merged = infos_view(all_shares@);
        let all_shares = sort_by_created_at_desc(all_shares);
        proof {
            lemma_sort_desc_props(merged);
        }
        let mut all_shares = all_shares;
        let ghost sorted_all = infos_view(all_shares@);
        all_shares.truncate(RECENT_LIMIT);
        proof {
            if sorted_all.len() > RECENT_LIMIT {
                assert(infos_view(all_shares@) =~= sorted_all.take(RECENT_LIMIT as int));
            } else {
                assert(infos_view(all_shares@) =~= sorted_all.take(sorted_all.len() as int));
            }
            assert(sorted_desc(infos_view(all_shares@))) by {
                assert(forall|i: int|
                    0 <= i < infos_view(all_shares@).len() ==> infos_view(all_shares@)[i]
                        == sort_desc(merged)[i]);
            }
        }
        all_shares
    }
}

/// Filtering distributes over concatenation of edge sequences.
proof fn lemma_edges_from_concat(
    a: Seq<Edge>,
    b: Seq<Edge>,
    deleted: Seq<Address>,
    source: Endpoint,
    link_type: LinkTypes,
)
    ensures
        edges_from(a + b, deleted, source, link_type) == edges_from(a, deleted, source, link_type)
            + edges_from(b, deleted, source, link_type),
    decreases b.len(),
{
    if b.len() == 0 {
        assert(a + b =~= a);
        assert(edges_from(a + b, deleted, source, link_type) =~= edges_from(
            a,
            deleted,
            source,
            link_type,
        ) + edges_from(b, deleted, source, link_type));
    } else {
        lemma_edges_from_concat(a, b.drop_last(), deleted, source, link_type);
        assert((a + b).drop_last() =~= a + b.drop_last());
        assert((a + b).last() == b.last());
        assert(edges_from(a + b, deleted, source, link_type) =~= edges_from(
            a,
            deleted,
            source,
            link_type,
        ) + edges_from(b, deleted, source, link_type));
    }
}

/// A sequence of edges none of which leaves `source` filters to nothing.
proof fn lemma_edges_from_none(
    edges: Seq<Edge>,
    deleted: Seq<Address>,
    source: Endpoint,
    link_type: LinkTypes,
)
    requires
        forall|i: int| 0 <= i < edges.len() ==> (#[trigger] edges[i]).source != source,
    ensures
        edges_from(edges, deleted, source, link_type) == Seq::<Edge>::empty(),
    decreases edges.len(),
{
    if edges.len() > 0 {
        lemma_edges_from_none(edges.drop_last(), deleted, source, link_type);
        assert(edges.last() == edges[edges.len() - 1]);
    }
}

/// Freshly created membership edges are all live and list exactly the
/// declared stewards.
proof fn lemma_member_edges_live(
    feed_hash: Address,
    stewards: Seq<AgentId>,
    now: Timestamp,
    first_id: int,
    deleted: Seq<Address>,
)
    requires
        0 <= first_id,
        first_id + stewards.len() <= u64::MAX,
        forall|j: int| 0 <= j < deleted.len() ==> (#[trigger] deleted[j]).0 < first_id,
    ensures
        edges_from(
            member_edges(feed_hash, stewards, now, first_id),
            deleted,
            Endpoint::Record(feed_hash),
            LinkTypes::FeedToMember,
        ) == member_edges(feed_hash, stewards, now, first_id),
        members_of(member_edges(feed_hash, stewards, now, first_id)) == stewards,
    decreases stewards.len(),
{
    let members = member_edges(feed_hash, stewards, now, first_id);
    if stewards.len() == 0 {
        assert(members_of(members) =~= stewards);
    } else {
        lemma_member_edges_live(feed_hash, stewards.drop_last(), now, first_id, deleted);
        let last = members.last();
        assert(members.drop_last() =~= member_edges(
            feed_hash,
            stewards.drop_last(),
            now,
            first_id,
        ));
        assert(!deleted.contains(last.id)) by {
            if deleted.contains(last.id) {
                let j = choose|j: int| 0 <= j < deleted.len() && deleted[j] == last.id;
                assert(deleted[j].0 < first_id);
            }
        }
        assert(edges_from(members, deleted, Endpoint::Record(feed_hash), LinkTypes::FeedToMember)
            =~= members);
        assert(members_of(members) =~= stewards);
    }
}

/// What feed creation does to the graph: on a well-formed store whose fresh
/// address was never an edge source, the accepted feed ends up with exactly
/// one membership edge per declared steward — listing the stewards in
/// declaration order — and the creator gains exactly one ownership edge to
/// the new feed.
pub proof fn law_feed_creation_edges(
    pre: Store,
    post: Store,
    author: AgentId,
    now: Timestamp,
    feed: Feed,
)
    requires
        pre.wf(),
        feed_valid(feed),
        pre.next_id + 2 + feed.stewards@.len() <= u64::MAX,
        forall|i: int|
            0 <= i < pre.edges@.len() ==> (#[trigger] pre.edges@[i]).source != Endpoint::Record(
                Address(pre.next_id),
            ),
        post.edges@ == pre.edges@.push(
            Edge {
                id: Address((pre.next_id + 1) as u64),
                source: Endpoint::Agent(author),
                target: Endpoint::Record(Address(pre.next_id)),
                link_type: LinkTypes::AgentToFeed,
                timestamp: now,
            },
        ) + member_edges(Address(pre.next_id), feed.stewards@, now, pre.next_id + 2),
        post.edge_tombstones@ == pre.edge_tombstones@,
    ensures
        members_of(
            post.links_from_spec(Endpoint::Record(Address(pre.next_id)), LinkTypes::FeedToMember),
        ) == feed.stewards@,
        post.links_from_spec(Endpoint::Agent(author), LinkTypes::AgentToFeed)
            == pre.links_from_spec(Endpoint::Agent(author), LinkTypes::AgentToFeed).push(
            Edge {
                id: Address((pre.next_id + 1) as u64),
                source: Endpoint::Agent(author),
                target: Endpoint::Record(Address(pre.next_id)),
                link_type: LinkTypes::AgentToFeed,
                timestamp: now,
            },
        ),
{
    let feed_hash = Address(pre.next_id);
    let agent_edge = Edge {
        id: Address((pre.next_id + 1) as u64),
        source: Endpoint::Agent(author),
        target: Endpoint::Record(feed_hash),
        link_type: LinkTypes::AgentToFeed,
        timestamp: now,
    };
    let members = member_edges(feed_hash, feed.stewards@, now, pre.next_id + 2);
    let deleted = post.edge_tombstones@;
    assert(post.edges@ =~= pre.edges@ + (seq![agent_edge] + members));
    assert(forall|j: int| 0 <= j < deleted.len() ==> (#[trigger] deleted[j]).0 < pre.next_id + 2);

    lemma_edges_from_concat(
        pre.edges@,
        seq![agent_edge] + members,
        deleted,
        Endpoint::Record(feed_hash),
        LinkTypes::FeedToMember,
    );
    lemma_edges_from_concat(
        seq![agent_edge],
        members,
        deleted,
        Endpoint::Record(feed_hash),
        LinkTypes::FeedToMember,
    );
    lemma_edges_from_none(pre.edges@, deleted, Endpoint::Record(feed_hash), LinkTypes::FeedToMember);
    lemma_edges_from_none(
        seq![agent_edge],
        deleted,
        Endpoint::Record(feed_hash),
        LinkTypes::FeedToMember,
    );
    lemma_member_edges_live(feed_hash, feed.stewards@, now, pre.next_id + 2, deleted);
    assert(post.links_from_spec(Endpoint::Record(feed_hash), LinkTypes::FeedToMember)
        =~= members);

    lemma_edges_from_concat(
        pre.edges@,
        seq![agent_edge] + members,
        deleted,
        Endpoint::Agent(author),
        LinkTypes::AgentToFeed,
    );
    lemma_edges_from_concat(
        seq![agent_edge],
        members,
        deleted,
        Endpoint::Agent(author),
        LinkTypes::AgentToFeed,
    );
    lemma_member_edges_shape(feed_hash, feed.stewards@, now, pre.next_id + 2);
    assert forall|i: int| 0 <= i < members.len() implies (#[trigger] members[i]).source
        != Endpoint::Agent(author) by {}
    lemma_edges_from_none(members, deleted, Endpoint::Agent(author), LinkTypes::AgentToFeed);
    assert(!deleted.contains(agent_edge.id)) by {
        if deleted.contains(agent_edge.id) {
            let j = choose|j: int| 0 <= j < deleted.len() && deleted[j] == agent_edge.id;
            assert(deleted[j].0 < pre.next_id);
        }
    }
    assert(edges_from(seq![agent_edge], deleted, Endpoint::Agent(author), LinkTypes::AgentToFeed)
        =~= seq![agent_edge]) by {
        let single = seq![agent_edge];
        assert(single.len() == 1);
        assert(single.last() == agent_edge);
        assert(single.drop_last() =~= Seq::<Edge>::empty());
        assert(edges_from(single.drop_last(), deleted, Endpoint::Agent(author), LinkTypes::AgentToFeed)
            =~= Seq::<Edge>::empty());
        assert(agent_edge.source == Endpoint::Agent(author));
        assert(agent_edge.link_type == LinkTypes::AgentToFeed);
        assert(edges_from(single, deleted, Endpoint::Agent(author), LinkTypes::AgentToFeed)
            =~= Seq::<Edge>::empty().push(agent_edge));
    }
    assert(post.links_from_spec(Endpoint::Agent(author), LinkTypes::AgentToFeed)
        =~= pre.links_from_spec(Endpoint::Agent(author), LinkTypes::AgentToFeed).push(agent_edge));
}

/// Whether `address` occurs in the list.
fn address_in(list: &Vec<Address>, address: Address) -> (r: bool)
    ensures
        r == list@.contains(address),
{
    let mut i: usize = 0;
    while i < list.len()
        invariant
            i <= list.len(),
            forall|j: int| 0 <= j < i ==> list@[j] != address,
        decreases list.len() - i,
    {
        if list[i] == address {
            return true;
        }
        i += 1;
    }
    false
}

} // verus!
