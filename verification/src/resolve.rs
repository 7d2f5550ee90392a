//! The update-chain resolver: the latest logical version of a record is the
//! target of the newest update edge that originates from it, or the record
//! itself where no update edge exists.
//!
//! Among edges sharing the maximal timestamp, the one appearing last in the
//! given order wins — a fixed, deterministic tie-break.  An update edge
//! whose target is not a record address resolves back to the original: the
//! resolver never fails, it falls back.

use vstd::prelude::*;

use crate::types::{Address, Edge, Endpoint};

verus! {

/// The newest edge of a sequence: maximal timestamp, later entries winning
/// ties.  `None` iff the sequence is empty.
pub open spec fn latest_edge(edges: Seq<Edge>) -> Option<Edge>
    decreases edges.len(),
{
    if edges.len() == 0 {
        None
    } else {
        let last = edges.last();
        match latest_edge(edges.drop_last()) {
            None => Some(last),
            Some(best) => if last.timestamp.0 >= best.timestamp.0 {
                Some(last)
            } else {
                Some(best)
            },
        }
    }
}

/// Where the update chain of `original` leads: the newest edge's record
/// target, or `original` itself if there is no usable update edge.
pub open spec fn latest_target(original: Address, edges: Seq<Edge>) -> Address {
    match latest_edge(edges) {
        None => original,
        Some(e) => match e.target {
            Endpoint::Record(address) => address,
            _ => original,
        },
    }
}

/// Resolve the current version of the record at `original_hash`, given the
/// update edges that originate from it.
pub fn resolve_latest(original_hash: Address, updates: &Vec<Edge>) -> (r: Address)
    ensures
        r == latest_target(original_hash, updates@),
{
    let mut best: Option<Edge> = None;
    let mut i: usize = 0;
    while i < updates.len()
        invariant
            i <= updates.len(),
            best == latest_edge(updates@.take(i as int)),
        decreases updates.len() - i,
    {
        let e = updates[i];
        best = match best {
            None => Some(e),
            Some(b) => if e.timestamp.0 >= b.timestamp.0 {
                Some(e)
            } else {
                Some(b)
            },
        };
        proof {
            let taken = updates@.take(i as int + 1);
            assert(taken.drop_last() =~= updates@.take(i as int));
            assert(taken.last() == updates@[i as int]);
        }
        i += 1;
    }
    proof {
        assert(updates@.take(updates@.len() as int) =~= updates@);
    }
    match best {
        None => original_hash,
        Some(e) => match e.target {
            Endpoint::Record(address) => address,
            _ => original_hash,
        },
    }
}

/// With no update edges, a record resolves to itself.
pub proof fn lemma_no_updates_resolves_to_original(original: Address)
    ensures
        latest_target(original, Seq::<Edge>::empty()) == original,
{
}

/// The newest edge is one of the edges, and no edge is newer.
pub proof fn lemma_latest_edge_is_max(edges: Seq<Edge>)
    requires
        edges.len() > 0,
    ensures
        latest_edge(edges) is Some,
        edges.contains(latest_edge(edges).unwrap()),
        forall|i: int|
            0 <= i < edges.len() ==> edges[i].timestamp.0
                <= latest_edge(edges).unwrap().timestamp.0,
    decreases edges.len(),
{
    let last = edges.last();
    assert(edges[edges.len() - 1] == last);
    if edges.len() == 1 {
        assert(edges.contains(last)) by {
            assert(edges[0] == last);
        }
    } else {
        let prefix = edges.drop_last();
        lemma_latest_edge_is_max(prefix);
        let best = latest_edge(prefix).unwrap();
        let j = choose|j: int| 0 <= j < prefix.len() && prefix[j] == best;
        assert(edges[j] == best);
        let e = latest_edge(edges).unwrap();
        if last.timestamp.0 >= best.timestamp.0 {
            assert(e == last);
            assert(edges.contains(e)) by {
                assert(edges[edges.len() - 1] == e);
            }
        } else {
            assert(e == best);
            assert(edges.contains(e)) by {
                assert(edges[j] == e);
            }
        }
        assert forall|i: int| 0 <= i < edges.len() implies edges[i].timestamp.0 <= e.timestamp.0 by {
            if i < prefix.len() {
                assert(prefix[i] == edges[i]);
            }
        }
    }
}

/// With no update edges the original resolves to itself; with update edges,
/// the one strictly newest edge wins, in whatever order the edges stand.
pub proof fn lemma_newest_update_wins(
    original: Address,
    edges: Seq<Edge>,
    i: int,
    target: Address,
)
    requires
        0 <= i < edges.len(),
        forall|j: int|
            0 <= j < edges.len() && j != i ==> edges[j].timestamp.0 < edges[i].timestamp.0,
        edges[i].target == Endpoint::Record(target),
    ensures
        latest_target(original, edges) == target,
{
    lemma_latest_edge_is_max(edges);
    let e = latest_edge(edges).unwrap();
    let j = choose|j: int| 0 <= j < edges.len() && edges[j] == e;
    if j != i {
        assert(edges[j].timestamp.0 < edges[i].timestamp.0);
        assert(edges[i].timestamp.0 <= e.timestamp.0);
        assert(false);
    }
    assert(e == edges[i]);
}

} // verus!
