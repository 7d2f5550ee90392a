//! Ordering of query results: a stable sort of share-item listings by their
//! edge timestamp, newest first.
//!
//! The sort is pinned exactly: [`sort_desc`] inserts elements left to right,
//! each after every element whose timestamp is greater or equal, so equal
//! timestamps keep their input order.  The executable sort returns precisely
//! that sequence.

use vstd::prelude::*;
use vstd::seq_lib::group_to_multiset_ensures;

use crate::types::{ShareItemInfo, ShareItemInfoV};

verus! {

/// The views of a sequence of listings.
pub open spec fn infos_view(s: Seq<ShareItemInfo>) -> Seq<ShareItemInfoV> {
    s.map_values(|x: ShareItemInfo| x@)
}

/// Sorted by timestamp, newest first.
pub open spec fn sorted_desc(s: Seq<ShareItemInfoV>) -> bool {
    forall|i: int, j: int| 0 <= i < j < s.len() ==> s[i].created_at.0 >= s[j].created_at.0
}

/// Insert `x` behind every element whose timestamp is greater or equal:
/// the insertion step of a stable descending sort.
pub open spec fn insert_desc(s: Seq<ShareItemInfoV>, x: ShareItemInfoV) -> Seq<ShareItemInfoV>
    decreases s.len(),
{
    if s.len() == 0 {
        seq![x]
    } else if s[0].created_at.0 >= x.created_at.0 {
        seq![s[0]] + insert_desc(s.drop_first(), x)
    } else {
        seq![x] + s
    }
}

/// Where [`insert_desc`] places `x`: the first position whose element is
/// strictly older than `x`.
pub open spec fn insert_pos_desc(s: Seq<ShareItemInfoV>, x: ShareItemInfoV) -> int
    decreases s.len(),
{
    if s.len() == 0 {
        0
    } else if s[0].created_at.0 >= x.created_at.0 {
        1 + insert_pos_desc(s.drop_first(), x)
    } else {
        0
    }
}

/// The stable descending sort by timestamp.
pub open spec fn sort_desc(s: Seq<ShareItemInfoV>) -> Seq<ShareItemInfoV>
    decreases s.len(),
{
    if s.len() == 0 {
        Seq::empty()
    } else {
        insert_desc(sort_desc(s.drop_last()), s.last())
    }
}

/// [`insert_desc`] inserts at [`insert_pos_desc`], which is the first
/// position holding a strictly older element.
pub proof fn lemma_insert_desc_is_insert(s: Seq<ShareItemInfoV>, x: ShareItemInfoV)
    ensures
        0 <= insert_pos_desc(s, x) <= s.len(),
        forall|i: int|
            0 <= i < insert_pos_desc(s, x) ==> s[i].created_at.0 >= x.created_at.0,
        insert_pos_desc(s, x) < s.len() ==> s[insert_pos_desc(s, x)].created_at.0
            < x.created_at.0,
        insert_desc(s, x) == s.insert(insert_pos_desc(s, x), x),
    decreases s.len(),
{
    if s.len() == 0 {
        assert(insert_desc(s, x) =~= s.insert(0, x));
    } else if s[0].created_at.0 >= x.created_at.0 {
        lemma_insert_desc_is_insert(s.drop_first(), x);
        let p = insert_pos_desc(s.drop_first(), x);
        assert forall|i: int| 0 <= i < 1 + p implies s[i].created_at.0 >= x.created_at.0 by {
            if i > 0 {
                assert(s.drop_first()[i - 1] == s[i]);
            }
        }
        assert(1 + p < s.len() ==> s[1 + p].created_at.0 < x.created_at.0) by {
            if 1 + p < s.len() {
                assert(s.drop_first()[p] == s[1 + p]);
            }
        }
        assert(insert_desc(s, x) =~= s.insert(1 + p, x)) by {
            assert(insert_desc(s, x) == seq![s[0]] + s.drop_first().insert(p, x));
        }
    } else {
        assert(insert_desc(s, x) =~= s.insert(0, x));
    }
}

/// Inserting into a descending-sorted sequence keeps it sorted.
pub proof fn lemma_insert_desc_sorted(s: Seq<ShareItemInfoV>, x: ShareItemInfoV)
    requires
        sorted_desc(s),
    ensures
        sorted_desc(insert_desc(s, x)),
        insert_desc(s, x).len() == s.len() + 1,
{
    lemma_insert_desc_is_insert(s, x);
    let p = insert_pos_desc(s, x);
    let r = s.insert(p, x);
    assert forall|i: int, j: int| 0 <= i < j < r.len() implies r[i].created_at.0
        >= r[j].created_at.0 by {
        assert(forall|k: int| 0 <= k < p ==> r[k] == s[k]);
        assert(r[p] == x);
        assert(forall|k: int| p < k < r.len() ==> r[k] == s[k - 1]);
        assert(forall|k: int| p <= k < s.len() ==> s[k].created_at.0 <= x.created_at.0);
    }
}

/// The sort returns a sequence of the same length and the same contents,
/// sorted newest first.
pub proof fn lemma_sort_desc_props(s: Seq<ShareItemInfoV>)
    ensures
        sort_desc(s).len() == s.len(),
        sorted_desc(sort_desc(s)),
        sort_desc(s).to_multiset() == s.to_multiset(),
    decreases s.len(),
{
    broadcast use group_to_multiset_ensures;

    if s.len() > 0 {
        let prefix = s.drop_last();
        lemma_sort_desc_props(prefix);
        lemma_insert_desc_sorted(sort_desc(prefix), s.last());
        lemma_insert_desc_is_insert(sort_desc(prefix), s.last());
        assert(s =~= prefix.push(s.last()));
        assert(sort_desc(s).to_multiset() =~= s.to_multiset());
    }
}

/// Sorting an already-sorted sequence returns it unchanged.
pub proof fn lemma_sort_desc_of_sorted(s: Seq<ShareItemInfoV>)
    requires
        sorted_desc(s),
    ensures
        sort_desc(s) == s,
    decreases s.len(),
{
    if s.len() > 0 {
        let prefix = s.drop_last();
        assert(sorted_desc(prefix)) by {
            assert(forall|i: int| 0 <= i < prefix.len() ==> prefix[i] == s[i]);
        }
        lemma_sort_desc_of_sorted(prefix);
        lemma_insert_desc_is_insert(prefix, s.last());
        let p = insert_pos_desc(prefix, s.last());
        if p < prefix.len() {
            assert(s[p].created_at.0 < s[s.len() - 1].created_at.0);
            assert(false);
        }
        assert(sort_desc(s) =~= s) by {
            assert(sort_desc(s) == prefix.insert(prefix.len() as int, s.last()));
        }
    }
}

/// When the current bucket falls short and the previous bucket is pulled
/// in, nothing is lost as long as the two together fit the cap: the merged,
/// capped result holds exactly the items of both buckets.
pub proof fn lemma_merge_keeps_all(cur: Seq<ShareItemInfoV>, prev: Seq<ShareItemInfoV>, cap: int)
    requires
        cur.len() + prev.len() <= cap,
    ensures
        sort_desc(cur + prev).take((cur.len() + prev.len()) as int).to_multiset()
            == cur.to_multiset().add(prev.to_multiset()),
{
    lemma_sort_desc_props(cur + prev);
    assert(sort_desc(cur + prev).take((cur + prev).len() as int) =~= sort_desc(cur + prev));
    vstd::seq_lib::lemma_multiset_commutative(cur, prev);
}

/// Sort a vector of listings by timestamp, newest first, stably.
pub fn sort_by_created_at_desc(v: Vec<ShareItemInfo>) -> (r: Vec<ShareItemInfo>)
    ensures
        infos_view(r@) == sort_desc(infos_view(v@)),
{
    let ghost orig = infos_view(v@);
    let mut input = v;
    let mut out: Vec<ShareItemInfo> = Vec::new();
    while input.len() > 0
        invariant
            infos_view(input@) =~= orig.skip(orig.len() - input@.len()),
            infos_view(out@) == sort_desc(orig.take(orig.len() - input@.len())),
            input@.len() <= orig.len(),
        decreases input.len(),
    {
        let ghost k = orig.len() - input@.len();
        let x = input.remove(0);
        proof {
            assert(infos_view(input@) =~= orig.skip(k + 1)) by {
                let pre = orig.skip(k);
                assert forall|i: int| 0 <= i < input@.len() implies infos_view(input@)[i]
                    == orig.skip(k + 1)[i] by {
                    assert(infos_view(input@)[i] == pre[i + 1]);
                }
            }
            assert(x@ == orig.skip(k)[0]);
            assert(x@ == orig[k]);
        }
        let mut pos: usize = 0;
        while pos < out.len() && out[pos].created_at.0 >= x.created_at.0
            invariant
                pos <= out.len(),
                forall|i: int| 0 <= i < pos ==> out@[i].created_at.0 >= x.created_at.0,
            decreases out.len() - pos,
        {
            pos += 1;
        }
        proof {
            let sv = infos_view(out@);
            lemma_insert_desc_is_insert(sv, x@);
            let p = insert_pos_desc(sv, x@);
            assert(forall|i: int| 0 <= i < pos ==> sv[i].created_at.0 >= x@.created_at.0);
            assert(pos < sv.len() ==> sv[pos as int].created_at.0 < x@.created_at.0);
            if p < pos {
                assert(sv[p].created_at.0 >= x@.created_at.0);
                assert(false);
            }
            if pos < p {
                assert(sv[pos as int].created_at.0 >= x@.created_at.0);
                assert(false);
            }
            assert(p == pos);
        }
        let ghost before = infos_view(out@);
        out.insert(pos, x);
        proof {
            assert(infos_view(out@) =~= before.insert(pos as int, x@));
            assert(infos_view(out@) == insert_desc(before, x@));
            let taken = orig.take(k + 1);
            assert(taken.drop_last() =~= orig.take(k));
            assert(taken.last() == orig[k]);
            assert(infos_view(out@) == sort_desc(orig.take(k + 1)));
        }
    }
    proof {
        assert(orig.take(orig.len() as int) =~= orig);
    }
    out
}

} // verus!
