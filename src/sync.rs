//! The decisions of one synchronisation run: indexing the cache by identifier,
//! planning which records to fetch, keep and drop, and merging the kept and
//! the freshly fetched records into the collection that is stored.
use std::collections::HashMap;

use vstd::prelude::*;
use vstd::std_specs::iter::IteratorSpec;

use crate::compare::{
    added_putcodes, deleted_putcodes, has_category, kept_putcodes, updated_putcodes, Diff,
};
use crate::model::{put_code_of, OrcidWorkDetail};

verus! {

broadcast use vstd::std_specs::hash::group_hash_axioms, vstd::seq_lib::group_to_multiset_ensures;

/// Identifier to record of a run of records; where an identifier occurs more
/// than once, its last record counts.
pub open spec fn index_of(s: Seq<OrcidWorkDetail>) -> Map<u64, OrcidWorkDetail>
    decreases s.len(),
{
    if s.len() == 0 {
        Map::empty()
    } else {
        index_of(s.drop_last()).insert(put_code_of(s.last()), s.last())
    }
}

/// Records ordered by ascending identifier.
pub open spec fn sorted_by_put_code(s: Seq<OrcidWorkDetail>) -> bool {
    forall|i: int, j: int| 0 <= i < j < s.len() ==> put_code_of(s[i]) <= put_code_of(s[j])
}

/// The cached records of the identifiers in `kept`, in that order; an
/// identifier without a cached record contributes nothing.
pub open spec fn kept_details(cached: Map<u64, OrcidWorkDetail>, kept: Seq<u64>) -> Seq<OrcidWorkDetail>
    decreases kept.len(),
{
    if kept.len() == 0 {
        Seq::empty()
    } else if cached.contains_key(kept.last()) {
        kept_details(cached, kept.drop_last()).push(cached[kept.last()])
    } else {
        kept_details(cached, kept.drop_last())
    }
}

/// Every identifier of the classification is kept.
pub open spec fn all_kept(diff: Map<u64, Diff>) -> bool {
    forall|k: u64| diff.contains_key(k) ==> diff[k] == Diff::Kept
}

/// Whether the configured concurrency exceeds the requests-per-second ceiling,
/// which is worth a warning but not a refusal.
pub fn concurrency_exceeds_rate_limit(concurrency: usize, rate_limit: u32) -> (r: bool)
    ensures
        r == (concurrency as int > rate_limit as int),
{
    concurrency as u64 > rate_limit as u64
}

/// Whether a fetched record carries the identifier that was asked for; a
/// record that does not is refused, so that the merge holds at most one
/// record per identifier.
pub fn detail_matches_request(asked: u64, detail: &OrcidWorkDetail) -> (r: bool)
    ensures
        r == (put_code_of(*detail) == asked),
{
    detail.summary.put_code == asked
}

/// Indexes the cached records by identifier.
pub fn index_by_put_code(records: Vec<OrcidWorkDetail>) -> (m: HashMap<u64, OrcidWorkDetail>)
    ensures
        m@ == index_of(records@),
{
    let ghost rs = records@;
    let mut m: HashMap<u64, OrcidWorkDetail> = HashMap::new();
    for d in it: records.into_iter()
        invariant
            it.seq() == rs,
            it.index() <= rs.len(),
            m@ == index_of(rs.take(it.index() as int)),
    {
        proof {
            let i = it.index() as int;
            assert(rs.take(i + 1).drop_last() =~= rs.take(i));
            assert(rs.take(i + 1).last() == d);
        }
        let pc = d.summary.put_code;
        m.insert(pc, d);
    }
    assert(rs.take(rs.len() as int) =~= rs);
    m
}

/// What a run does after classifying: the identifiers to fetch (added or
/// updated), to keep from the cache, and to drop.
pub struct SyncPlan {
    pub to_fetch: Vec<u64>,
    pub kept: Vec<u64>,
    pub deleted: Vec<u64>,
}

impl SyncPlan {
    /// Whether the run has anything to fetch or to drop; where it has not,
    /// the cache file is left as it is.
    pub fn has_changes(&self) -> (r: bool)
        ensures
            r == (self.to_fetch@.len() > 0 || self.deleted@.len() > 0),
    {
        self.to_fetch.len() > 0 || self.deleted.len() > 0
    }
}

/// Splits a classification into the identifiers to fetch, to keep and to drop.
pub fn plan_sync(diff: &HashMap<u64, Diff>) -> (p: SyncPlan)
    ensures
        p.to_fetch@.no_duplicates(),
        p.kept@.no_duplicates(),
        p.deleted@.no_duplicates(),
        forall|k: u64|
            p.to_fetch@.contains(k) <==> (has_category(diff@, Diff::Added, k) || has_category(
                diff@,
                Diff::Updated,
                k,
            )),
        forall|k: u64| p.kept@.contains(k) <==> has_category(diff@, Diff::Kept, k),
        forall|k: u64| p.deleted@.contains(k) <==> has_category(diff@, Diff::Deleted, k),
        (p.to_fetch@.len() == 0 && p.deleted@.len() == 0) <==> all_kept(diff@),
{
    let mut to_fetch = added_putcodes(diff);
    let mut updated = updated_putcodes(diff);
    let kept = kept_putcodes(diff);
    let deleted = deleted_putcodes(diff);
    let ghost a = to_fetch@;
    let ghost u = updated@;
    to_fetch.append(&mut updated);
    proof {
        let s = to_fetch@;
        assert(s == a + u);
        assert forall|k: u64| s.contains(k) <==> (a.contains(k) || u.contains(k)) by {
            if s.contains(k) {
                let j = choose|j: int| 0 <= j < s.len() && s[j] == k;
                if j < a.len() {
                    assert(a[j] == k);
                } else {
                    assert(u[j - a.len()] == k);
                }
            }
            if a.contains(k) {
                let j = choose|j: int| 0 <= j < a.len() && a[j] == k;
                assert(s[j] == k);
            }
            if u.contains(k) {
                let j = choose|j: int| 0 <= j < u.len() && u[j] == k;
                assert(s[a.len() + j] == k);
            }
        }
        assert forall|i: int, j: int| 0 <= i < s.len() && 0 <= j < s.len() && i != j implies s[i]
            != s[j] by {
            if i < a.len() && j >= a.len() {
                assert(a.contains(s[i]));
                assert(u.contains(s[j]));
            } else if j < a.len() && i >= a.len() {
                assert(a.contains(s[j]));
                assert(u.contains(s[i]));
            }
        }
        if !all_kept(diff@) {
            let k = choose|k: u64| diff@.contains_key(k) && diff@[k] != Diff::Kept;
            if diff@[k] == Diff::Deleted {
                assert(deleted@.contains(k));
            } else {
                assert(s.contains(k));
            }
        }
        if all_kept(diff@) {
            if s.len() > 0 {
                assert(s.contains(s[0]));
            }
            if deleted@.len() > 0 {
                assert(deleted@.contains(deleted@[0]));
            }
        }
    }
    SyncPlan { to_fetch, kept, deleted }
}

fn sort_by_put_code(v: Vec<OrcidWorkDetail>) -> (r: Vec<OrcidWorkDetail>)
    ensures
        sorted_by_put_code(r@),
        r@.to_multiset() == v@.to_multiset(),
{
    let ghost vs = v@;
    let mut out: Vec<OrcidWorkDetail> = Vec::new();
    for d in it: v.into_iter()
        invariant
            it.seq() == vs,
            it.index() <= vs.len(),
            sorted_by_put_code(out@),
            out@.to_multiset() == vs.take(it.index() as int).to_multiset(),
    {
        let ghost i = it.index() as int;
        let key = d.summary.put_code;
        let mut pos: usize = out.len();
        while pos > 0 && out[pos - 1].summary.put_code > key
            invariant
                pos <= out@.len(),
                forall|j: int| pos <= j < out@.len() ==> put_code_of(out@[j]) > key,
            decreases pos,
        {
            pos = pos - 1;
        }
        let ghost before = out@;
        out.insert(pos, d);
        proof {
            assert(vs.take(i + 1) =~= vs.take(i).push(d));
            assert forall|x: int, y: int| 0 <= x < y < out@.len() implies put_code_of(out@[x])
                <= put_code_of(out@[y]) by {
                if pos > 0 {
                    assert(put_code_of(before[pos - 1]) <= key);
                }
            }
        }
    }
    assert(vs.take(vs.len() as int) =~= vs);
    out
}

/// Merges the cached records of the kept identifiers with the freshly fetched
/// records, ordered by ascending identifier. Deleted identifiers are dropped by
/// not being kept.
pub fn merge_details(
    cached: HashMap<u64, OrcidWorkDetail>,
    kept: &Vec<u64>,
    fetched: Vec<OrcidWorkDetail>,
) -> (r: Vec<OrcidWorkDetail>)
    requires
        kept@.no_duplicates(),
    ensures
        sorted_by_put_code(r@),
        r@.to_multiset() == (kept_details(cached@, kept@) + fetched@).to_multiset(),
{
    let ghost orig = cached@;
    let mut cached = cached;
    let mut merged: Vec<OrcidWorkDetail> = Vec::new();
    let mut i: usize = 0;
    while i < kept.len()
        invariant
            i <= kept@.len(),
            kept@.no_duplicates(),
            merged@ == kept_details(orig, kept@.take(i as int)),
            forall|k: u64|
                #[trigger] cached@.contains_key(k) ==> orig.contains_key(k) && cached@[k] == orig[k],
            forall|j: int|
                i <= j < kept@.len() ==> (cached@.contains_key(kept@[j]) <==> orig.contains_key(
                    kept@[j],
                )),
        decreases kept@.len() - i,
    {
        let pc = kept[i];
        proof {
            assert(kept@.take(i + 1).drop_last() =~= kept@.take(i as int));
            assert(kept@.take(i + 1).last() == pc);
        }
        match cached.remove(&pc) {
            Some(d) => {
                merged.push(d);
            },
            None => {},
        }
        proof {
            assert forall|j: int| i + 1 <= j < kept@.len() implies (cached@.contains_key(kept@[j])
                <==> orig.contains_key(kept@[j])) by {
                assert(kept@[j] != kept@[i as int]);
            }
        }
        i = i + 1;
    }
    assert(kept@.take(kept@.len() as int) =~= kept@);
    let mut fetched = fetched;
    merged.append(&mut fetched);
    sort_by_put_code(merged)
}

} // verus!
