//! Classification of every record identifier of the cache and of the remote
//! summary list as added, updated, kept or deleted.
use std::collections::{HashMap, HashSet};

use vstd::prelude::*;
use vstd::std_specs::iter::IteratorSpec;

use crate::model::{stamp_of, OrcidWorkDetail, OrcidWorkSummary, OrcidWorks, WorkGroup};

verus! {

broadcast use vstd::std_specs::hash::group_hash_axioms;

/// The category of one record identifier.
#[derive(Debug, Clone, Copy, PartialEq, Eq, Structural)]
pub enum Diff {
    /// Listed remotely, absent from the cache.
    Added,
    /// Listed remotely and cached, with a newer remote timestamp (or a forced fetch).
    Updated,
    /// Listed remotely and cached, the cached record still current.
    Kept,
    /// Cached, no longer listed remotely.
    Deleted,
}

/// All summaries of the groups, in list order.
pub open spec fn summaries_of(groups: Seq<WorkGroup>) -> Seq<OrcidWorkSummary>
    decreases groups.len(),
{
    if groups.len() == 0 {
        Seq::empty()
    } else {
        summaries_of(groups.drop_last()) + groups.last().work_summary@
    }
}

/// Identifier to modification time of a run of summaries; where an
/// identifier occurs more than once, its last occurrence counts.
pub open spec fn stamp_map(s: Seq<OrcidWorkSummary>) -> Map<u64, u64>
    decreases s.len(),
{
    if s.len() == 0 {
        Map::empty()
    } else {
        stamp_map(s.drop_last()).insert(s.last().put_code, s.last().last_modified_date.value)
    }
}

/// Identifier to modification time of the remote summary list.
pub open spec fn remote_stamps(works: OrcidWorks) -> Map<u64, u64> {
    stamp_map(summaries_of(works.group@))
}

/// Identifier to modification time of the cached records.
pub open spec fn cache_stamps(cached: Map<u64, OrcidWorkDetail>) -> Map<u64, u64> {
    cached.map_values(|d: OrcidWorkDetail| stamp_of(d))
}

/// The category of identifier `k`, given the cached and the remote timestamps.
pub open spec fn category(cached: Map<u64, u64>, remote: Map<u64, u64>, force: bool, k: u64) -> Diff {
    if !remote.contains_key(k) {
        Diff::Deleted
    } else if !cached.contains_key(k) {
        Diff::Added
    } else if remote[k] > cached[k] || force {
        Diff::Updated
    } else {
        Diff::Kept
    }
}

/// The classification of the identifiers in the remote list and of those of
/// `done` that are cached.
pub open spec fn classify_upto(
    cached: Map<u64, u64>,
    remote: Map<u64, u64>,
    force: bool,
    done: Set<u64>,
) -> Map<u64, Diff> {
    Map::new(
        |k: u64| remote.contains_key(k) || (cached.contains_key(k) && done.contains(k)),
        |k: u64| category(cached, remote, force, k),
    )
}

/// The classification of every identifier that is cached or listed remotely.
pub open spec fn classify(cached: Map<u64, u64>, remote: Map<u64, u64>, force: bool) -> Map<u64, Diff> {
    Map::new(
        |k: u64| cached.contains_key(k) || remote.contains_key(k),
        |k: u64| category(cached, remote, force, k),
    )
}

proof fn lemma_summaries_step(groups: Seq<WorkGroup>, i: int)
    requires
        0 <= i < groups.len(),
    ensures
        summaries_of(groups.take(i + 1)) == summaries_of(groups.take(i)) + groups[i].work_summary@,
{
    assert(groups.take(i + 1).drop_last() =~= groups.take(i));
}

proof fn lemma_stamp_map_push(s: Seq<OrcidWorkSummary>, x: OrcidWorkSummary)
    ensures
        stamp_map(s.push(x)) == stamp_map(s).insert(x.put_code, x.last_modified_date.value),
{
    assert(s.push(x).drop_last() =~= s);
}

/// Classifies every identifier of the cache and of the remote summary list:
/// listed but not cached is added; listed and cached is updated where the
/// remote timestamp is newer or `force_fetch` is set, kept otherwise; cached
/// but not listed is deleted.
pub fn diff_putcodes(
    older: &HashMap<u64, OrcidWorkDetail>,
    newer: &OrcidWorks,
    force_fetch: bool,
) -> (diff: HashMap<u64, Diff>)
    ensures
        diff@ == classify(cache_stamps(older@), remote_stamps(*newer), force_fetch),
{
    let ghost cached = cache_stamps(older@);
    let mut diff: HashMap<u64, Diff> = HashMap::new();
    let mut seen_old: HashSet<u64> = HashSet::new();
    let ghost mut prefix: Seq<OrcidWorkSummary> = Seq::empty();

    let mut gi: usize = 0;
    while gi < newer.group.len()
        invariant
            gi <= newer.group@.len(),
            cached == cache_stamps(older@),
            prefix == summaries_of(newer.group@.take(gi as int)),
            diff@ == classify_upto(cached, stamp_map(prefix), force_fetch, Set::empty()),
            seen_old@ == stamp_map(prefix).dom().intersect(cached.dom()),
        decreases newer.group@.len() - gi,
    {
        let g = &newer.group[gi];
        proof {
            lemma_summaries_step(newer.group@, gi as int);
        }
        let ghost start = prefix;
        let mut si: usize = 0;
        while si < g.work_summary.len()
            invariant
                si <= g.work_summary@.len(),
                g == newer.group@[gi as int],
                cached == cache_stamps(older@),
                prefix == start + g.work_summary@.take(si as int),
                diff@ == classify_upto(cached, stamp_map(prefix), force_fetch, Set::empty()),
                seen_old@ == stamp_map(prefix).dom().intersect(cached.dom()),
            decreases g.work_summary@.len() - si,
        {
            let s = &g.work_summary[si];
            let pc = s.put_code;
            let newt = s.last_modified_date.value;
            let ghost before = stamp_map(prefix);
            proof {
                lemma_stamp_map_push(prefix, *s);
                assert(start + g.work_summary@.take(si + 1) =~= prefix.push(*s));
                prefix = prefix.push(*s);
            }
            let ghost after = stamp_map(prefix);
            match older.get(&pc) {
                None => {
                    diff.insert(pc, Diff::Added);
                }
                Some(t) => {
                    seen_old.insert(pc);
                    let oldt = t.summary.last_modified_date.value;
                    if newt > oldt || force_fetch {
                        diff.insert(pc, Diff::Updated);
                    } else {
                        diff.insert(pc, Diff::Kept);
                    }
                }
            }
            proof {
                assert(diff@ =~= classify_upto(cached, after, force_fetch, Set::empty()));
                assert(seen_old@ =~= after.dom().intersect(cached.dom()));
            }
            si = si + 1;
        }
        proof {
            assert(g.work_summary@.take(g.work_summary@.len() as int) =~= g.work_summary@);
        }
        gi = gi + 1;
    }
    assert(newer.group@.take(newer.group@.len() as int) =~= newer.group@);
    let ghost remote = stamp_map(prefix);
    let ghost mut done: Set<u64> = Set::empty();
    let ghost ks = older.keys().remaining().unref();
    assert(ks.to_set() == older@.dom());

    for pc in it: older.keys()
        invariant
            cached == cache_stamps(older@),
            remote == remote_stamps(*newer),
            it.seq().unref() == ks,
            ks.to_set() == older@.dom(),
            diff@ == classify_upto(cached, remote, force_fetch, done),
            seen_old@ == remote.dom().intersect(cached.dom()),
            forall|j: int| 0 <= j < it.index() ==> done.contains(ks[j]),
            it.index() <= ks.len(),
    {
        proof {
            assert(ks[it.index() as int] == *pc);
            assert(ks.to_set().contains(*pc));
        }
        if !seen_old.contains(pc) {
            diff.insert(*pc, Diff::Deleted);
        }
        proof {
            done = done.insert(*pc);
            assert(diff@ =~= classify_upto(cached, remote, force_fetch, done));
        }
    }
    proof {
        assert forall|k: u64| cached.contains_key(k) implies done.contains(k) by {
            assert(ks.to_set().contains(k));
            let j = choose|j: int| 0 <= j < ks.len() && ks[j] == k;
            assert(ks[j] == k);
        }
        assert(diff@ =~= classify(cached, remote, force_fetch));
    }
    diff
}

/// `k` is classified as `kind` by `diff`.
pub open spec fn has_category(diff: Map<u64, Diff>, kind: Diff, k: u64) -> bool {
    diff.contains_key(k) && diff[k] == kind
}

proof fn lemma_push_contains(s: Seq<u64>, x: u64)
    ensures
        forall|k: u64| s.push(x).contains(k) <==> (s.contains(k) || k == x),
{
    assert forall|k: u64| s.push(x).contains(k) <==> (s.contains(k) || k == x) by {
        if s.push(x).contains(k) {
            let j = choose|j: int| 0 <= j < s.push(x).len() && s.push(x)[j] == k;
            if j < s.len() {
                assert(s[j] == k);
            }
        }
        if s.contains(k) {
            let j = choose|j: int| 0 <= j < s.len() && s[j] == k;
            assert(s.push(x)[j] == k);
        }
        if k == x {
            assert(s.push(x)[s.len() as int] == k);
        }
    }
}

fn putcodes_with(diff: &HashMap<u64, Diff>, kind: Diff) -> (r: Vec<u64>)
    ensures
        r@.no_duplicates(),
        forall|k: u64| r@.contains(k) <==> has_category(diff@, kind, k),
{
    let mut r: Vec<u64> = Vec::new();
    let ghost ks = diff.keys().remaining().unref();
    assert(ks.to_set() == diff@.dom());
    for pc in it: diff.keys()
        invariant
            it.seq().unref() == ks,
            ks.to_set() == diff@.dom(),
            ks.no_duplicates(),
            it.index() <= ks.len(),
            r@.no_duplicates(),
            forall|k: u64|
                r@.contains(k) <==> (has_category(diff@, kind, k) && ks.take(
                    it.index() as int,
                ).contains(k)),
    {
        let ghost i = it.index() as int;
        proof {
            assert(ks[i] == *pc);
            assert(ks.to_set().contains(*pc));
            assert(ks.take(i + 1) =~= ks.take(i).push(*pc));
            assert(!ks.take(i).contains(*pc));
            lemma_push_contains(ks.take(i), *pc);
        }
        let ghost r0 = r@;
        match diff.get(pc) {
            Some(d) => {
                assert(*d == diff@[*pc]);
                if *d == kind {
                    r.push(*pc);
                    assert(!r0.contains(*pc));
                    proof {
                        lemma_push_contains(r0, *pc);
                    }
                }
            },
            None => {
                assert(false);
            },
        }
        assert forall|k: u64|
            r@.contains(k) <==> (has_category(diff@, kind, k) && ks.take(i + 1).contains(k)) by {
            assert(ks.take(i + 1).contains(k) <==> (ks.take(i).contains(k) || k == *pc));
            assert(r0.contains(k) <==> (has_category(diff@, kind, k) && ks.take(i).contains(k)));
            if has_category(diff@, kind, *pc) {
                assert(r@.contains(k) <==> (r0.contains(k) || k == *pc));
            } else {
                assert(r@ == r0);
            }
        }
    }
    proof {
        assert(ks.take(ks.len() as int) =~= ks);
        assert forall|k: u64| has_category(diff@, kind, k) implies ks.contains(k) by {
            assert(ks.to_set().contains(k));
        }
    }
    r
}

/// The identifiers classified added, each once, in no particular order.
pub fn added_putcodes(diff: &HashMap<u64, Diff>) -> (r: Vec<u64>)
    ensures
        r@.no_duplicates(),
        forall|k: u64| r@.contains(k) <==> has_category(diff@, Diff::Added, k),
{
    putcodes_with(diff, Diff::Added)
}

/// The identifiers classified updated, each once, in no particular order.
pub fn updated_putcodes(diff: &HashMap<u64, Diff>) -> (r: Vec<u64>)
    ensures
        r@.no_duplicates(),
        forall|k: u64| r@.contains(k) <==> has_category(diff@, Diff::Updated, k),
{
    putcodes_with(diff, Diff::Updated)
}

/// The identifiers classified kept, each once, in no particular order.
pub fn kept_putcodes(diff: &HashMap<u64, Diff>) -> (r: Vec<u64>)
    ensures
        r@.no_duplicates(),
        forall|k: u64| r@.contains(k) <==> has_category(diff@, Diff::Kept, k),
{
    putcodes_with(diff, Diff::Kept)
}

/// The identifiers classified deleted, each once, in no particular order.
pub fn deleted_putcodes(diff: &HashMap<u64, Diff>) -> (r: Vec<u64>)
    ensures
        r@.no_duplicates(),
        forall|k: u64| r@.contains(k) <==> has_category(diff@, Diff::Deleted, k),
{
    putcodes_with(diff, Diff::Deleted)
}

} // verus!
