//! Properties that hold of every run, stated over the models that the
//! functions' contracts use.
use vstd::prelude::*;

use crate::compare::{
    cache_stamps, category, classify, has_category, remote_stamps, stamp_map, summaries_of, Diff,
};
use crate::model::{put_code_of, stamp_of, OrcidWorkDetail, OrcidWorkSummary, OrcidWorks};
use crate::sync::{all_kept, index_of, kept_details};

verus! {

broadcast use vstd::seq_lib::group_to_multiset_ensures;

/// The identifiers of a run of summaries are exactly the keys of its stamp map.
pub proof fn lemma_stamp_map_keys(s: Seq<OrcidWorkSummary>)
    ensures
        forall|k: u64|
            stamp_map(s).contains_key(k) <==> exists|i: int|
                0 <= i < s.len() && (#[trigger] s[i]).put_code == k,
    decreases s.len(),
{
    if s.len() > 0 {
        lemma_stamp_map_keys(s.drop_last());
        assert forall|k: u64|
            stamp_map(s).contains_key(k) <==> exists|i: int|
                0 <= i < s.len() && (#[trigger] s[i]).put_code == k by {
            if stamp_map(s.drop_last()).contains_key(k) {
                let i = choose|i: int| 0 <= i < s.drop_last().len() && s.drop_last()[i].put_code == k;
                assert(s[i] == s.drop_last()[i]);
            }
            if exists|i: int| 0 <= i < s.len() && (#[trigger] s[i]).put_code == k {
                let i = choose|i: int| 0 <= i < s.len() && (#[trigger] s[i]).put_code == k;
                if i < s.len() - 1 {
                    assert(s.drop_last()[i] == s[i]);
                }
            }
        }
    }
}

/// The classification covers exactly the identifiers that are cached or
/// listed remotely, each once, and puts each in the category that the
/// timestamp rule gives: listed only remotely is added; listed and cached is
/// updated where the remote timestamp is strictly newer or a fetch is forced,
/// and kept otherwise (equal timestamps are kept); cached only is deleted.
pub proof fn lemma_classification_covers(
    older: Map<u64, OrcidWorkDetail>,
    newer: OrcidWorks,
    force: bool,
)
    ensures
        ({
            let diff = classify(cache_stamps(older), remote_stamps(newer), force);
            let listed = summaries_of(newer.group@);
            &&& forall|k: u64|
                diff.contains_key(k) <==> (older.contains_key(k) || exists|i: int|
                    0 <= i < listed.len() && (#[trigger] listed[i]).put_code == k)
            &&& forall|k: u64|
                #![trigger diff[k]]
                diff.contains_key(k) ==> {
                    let in_cache = older.contains_key(k);
                    let in_remote = remote_stamps(newer).contains_key(k);
                    &&& (in_remote && !in_cache ==> diff[k] == Diff::Added)
                    &&& (in_remote && in_cache && (remote_stamps(newer)[k] > stamp_of(older[k])
                        || force) ==> diff[k] == Diff::Updated)
                    &&& (in_remote && in_cache && remote_stamps(newer)[k] <= stamp_of(older[k])
                        && !force ==> diff[k] == Diff::Kept)
                    &&& (in_cache && !in_remote ==> diff[k] == Diff::Deleted)
                }
        }),
{
    lemma_stamp_map_keys(summaries_of(newer.group@));
}

/// With a forced fetch, no identifier that is both cached and listed remotely
/// is kept: each is updated.
pub proof fn lemma_force_never_keeps(older: Map<u64, OrcidWorkDetail>, newer: OrcidWorks)
    ensures
        forall|k: u64|
            older.contains_key(k) && remote_stamps(newer).contains_key(k) ==> (#[trigger] classify(
                cache_stamps(older),
                remote_stamps(newer),
                true,
            )[k]) == Diff::Updated,
{
}

/// The identifiers of a run of records are the keys of its index, and each
/// identifier maps to one of its records that carries it.
pub proof fn lemma_index_of_keys(s: Seq<OrcidWorkDetail>)
    ensures
        forall|k: u64|
            #![trigger index_of(s).contains_key(k)]
            index_of(s).contains_key(k) <==> exists|i: int|
                0 <= i < s.len() && put_code_of(#[trigger] s[i]) == k,
        forall|k: u64|
            #![trigger index_of(s)[k]]
            index_of(s).contains_key(k) ==> s.contains(index_of(s)[k]) && put_code_of(
                index_of(s)[k],
            ) == k,
    decreases s.len(),
{
    if s.len() > 0 {
        let t = s.drop_last();
        lemma_index_of_keys(t);
        assert forall|k: u64| index_of(s).contains_key(k) <==> exists|i: int|
            0 <= i < s.len() && put_code_of(#[trigger] s[i]) == k by {
            if index_of(t).contains_key(k) {
                let i = choose|i: int| 0 <= i < t.len() && put_code_of(#[trigger] t[i]) == k;
                assert(s[i] == t[i]);
            }
            if exists|i: int| 0 <= i < s.len() && put_code_of(#[trigger] s[i]) == k {
                let i = choose|i: int| 0 <= i < s.len() && put_code_of(#[trigger] s[i]) == k;
                if i < s.len() - 1 {
                    assert(t[i] == s[i]);
                }
            }
        }
        assert forall|k: u64| #[trigger]
            index_of(s).contains_key(k) implies s.contains(index_of(s)[k]) && put_code_of(
            index_of(s)[k],
        ) == k by {
            if k == put_code_of(s.last()) {
                assert(s[s.len() - 1] == s.last());
            } else {
                let x = index_of(t)[k];
                let j = choose|j: int| 0 <= j < t.len() && t[j] == x;
                assert(s[j] == x);
            }
        }
    }
}

proof fn lemma_kept_details_members(cached: Map<u64, OrcidWorkDetail>, kept: Seq<u64>)
    ensures
        forall|x: OrcidWorkDetail|
            #[trigger] kept_details(cached, kept).contains(x) ==> exists|k: u64|
                kept.contains(k) && cached.contains_key(k) && x == cached[k],
        forall|k: u64|
            kept.contains(k) && cached.contains_key(k) ==> #[trigger] kept_details(
                cached,
                kept,
            ).contains(cached[k]),
    decreases kept.len(),
{
    if kept.len() > 0 {
        let t = kept.drop_last();
        let kd = kept_details(cached, t);
        lemma_kept_details_members(cached, t);
        assert forall|x: OrcidWorkDetail| #[trigger]
            kept_details(cached, kept).contains(x) implies exists|k: u64|
            kept.contains(k) && cached.contains_key(k) && x == cached[k] by {
            if kd.contains(x) {
                let k = choose|k: u64| t.contains(k) && cached.contains_key(k) && x == cached[k];
                let j = choose|j: int| 0 <= j < t.len() && t[j] == k;
                assert(kept[j] == k);
            } else {
                let s = kept_details(cached, kept);
                let j = choose|j: int| 0 <= j < s.len() && s[j] == x;
                assert(cached.contains_key(kept.last()));
                assert(s == kd.push(cached[kept.last()]));
                if j < kd.len() {
                    assert(kd[j] == x);
                }
                assert(kept[kept.len() - 1] == kept.last());
            }
        }
        assert forall|k: u64| kept.contains(k) && cached.contains_key(k) implies #[trigger]
            kept_details(cached, kept).contains(cached[k]) by {
            let s = kept_details(cached, kept);
            if k == kept.last() {
                assert(s == kd.push(cached[k]));
                assert(s[s.len() - 1] == cached[k]);
            } else {
                let j = choose|j: int| 0 <= j < kept.len() && kept[j] == k;
                assert(t[j] == k);
                assert(t.contains(k));
                assert(kd.contains(cached[k]));
                let i = choose|i: int| 0 <= i < kd.len() && kd[i] == cached[k];
                if cached.contains_key(kept.last()) {
                    assert(s == kd.push(cached[kept.last()]));
                    assert(s[i] == cached[k]);
                } else {
                    assert(s == kd);
                }
            }
        }
    }
}

/// Idempotence: after a run that fetched a record for each identifier it asked
/// for, each record carrying an identifier that was asked for and the
/// timestamp that the summary list gave (in any order), a second
/// run without force against the unchanged summary list finds every
/// identifier kept and nothing else. By the contract of `plan_sync` that run
/// fetches nothing and drops nothing, so it leaves the cache file as it is.
pub proof fn lemma_second_run_keeps_everything(
    cached: Map<u64, OrcidWorkDetail>,
    newer: OrcidWorks,
    force: bool,
    kept: Seq<u64>,
    to_fetch: Seq<u64>,
    fetched: Seq<OrcidWorkDetail>,
    merged: Seq<OrcidWorkDetail>,
)
    requires
        forall|k: u64| #[trigger] cached.contains_key(k) ==> put_code_of(cached[k]) == k,
        forall|k: u64|
            kept.contains(k) <==> has_category(
                classify(cache_stamps(cached), remote_stamps(newer), force),
                Diff::Kept,
                k,
            ),
        forall|k: u64|
            to_fetch.contains(k) <==> (has_category(
                classify(cache_stamps(cached), remote_stamps(newer), force),
                Diff::Added,
                k,
            ) || has_category(
                classify(cache_stamps(cached), remote_stamps(newer), force),
                Diff::Updated,
                k,
            )),
        forall|i: int|
            0 <= i < fetched.len() ==> to_fetch.contains(put_code_of(#[trigger] fetched[i]))
                && remote_stamps(newer).contains_key(put_code_of(fetched[i])) && stamp_of(
                fetched[i],
            ) == remote_stamps(newer)[put_code_of(fetched[i])],
        forall|k: u64|
            to_fetch.contains(k) ==> exists|i: int|
                0 <= i < fetched.len() && put_code_of(#[trigger] fetched[i]) == k,
        merged.to_multiset() == (kept_details(cached, kept) + fetched).to_multiset(),
    ensures
        classify(cache_stamps(index_of(merged)), remote_stamps(newer), false).dom()
            == remote_stamps(newer).dom(),
        all_kept(classify(cache_stamps(index_of(merged)), remote_stamps(newer), false)),
{
    let remote = remote_stamps(newer);
    let first = classify(cache_stamps(cached), remote, force);
    let kd = kept_details(cached, kept);
    let both = kd + fetched;
    let idx = index_of(merged);
    let second = classify(cache_stamps(idx), remote, false);
    lemma_index_of_keys(merged);
    lemma_kept_details_members(cached, kept);

    // Every record of the merge is a kept cached record or a fetched one, and
    // carries a listed identifier and a timestamp no older than the listed one.
    assert forall|x: OrcidWorkDetail| merged.contains(x) implies remote.contains_key(put_code_of(x))
        && stamp_of(x) >= remote[put_code_of(x)] by {
        assert(merged.to_multiset().count(x) > 0);
        assert(both.contains(x));
        let j = choose|j: int| 0 <= j < both.len() && both[j] == x;
        if j < kd.len() {
            assert(kd[j] == x);
            assert(kd.contains(x));
            let k = choose|k: u64| kept.contains(k) && cached.contains_key(k) && x == cached[k];
            assert(has_category(first, Diff::Kept, k));
            assert(category(cache_stamps(cached), remote, force, k) == Diff::Kept);
        } else {
            assert(fetched[j - kd.len()] == x);
        }
    }
    // Every listed identifier has a record in the merge.
    assert forall|k: u64| remote.contains_key(k) implies idx.contains_key(k) by {
        assert(first.contains_key(k));
        if first[k] == Diff::Kept {
            assert(kept.contains(k));
            let x = cached[k];
            assert(kd.contains(x));
            let j = choose|j: int| 0 <= j < kd.len() && kd[j] == x;
            assert(both[j] == x);
            assert(both.to_multiset().count(x) > 0);
            assert(merged.contains(x));
            let i = choose|i: int| 0 <= i < merged.len() && merged[i] == x;
            assert(put_code_of(merged[i]) == k);
        } else {
            assert(to_fetch.contains(k));
            let j = choose|j: int| 0 <= j < fetched.len() && put_code_of(#[trigger] fetched[j]) == k;
            let x = fetched[j];
            assert(both[kd.len() + j] == x);
            assert(both.to_multiset().count(x) > 0);
            assert(merged.contains(x));
            let i = choose|i: int| 0 <= i < merged.len() && merged[i] == x;
            assert(put_code_of(merged[i]) == k);
        }
    }
    assert forall|k: u64| idx.contains_key(k) implies remote.contains_key(k) by {
        assert(merged.contains(idx[k]));
    }
    assert(second.dom() =~= remote.dom());
    assert forall|k: u64| second.contains_key(k) implies second[k] == Diff::Kept by {
        assert(merged.contains(idx[k]));
    }
}

} // verus!
