use std::collections::HashMap;

use orcid_works::compare::{
    added_putcodes, deleted_putcodes, diff_putcodes, kept_putcodes, updated_putcodes, Diff,
};
use orcid_works::model::{
    ExternalIds, OrcidWorkDetail, OrcidWorkSummary, OrcidWorks, Source, Title, Value, WorkGroup,
};
use orcid_works::sync::{
    concurrency_exceeds_rate_limit, detail_matches_request, index_by_put_code, merge_details,
    plan_sync,
};

fn summary(put_code: u64, modified: u64, title: &str) -> OrcidWorkSummary {
    OrcidWorkSummary {
        put_code,
        created_date: Value { value: 1 },
        last_modified_date: Value { value: modified },
        source: Source { source_orcid: None, source_client_id: None, source_name: None },
        title: Title {
            title: Value { value: title.to_string() },
            subtitle: None,
            translated_title: None,
        },
        external_ids: ExternalIds { external_id: None },
        work_type: "journal-article".to_string(),
        publication_date: None,
        visibility: "public".to_string(),
        path: format!("/0000-0002-1825-0097/work/{put_code}"),
        display_index: None,
    }
}

fn detail(put_code: u64, modified: u64, title: &str) -> OrcidWorkDetail {
    OrcidWorkDetail {
        summary: summary(put_code, modified, title),
        journal_title: None,
        short_description: None,
        citation: None,
        url: None,
        contributors: None,
        language_code: None,
        country: None,
    }
}

fn works(groups: Vec<Vec<(u64, u64)>>) -> OrcidWorks {
    OrcidWorks {
        last_modified_date: Value { value: 0 },
        group: groups
            .into_iter()
            .map(|g| WorkGroup {
                last_modified_date: Value { value: 0 },
                external_ids: ExternalIds { external_id: None },
                work_summary: g.into_iter().map(|(pc, t)| summary(pc, t, "remote")).collect(),
            })
            .collect(),
        path: "/0000-0002-1825-0097/works".to_string(),
    }
}

fn cache(entries: &[(u64, u64)]) -> HashMap<u64, OrcidWorkDetail> {
    entries.iter().map(|&(pc, t)| (pc, detail(pc, t, "cached"))).collect()
}

fn sorted(mut v: Vec<u64>) -> Vec<u64> {
    v.sort();
    v
}

fn ids(records: &[OrcidWorkDetail]) -> Vec<u64> {
    records.iter().map(|d| d.summary.put_code).collect()
}

#[test]
fn empty_cache_classifies_all_added_and_merges_sorted() {
    let older = cache(&[]);
    let newer = works(vec![vec![(1, 100)], vec![(2, 100)]]);
    let diff = diff_putcodes(&older, &newer, false);
    assert_eq!(diff.len(), 2);
    assert_eq!(diff[&1], Diff::Added);
    assert_eq!(diff[&2], Diff::Added);

    let plan = plan_sync(&diff);
    assert_eq!(sorted(plan.to_fetch.clone()), vec![1, 2]);
    assert!(plan.kept.is_empty());
    assert!(plan.deleted.is_empty());
    assert!(plan.has_changes());

    let fetched = vec![detail(2, 100, "fresh"), detail(1, 100, "fresh")];
    let merged = merge_details(older, &plan.kept, fetched);
    assert_eq!(ids(&merged), vec![1, 2]);
}

#[test]
fn newer_remote_timestamp_is_updated_equal_is_kept() {
    let older = cache(&[(1, 100), (2, 100)]);
    let newer = works(vec![vec![(1, 100), (2, 200)]]);
    let diff = diff_putcodes(&older, &newer, false);
    assert_eq!(diff.len(), 2);
    assert_eq!(diff[&1], Diff::Kept);
    assert_eq!(diff[&2], Diff::Updated);

    let plan = plan_sync(&diff);
    assert_eq!(plan.to_fetch, vec![2]);
    assert_eq!(plan.kept, vec![1]);
    assert!(plan.deleted.is_empty());

    let merged = merge_details(older, &plan.kept, vec![detail(2, 200, "fresh")]);
    assert_eq!(ids(&merged), vec![1, 2]);
    assert_eq!(merged[0].summary.title.title.value, "cached");
    assert_eq!(merged[0].summary.last_modified_date.value, 100);
    assert_eq!(merged[1].summary.title.title.value, "fresh");
    assert_eq!(merged[1].summary.last_modified_date.value, 200);
}

#[test]
fn identifier_gone_remotely_is_deleted_and_dropped() {
    let older = cache(&[(1, 100), (2, 100)]);
    let newer = works(vec![vec![(1, 100)]]);
    let diff = diff_putcodes(&older, &newer, false);
    assert_eq!(diff.len(), 2);
    assert!(diff[&1] == Diff::Kept || diff[&1] == Diff::Updated);
    assert_eq!(diff[&2], Diff::Deleted);

    let plan = plan_sync(&diff);
    assert_eq!(plan.deleted, vec![2]);
    assert!(plan.has_changes());
    let merged = merge_details(older, &plan.kept, vec![]);
    assert_eq!(ids(&merged), vec![1]);
}

#[test]
fn all_kept_means_nothing_to_fetch_or_write() {
    let older = cache(&[(1, 100), (2, 150), (3, 300)]);
    let newer = works(vec![vec![(1, 100)], vec![(2, 150), (3, 300)]]);
    let diff = diff_putcodes(&older, &newer, false);
    assert!(diff.values().all(|&d| d == Diff::Kept));
    let plan = plan_sync(&diff);
    assert!(plan.to_fetch.is_empty());
    assert!(plan.deleted.is_empty());
    assert!(!plan.has_changes());
}

#[test]
fn forced_fetch_updates_every_shared_identifier() {
    let older = cache(&[(1, 100), (2, 300), (4, 10)]);
    let newer = works(vec![vec![(1, 100), (2, 200)], vec![(3, 5)]]);
    let diff = diff_putcodes(&older, &newer, true);
    assert_eq!(diff.len(), 4);
    assert_eq!(diff[&1], Diff::Updated);
    assert_eq!(diff[&2], Diff::Updated);
    assert_eq!(diff[&3], Diff::Added);
    assert_eq!(diff[&4], Diff::Deleted);
    assert!(kept_putcodes(&diff).is_empty());
}

#[test]
fn older_remote_timestamp_is_kept() {
    let older = cache(&[(7, 500)]);
    let newer = works(vec![vec![(7, 400)]]);
    let diff = diff_putcodes(&older, &newer, false);
    assert_eq!(diff[&7], Diff::Kept);
}

#[test]
fn duplicate_identifier_across_groups_counts_once() {
    let older = cache(&[(5, 100)]);
    let newer = works(vec![vec![(5, 100)], vec![(5, 100), (6, 1)]]);
    let diff = diff_putcodes(&older, &newer, false);
    assert_eq!(diff.len(), 2);
    assert_eq!(diff[&5], Diff::Kept);
    assert_eq!(diff[&6], Diff::Added);
    assert_eq!(kept_putcodes(&diff), vec![5]);
}

#[test]
fn category_lists_hold_each_identifier_once() {
    let mut diff: HashMap<u64, Diff> = HashMap::new();
    diff.insert(1, Diff::Added);
    diff.insert(2, Diff::Updated);
    diff.insert(3, Diff::Kept);
    diff.insert(4, Diff::Deleted);
    diff.insert(5, Diff::Added);
    assert_eq!(sorted(added_putcodes(&diff)), vec![1, 5]);
    assert_eq!(updated_putcodes(&diff), vec![2]);
    assert_eq!(kept_putcodes(&diff), vec![3]);
    assert_eq!(deleted_putcodes(&diff), vec![4]);
    let plan = plan_sync(&diff);
    assert_eq!(sorted(plan.to_fetch), vec![1, 2, 5]);
}

#[test]
fn empty_inputs_give_empty_classification() {
    let diff = diff_putcodes(&cache(&[]), &works(vec![]), false);
    assert!(diff.is_empty());
    let plan = plan_sync(&diff);
    assert!(!plan.has_changes());
}

#[test]
fn index_keeps_last_record_of_an_identifier() {
    let records = vec![detail(3, 1, "first"), detail(1, 1, "one"), detail(3, 2, "second")];
    let map = index_by_put_code(records);
    assert_eq!(map.len(), 2);
    assert_eq!(map[&3].summary.title.title.value, "second");
    assert_eq!(map[&1].summary.title.title.value, "one");
}

#[test]
fn merge_orders_by_identifier_and_skips_uncached_kept() {
    let older = cache(&[(10, 1), (30, 1), (50, 1)]);
    let kept = vec![50, 10, 99];
    let fetched = vec![detail(40, 2, "fresh"), detail(20, 2, "fresh")];
    let merged = merge_details(older, &kept, fetched);
    assert_eq!(ids(&merged), vec![10, 20, 40, 50]);
}

#[test]
fn second_run_after_sync_is_quiet() {
    let newer = works(vec![vec![(1, 100), (2, 200)], vec![(3, 300)]]);
    let older = cache(&[(1, 100), (2, 100), (9, 5)]);
    let diff = diff_putcodes(&older, &newer, false);
    let plan = plan_sync(&diff);
    let fetched: Vec<OrcidWorkDetail> = newer
        .group
        .iter()
        .flat_map(|g| g.work_summary.iter())
        .filter(|s| plan.to_fetch.contains(&s.put_code))
        .map(|s| detail(s.put_code, s.last_modified_date.value, "fresh"))
        .collect();
    let merged = merge_details(older, &plan.kept, fetched);
    assert_eq!(ids(&merged), vec![1, 2, 3]);

    let second_cache = index_by_put_code(merged.clone());
    let second = diff_putcodes(&second_cache, &newer, false);
    assert_eq!(second.len(), 3);
    assert!(second.values().all(|&d| d == Diff::Kept));
    let second_plan = plan_sync(&second);
    assert!(second_plan.to_fetch.is_empty());
    assert!(!second_plan.has_changes());
}

#[test]
fn concurrency_above_rate_limit_is_flagged() {
    assert!(!concurrency_exceeds_rate_limit(8, 12));
    assert!(!concurrency_exceeds_rate_limit(12, 12));
    assert!(concurrency_exceeds_rate_limit(13, 12));
    assert!(concurrency_exceeds_rate_limit(32, 1));
}

#[test]
fn fetched_record_must_carry_the_asked_identifier() {
    assert!(detail_matches_request(7, &detail(7, 1, "fresh")));
    assert!(!detail_matches_request(7, &detail(8, 1, "fresh")));
}
