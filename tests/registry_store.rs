use orcid_works::options::to_decimal;
use orcid_works::registry::{is_success_status, work_detail_url, works_url, BASE_URL};
use orcid_works::store::{first_persist_step, next_persist_action, PersistAction, PersistStep};

#[test]
fn works_url_names_the_owner() {
    assert_eq!(
        works_url("0000-0002-1825-0097"),
        "https://pub.orcid.org/v3.0/0000-0002-1825-0097/works"
    );
    assert_eq!(BASE_URL, "https://pub.orcid.org/v3.0");
}

#[test]
fn work_detail_url_names_the_identifier() {
    assert_eq!(
        work_detail_url("0000-0002-1825-0097", 123456),
        "https://pub.orcid.org/v3.0/0000-0002-1825-0097/work/123456"
    );
    assert_eq!(work_detail_url("x", 0), "https://pub.orcid.org/v3.0/x/work/0");
}

#[test]
fn decimal_text_of_numbers() {
    assert_eq!(to_decimal(0), "0");
    assert_eq!(to_decimal(9), "9");
    assert_eq!(to_decimal(10), "10");
    assert_eq!(to_decimal(u64::MAX), "18446744073709551615");
}

#[test]
fn only_2xx_statuses_succeed() {
    assert!(is_success_status(200));
    assert!(is_success_status(204));
    assert!(is_success_status(299));
    assert!(!is_success_status(199));
    assert!(!is_success_status(301));
    assert!(!is_success_status(404));
    assert!(!is_success_status(500));
}

fn run(outcomes: &[bool]) -> (PersistAction, Vec<PersistStep>) {
    let mut step = first_persist_step();
    let mut performed = Vec::new();
    for &ok in outcomes {
        performed.push(step);
        match next_persist_action(step, ok) {
            PersistAction::Perform(next) => step = next,
            other => return (other, performed),
        }
    }
    (PersistAction::Perform(step), performed)
}

#[test]
fn persist_runs_every_step_in_order() {
    let (end, performed) = run(&[true; 6]);
    assert_eq!(end, PersistAction::Finish);
    assert_eq!(
        performed,
        vec![
            PersistStep::CreateTemp,
            PersistStep::WriteJson,
            PersistStep::Flush,
            PersistStep::SyncFile,
            PersistStep::Rename,
            PersistStep::SyncDir,
        ]
    );
}

#[test]
fn persist_failure_before_rename_aborts_without_renaming() {
    let (end, performed) = run(&[true, false, true, true, true, true]);
    assert_eq!(end, PersistAction::Abort(PersistStep::WriteJson));
    assert!(!performed.contains(&PersistStep::Rename));

    let (end, performed) = run(&[true, true, true, false]);
    assert_eq!(end, PersistAction::Abort(PersistStep::SyncFile));
    assert!(!performed.contains(&PersistStep::Rename));
}

#[test]
fn persist_rename_failure_aborts() {
    let (end, _) = run(&[true, true, true, true, false]);
    assert_eq!(end, PersistAction::Abort(PersistStep::Rename));
}

#[test]
fn persist_directory_sync_failure_aborts() {
    let (end, performed) = run(&[true, true, true, true, true, false]);
    assert_eq!(end, PersistAction::Abort(PersistStep::SyncDir));
    assert!(performed.contains(&PersistStep::Rename));
}
