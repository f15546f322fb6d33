use nlbn::{filter_pending_lcsc_ids, PreparedRun, RunTally};
use nlbn::{Cli, RunRequest};

#[test]
fn batch_resume_skips_completed_ids_without_overwrite() {
    let ids = vec!["C1".to_string(), "C2".to_string(), "C3".to_string()];
    let completed = vec!["C2".to_string()];

    let filtered = filter_pending_lcsc_ids(ids, &completed, true, false);

    assert_eq!(filtered, vec!["C1".to_string(), "C3".to_string()]);
}

#[test]
fn batch_resume_keeps_completed_ids_when_overwrite_is_enabled() {
    let ids = vec!["C1".to_string(), "C2".to_string(), "C3".to_string()];
    let completed = vec!["C2".to_string()];

    let filtered = filter_pending_lcsc_ids(ids.clone(), &completed, true, true);

    assert_eq!(filtered, ids);
}

#[test]
fn single_component_is_never_skipped() {
    let ids = vec!["C2".to_string()];
    let completed = vec!["C2".to_string()];
    assert_eq!(filter_pending_lcsc_ids(ids.clone(), &completed, false, false), ids);
}

fn cli_for(ids: &str, overwrite: bool) -> (Cli, Option<String>) {
    (
        Cli {
            lcsc_id: None,
            batch: Some("batch.txt".to_string()),
            symbol: true,
            footprint: false,
            model_3d: false,
            full: false,
            output: "lib".to_string(),
            overwrite,
            overwrite_symbol: false,
            overwrite_footprint: false,
            overwrite_model_3d: false,
            project_relative: false,
            symbol_fill_color: None,
            debug: false,
            continue_on_error: false,
            parallel: 4,
        },
        Some(ids.to_string()),
    )
}

#[test]
fn prepared_batch_reports_skipped_ids() {
    let (cli, content) = cli_for("C1 C2 C3 C4", false);
    let request = RunRequest::try_from(cli, content).unwrap();
    let completed = vec!["C2".to_string(), "C4".to_string(), "C9".to_string()];
    let prepared = PreparedRun::prepare(request, &completed);
    assert!(prepared.is_batch);
    assert_eq!(prepared.total_count(), 2);
    assert_eq!(prepared.resume_skipped, 2);
    assert_eq!(prepared.request.lcsc_ids, vec!["C1", "C3"]);
    assert!(prepared.runs_in_parallel());
}

#[test]
fn prepared_batch_with_overwrite_keeps_all_ids() {
    let (cli, content) = cli_for("C1 C2", true);
    let request = RunRequest::try_from(cli, content).unwrap();
    let prepared = PreparedRun::prepare(request, &vec!["C1".to_string()]);
    assert_eq!(prepared.total_count(), 2);
    assert_eq!(prepared.resume_skipped, 0);
}

#[test]
fn tally_counts_each_result_once() {
    let mut tally = RunTally::new();
    tally.record_success("C1".to_string());
    assert!(!tally.record_failure("C2".to_string(), true));
    assert!(tally.record_panic(false));
    tally.record_success("C3".to_string());
    assert_eq!(tally.successful_ids(), vec!["C1", "C3"]);
    let summary = tally.summary(4, "out".to_string(), true);
    assert_eq!(summary.total, 4);
    assert_eq!(summary.success, 2);
    assert_eq!(summary.failed, 2);
    assert_eq!(summary.failed_ids, vec!["C2", "<task panic>"]);
    assert_eq!(summary.output_dir, "out");
    assert!(summary.is_batch);
}
