use repo_pack::download::{aggregate_outcomes, incomplete_count, plan_unit};
use repo_pack::{Config, DownloadOutcome, DownloadResult, RepoPackError, UnitStep};

fn failed(msg: &str) -> DownloadOutcome {
    DownloadOutcome::Failed(RepoPackError::DownloadFailed {
        path: msg.to_string(),
        detail: "boom".to_string(),
    })
}

#[test]
fn plan_cancels_before_acquiring_budget() {
    assert_eq!(plan_unit(true, false, true, true), UnitStep::Cancel);
}

#[test]
fn plan_cancels_after_acquiring_budget() {
    assert_eq!(plan_unit(false, true, false, false), UnitStep::Cancel);
}

#[test]
fn plan_skips_existing_file_only_when_resuming() {
    assert_eq!(plan_unit(false, false, true, true), UnitStep::Skip);
    assert_eq!(plan_unit(false, false, false, true), UnitStep::Fetch);
    assert_eq!(plan_unit(false, false, true, false), UnitStep::Fetch);
}

#[test]
fn plan_fetches_by_default() {
    assert_eq!(plan_unit(false, false, false, false), UnitStep::Fetch);
}

#[test]
fn default_result_is_empty() {
    let r = DownloadResult::default();
    assert_eq!(r.downloaded, 0);
    assert_eq!(r.skipped, 0);
    assert_eq!(r.failed, 0);
    assert!(!r.cancelled);
    assert!(r.errors.is_empty());
}

#[test]
fn record_counts_each_outcome_once() {
    let mut r = DownloadResult::default();
    r.record("a".to_string(), DownloadOutcome::Downloaded);
    r.record("b".to_string(), DownloadOutcome::Skipped);
    r.record("c".to_string(), failed("c"));
    r.record("d".to_string(), DownloadOutcome::Cancelled);
    assert_eq!(r.downloaded, 1);
    assert_eq!(r.skipped, 1);
    assert_eq!(r.failed, 1);
    assert_eq!(r.errors.len(), 1);
    assert_eq!(r.errors[0].0, "c");
}

#[test]
fn resume_run_counts_skips_and_downloads() {
    // 10 files, 4 already present with resume on: skipped=4, downloaded=6
    let mut outcomes: Vec<(String, DownloadOutcome)> = Vec::new();
    for i in 0..4 {
        outcomes.push((format!("pre{i}"), DownloadOutcome::Skipped));
    }
    for i in 0..6 {
        outcomes.push((format!("new{i}"), DownloadOutcome::Downloaded));
    }
    let r = aggregate_outcomes(outcomes);
    assert_eq!(r.skipped, 4);
    assert_eq!(r.downloaded, 6);
    assert_eq!(r.failed, 0);
    assert!(r.errors.is_empty());
    assert!(!r.cancelled);
}

#[test]
fn cancelled_run_counts_stay_consistent() {
    // 10 units, cancellation arrives after 2 have started: the 8 others
    // are recorded as cancelled and counted nowhere.
    let mut outcomes: Vec<(String, DownloadOutcome)> = Vec::new();
    outcomes.push(("a".to_string(), DownloadOutcome::Downloaded));
    outcomes.push(("b".to_string(), DownloadOutcome::Downloaded));
    for i in 0..8 {
        outcomes.push((format!("c{i}"), DownloadOutcome::Cancelled));
    }
    let mut r = aggregate_outcomes(outcomes);
    r.cancelled = true;
    assert!(r.cancelled);
    assert!(r.downloaded + r.skipped + r.failed <= 10);
    assert_eq!(incomplete_count(10, &r), 10 - r.downloaded - r.skipped);
    assert_eq!(incomplete_count(10, &r), 8);
}

#[test]
fn failures_are_recorded_in_completion_order() {
    let outcomes = vec![
        ("a".to_string(), failed("a")),
        ("b".to_string(), DownloadOutcome::Downloaded),
        ("c".to_string(), failed("c")),
    ];
    let r = aggregate_outcomes(outcomes);
    assert_eq!(r.failed, 2);
    assert_eq!(r.errors.len(), 2);
    assert_eq!(r.errors[0].0, "a");
    assert_eq!(r.errors[1].0, "c");
    assert_eq!(r.downloaded, 1);
}

#[test]
fn config_defaults_for_home() {
    let c = Config::with_home("/home/me");
    assert_eq!(c.concurrent_download_limit, 5);
    assert_eq!(c.progress_bar_style, "█");
    assert_eq!(c.github_token_path, "/home/me/.github/token");
}

#[test]
fn error_messages_name_their_subject() {
    let e = RepoPackError::InvalidUrl { url: "x://y".to_string(), hint: String::new() };
    assert_eq!(e.message(), "invalid url: x://y");
    let e = RepoPackError::NotFound {
        owner: "o".to_string(),
        repo: "r".to_string(),
        hint: String::new(),
    };
    assert_eq!(e.message(), "repository not found: o/r");
    let e = RepoPackError::PathTraversal { path: "a/../b".to_string() };
    assert_eq!(e.message(), "path traversal detected: a/../b");
    let e = RepoPackError::RateLimited { reset_time: "soon".to_string() };
    assert_eq!(e.message(), "rate limit exceeded, resets at soon");
    assert_eq!(
        RepoPackError::AuthRequired.message(),
        "authentication required for private repository"
    );
}
