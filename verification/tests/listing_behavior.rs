use repo_pack::listing::{
    api_url, classify_api_status, contents_endpoint, decode_dir, dir_prefix,
    filter_tree_entries, listing_step, partition_content_entries, trees_endpoint, ListingEvent,
    ListingPhase, ListingState, RemoteEntry,
};
use repo_pack::RepoPackError;

fn entry(entry_type: &str, path: &str) -> RemoteEntry {
    RemoteEntry { entry_type: entry_type.to_string(), path: path.to_string() }
}

#[test]
fn dir_prefix_forms() {
    assert_eq!(dir_prefix(""), "");
    assert_eq!(dir_prefix("docs"), "docs/");
    assert_eq!(dir_prefix("docs/"), "docs/");
}

#[test]
fn filter_keeps_blobs_under_directory() {
    let entries = vec![
        entry("blob", "docs/a.md"),
        entry("blob", "docs/sub/b.md"),
        entry("blob", "other/c.md"),
        entry("tree", "docs/sub"),
    ];
    let files = filter_tree_entries(&entries, "docs");
    assert_eq!(files, vec!["docs/a.md".to_string(), "docs/sub/b.md".to_string()]);
}

#[test]
fn filter_with_empty_dir_matches_everything() {
    let entries = vec![entry("blob", "a.md"), entry("tree", "docs"), entry("blob", "docs/b.md")];
    let files = filter_tree_entries(&entries, "");
    assert_eq!(files, vec!["a.md".to_string(), "docs/b.md".to_string()]);
}

#[test]
fn filter_does_not_match_mid_component_prefix() {
    let entries = vec![entry("blob", "docsx/a.md"), entry("blob", "docs/b.md")];
    let files = filter_tree_entries(&entries, "docs");
    assert_eq!(files, vec!["docs/b.md".to_string()]);
}

#[test]
fn partition_splits_files_and_dirs() {
    let entries = vec![
        entry("file", "d/a.md"),
        entry("dir", "d/sub"),
        entry("symlink", "d/link"),
        entry("file", "d/b.md"),
    ];
    let (files, dirs) = partition_content_entries(&entries);
    assert_eq!(files, vec!["d/a.md".to_string(), "d/b.md".to_string()]);
    assert_eq!(dirs, vec!["d/sub".to_string()]);
}

#[test]
fn decode_dir_decodes_percent_escapes() {
    assert_eq!(decode_dir("path%20with%20spaces").unwrap(), "path with spaces");
}

#[test]
fn decode_dir_keeps_plain_text() {
    assert_eq!(decode_dir("plain/dir").unwrap(), "plain/dir");
}

#[test]
fn trees_endpoint_shape() {
    assert_eq!(trees_endpoint("owner", "repo", "main"), "owner/repo/git/trees/main?recursive=1");
}

#[test]
fn contents_endpoint_shape() {
    assert_eq!(
        contents_endpoint("owner", "repo", "src/lib", "main"),
        "owner/repo/contents/src/lib?ref=main"
    );
}

#[test]
fn api_url_shape() {
    assert_eq!(
        api_url("owner/repo/git/trees/main?recursive=1"),
        "https://api.github.com/repos/owner/repo/git/trees/main?recursive=1"
    );
}

fn probing(git_ref: &str, parts: &[&str]) -> ListingState {
    ListingState {
        git_ref: git_ref.to_string(),
        dir_parts: parts.iter().map(|p| p.to_string()).collect(),
        phase: ListingPhase::Probing,
    }
}

#[test]
fn listing_finishes_on_usable_fast_listing() {
    let s = probing("main", &["docs"]);
    let files = vec!["docs/a.md".to_string()];
    let next = listing_step(s, ListingEvent::TreeListing { files: files.clone(), truncated: false });
    assert!(matches!(next.phase, ListingPhase::Done(f) if f == files));
}

#[test]
fn listing_truncated_and_empty_falls_back_exactly_once() {
    let s = probing("main", &["docs"]);
    let mid = listing_step(s, ListingEvent::TreeListing { files: vec![], truncated: true });
    assert!(matches!(mid.phase, ListingPhase::Fallback));
    assert_eq!(mid.git_ref, "main");
    assert_eq!(mid.dir_parts, vec!["docs".to_string()]);
    let files = vec!["docs/a.md".to_string(), "docs/b.md".to_string()];
    let done = listing_step(mid, ListingEvent::ContentsListing { files: files.clone() });
    assert!(matches!(done.phase, ListingPhase::Done(f) if f == files));
}

#[test]
fn listing_truncated_but_nonempty_is_authoritative() {
    let s = probing("main", &["docs"]);
    let files = vec!["docs/a.md".to_string()];
    let next = listing_step(s, ListingEvent::TreeListing { files: files.clone(), truncated: true });
    assert!(matches!(next.phase, ListingPhase::Done(f) if f == files));
}

#[test]
fn listing_shifts_ref_on_missing_tree() {
    let missing = || {
        RepoPackError::NotFound {
            owner: "owner".to_string(),
            repo: "repo".to_string(),
            hint: String::new(),
        }
    };
    // ref `feature` with dir `branch/src/lib`, where the true ref is
    // `feature/branch`: one failed probe converges on the true split.
    let s = probing("feature", &["branch", "src", "lib"]);
    let shifted = listing_step(s, ListingEvent::TreeMissing(missing()));
    assert!(matches!(shifted.phase, ListingPhase::Probing));
    assert_eq!(shifted.git_ref, "feature/branch");
    assert_eq!(shifted.dir_parts, vec!["src".to_string(), "lib".to_string()]);
}

#[test]
fn listing_surfaces_error_when_dir_exhausted() {
    let missing = || {
        RepoPackError::NotFound {
            owner: "o".to_string(),
            repo: "r".to_string(),
            hint: String::new(),
        }
    };
    let mut s = probing("feature", &["branch"]);
    s = listing_step(s, ListingEvent::TreeMissing(missing()));
    assert!(matches!(s.phase, ListingPhase::Probing));
    s = listing_step(s, ListingEvent::TreeMissing(missing()));
    assert!(matches!(s.phase, ListingPhase::Failed(RepoPackError::NotFound { .. })));
}

#[test]
fn listing_surfaces_other_tree_errors_at_once() {
    let s = probing("main", &["docs"]);
    let next = listing_step(s, ListingEvent::TreeError(RepoPackError::AuthRequired));
    assert!(matches!(next.phase, ListingPhase::Failed(RepoPackError::AuthRequired)));
}

#[test]
fn listing_surfaces_fallback_errors() {
    let s = probing("main", &["docs"]);
    let mid = listing_step(s, ListingEvent::TreeListing { files: vec![], truncated: true });
    let failed = listing_step(
        mid,
        ListingEvent::ContentsError(RepoPackError::RateLimited { reset_time: "soon".to_string() }),
    );
    assert!(matches!(failed.phase, ListingPhase::Failed(RepoPackError::RateLimited { .. })));
}

#[test]
fn classify_rate_limit_exhausted() {
    let r = classify_api_status(403, true, Some("1700000000".to_string()), None, "o/r/git/trees/m");
    assert!(matches!(r, Some(RepoPackError::RateLimited { reset_time }) if reset_time == "1700000000"));
}

#[test]
fn classify_forbidden_needs_auth() {
    let r = classify_api_status(403, false, None, None, "o/r/git/trees/m");
    assert!(matches!(r, Some(RepoPackError::AuthRequired)));
}

#[test]
fn classify_too_many_requests() {
    let r = classify_api_status(429, false, None, Some("30".to_string()), "o/r/git/trees/m");
    assert!(matches!(r, Some(RepoPackError::RateLimited { reset_time }) if reset_time == "30"));
}

#[test]
fn classify_not_found_names_owner_and_repo() {
    let r = classify_api_status(404, false, None, None, "owner/repo/git/trees/main");
    assert!(
        matches!(r, Some(RepoPackError::NotFound { owner, repo, .. }) if owner == "owner" && repo == "repo")
    );
}

#[test]
fn classify_server_error_is_download_failure() {
    let r = classify_api_status(500, false, None, None, "owner/repo/contents/d");
    assert!(
        matches!(r, Some(RepoPackError::DownloadFailed { path, .. }) if path == "owner/repo/contents/d")
    );
}

#[test]
fn classify_success_is_none() {
    assert!(classify_api_status(200, false, None, None, "o/r").is_none());
}
