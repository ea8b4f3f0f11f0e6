use repo_pack::{
    extract_relative_path, needs_normalization, normalize_path, resolve_output_path,
    truncate_path, RepoPackError,
};

#[test]
fn extract_relative_path_with_nested_directory() {
    let result = extract_relative_path("config", "repo/src/config/settings/app.toml");
    assert_eq!(result.unwrap(), "config/settings/app.toml");
}

#[test]
fn extract_relative_path_single_file() {
    let result = extract_relative_path("src", "project/src/main.rs");
    assert_eq!(result.unwrap(), "src/main.rs");
}

#[test]
fn extract_relative_path_deep_nesting() {
    let result = extract_relative_path("lua", "dotfiles/.config/nvim/lua/plugins/init.lua");
    assert_eq!(result.unwrap(), "lua/plugins/init.lua");
}

#[test]
fn extract_relative_path_base_not_found() {
    let result = extract_relative_path("missing", "path/to/some/file.txt");
    assert!(matches!(result, Err(RepoPackError::PathTraversal { .. })));
}

#[test]
fn extract_relative_path_empty_after_base() {
    let result = extract_relative_path("nvim", "dotfiles/nvim");
    assert_eq!(result.unwrap(), "");
}

#[test]
fn extract_relative_path_is_idempotent() {
    let once = extract_relative_path("config", "repo/src/config/settings/app.toml").unwrap();
    let twice = extract_relative_path("config", &once).unwrap();
    assert_eq!(once, twice);
}

#[test]
fn extract_relative_path_of_anchor_itself_is_empty() {
    let result = extract_relative_path("nvim", "nvim");
    assert_eq!(result.unwrap(), "");
}

#[test]
fn extract_relative_path_takes_first_occurrence() {
    let result = extract_relative_path("src", "a/src/b/src/c.rs");
    assert_eq!(result.unwrap(), "src/b/src/c.rs");
}

#[test]
fn needs_normalization_detects_dot_segments() {
    assert!(needs_normalization("a/./b"));
    assert!(needs_normalization("a/../b"));
    assert!(needs_normalization(".."));
    assert!(!needs_normalization("a/b/c"));
    assert!(!needs_normalization(""));
}

#[test]
fn normalize_path_drops_dot_segments_and_doubled_separators() {
    assert_eq!(normalize_path("a/./b//c"), "a/b/c");
    assert_eq!(normalize_path("./a/b/"), "a/b");
}

#[test]
fn normalize_path_resolves_parent_segments() {
    assert_eq!(normalize_path("a/b/../c"), "a/c");
    assert_eq!(normalize_path("/a/../b"), "/b");
}

#[test]
fn normalize_path_keeps_leading_parent_segments() {
    assert_eq!(normalize_path("a/../../b"), "../b");
    assert_eq!(normalize_path("/.."), "/..");
}

#[test]
fn save_path_creates_nested_structure() {
    let result = resolve_output_path("config", "repo/config/nested/deep/settings.json", "/out");
    assert_eq!(result.unwrap(), "/out/config/nested/deep/settings.json");
}

#[test]
fn save_path_keeps_output_root_as_prefix() {
    let result = resolve_output_path("docs", "repo/docs/sub/a.md", "/tmp/target").unwrap();
    assert!(result.starts_with("/tmp/target/"));
}

#[test]
fn save_path_rejects_traversal_from_parent_dirs() {
    let result = resolve_output_path("base", "base/../../../etc/passwd", "/out");
    assert!(matches!(result, Err(RepoPackError::PathTraversal { .. })));
}

#[test]
fn save_path_rejects_traversal_hidden_in_middle() {
    let result = resolve_output_path("src", "src/valid/../../../escape/file.txt", "/out");
    assert!(matches!(result, Err(RepoPackError::PathTraversal { .. })));
}

#[test]
fn save_path_allows_dot_in_filename() {
    let result = resolve_output_path("config", "config/.env.local", "/out");
    assert_eq!(result.unwrap(), "/out/config/.env.local");
}

#[test]
fn save_path_allows_inner_parent_that_stays_inside() {
    let result = resolve_output_path("data", "data/sub/../kept.txt", "/out");
    assert_eq!(result.unwrap(), "/out/data/kept.txt");
}

#[test]
fn save_path_rejects_unanchored_file() {
    let result = resolve_output_path("missing", "a/b/c.txt", "/out");
    assert!(matches!(result, Err(RepoPackError::PathTraversal { .. })));
}

#[test]
fn save_path_with_relative_output_root() {
    let result = resolve_output_path("docs", "repo/docs/a.md", "out");
    assert_eq!(result.unwrap(), "out/docs/a.md");
}

#[test]
fn anchor_is_final_directory_segment() {
    assert_eq!(repo_pack::paths::anchor_of("path/to/dir"), "dir");
    assert_eq!(repo_pack::paths::anchor_of("docs"), "docs");
    assert_eq!(repo_pack::paths::anchor_of("docs/"), "docs");
    assert_eq!(repo_pack::paths::anchor_of(""), "");
}

#[test]
fn truncate_path_keeps_short_paths() {
    assert_eq!(truncate_path("src/main.rs", 40), "src/main.rs");
}

#[test]
fn truncate_path_cuts_at_separator_in_window() {
    assert_eq!(
        truncate_path("very/long/path/to/some/deeply/nested/file.rs", 20),
        "…/nested/file.rs"
    );
}

#[test]
fn truncate_path_without_separator_keeps_window() {
    assert_eq!(truncate_path("abcdefghijklmnop", 10), "…/ijklmnop");
}
