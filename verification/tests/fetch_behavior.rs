use repo_pack::fetch::{
    classify_fetch_status, is_lfs_pointer, media_content_url, might_be_lfs_pointer,
    raw_content_url,
};
use repo_pack::RepoPackError;

#[test]
fn pointer_window_is_128_to_140_bytes() {
    assert!(!might_be_lfs_pointer(None));
    assert!(!might_be_lfs_pointer(Some(127)));
    assert!(might_be_lfs_pointer(Some(128)));
    assert!(might_be_lfs_pointer(Some(134)));
    assert!(might_be_lfs_pointer(Some(140)));
    assert!(!might_be_lfs_pointer(Some(141)));
}

#[test]
fn pointer_signature_is_recognized() {
    let body = b"version https://git-lfs.github.com/spec/v1\noid sha256:abcd\nsize 12345\n";
    assert!(is_lfs_pointer(body));
}

#[test]
fn plain_content_is_no_pointer() {
    assert!(!is_lfs_pointer(b"fn main() { println!(\"hi\"); }"));
    assert!(!is_lfs_pointer(b""));
    assert!(!is_lfs_pointer(b"version https://example.com/other"));
}

#[test]
fn short_prefix_of_signature_is_no_pointer() {
    assert!(!is_lfs_pointer(b"version https://git-lfs"));
}

#[test]
fn raw_url_percent_encodes_the_path() {
    let url = raw_content_url("owner", "repo", "main", "dir/a b.txt");
    assert_eq!(url, "https://raw.githubusercontent.com/owner/repo/main/dir%2Fa%20b.txt");
}

#[test]
fn media_url_percent_encodes_the_path() {
    let url = media_content_url("owner", "repo", "main", "dir/big.bin");
    assert_eq!(url, "https://media.githubusercontent.com/media/owner/repo/main/dir%2Fbig.bin");
}

#[test]
fn fetch_status_maps_errors_to_download_failed() {
    let r = classify_fetch_status(404, "docs/a.md");
    assert!(matches!(r, Some(RepoPackError::DownloadFailed { path, .. }) if path == "docs/a.md"));
    assert!(classify_fetch_status(200, "docs/a.md").is_none());
    assert!(classify_fetch_status(302, "docs/a.md").is_none());
}
