use vstd::prelude::*;
use vstd::string::StringSliceAdditionalSpecFns;

use crate::error::RepoPackError;

verus! {

// ---------------------------------------------------------------------------
// Large-object pointer detection
// ---------------------------------------------------------------------------

/// The marker that opens every large-object pointer stub.
pub open spec fn lfs_prefix_bytes() -> Seq<u8> {
    "version https://git-lfs.github.com/spec/v1".spec_bytes()
}

fn lfs_prefix_vec() -> (v: Vec<u8>)
    ensures
        v@ == lfs_prefix_bytes(),
{
    "version https://git-lfs.github.com/spec/v1".as_bytes_vec()
}

/// Reports whether a content length falls in the narrow window (128-140
/// bytes) characteristic of a large-object pointer stub. Bodies outside
/// the window need no signature check at all.
pub fn might_be_lfs_pointer(content_length: Option<usize>) -> (b: bool)
    ensures
        b == (content_length matches Some(l) && 128 <= l <= 140),
{
    match content_length {
        Some(l) => 128 <= l && l <= 140,
        None => false,
    }
}

/// Reports whether a response body is a large-object pointer stub: it
/// must begin with the pointer format's version marker.
pub fn is_lfs_pointer(body: &[u8]) -> (b: bool)
    ensures
        b == (body@.len() >= lfs_prefix_bytes().len() && body@.subrange(
            0,
            lfs_prefix_bytes().len() as int,
        ) == lfs_prefix_bytes()),
{
    let prefix = lfs_prefix_vec();
    if body.len() < prefix.len() {
        return false;
    }
    let n = prefix.len();
    let mut i: usize = 0;
    while i < n
        invariant
            prefix@ == lfs_prefix_bytes(),
            n == prefix@.len() <= body@.len(),
            0 <= i <= n,
            forall|j: int| 0 <= j < i ==> body@[j] == prefix@[j],
        decreases n - i,
    {
        if body[i] != prefix[i] {
            assert(body@.subrange(0, prefix@.len() as int)[i as int] != prefix@[i as int]);
            return false;
        }
        i = i + 1;
    }
    proof {
        assert(body@.subrange(0, prefix@.len() as int) =~= prefix@);
    }
    true
}

// ---------------------------------------------------------------------------
// Content URLs
// ---------------------------------------------------------------------------

/// What `urlencoding::encode` computes for `s`. It depends on `s` alone.
pub uninterp spec fn percent_encoded_of(s: Seq<char>) -> Seq<char>;

/// Relies on urlencoding::encode: percent-encodes every byte except
/// ASCII alphanumerics and '-', '_', '.', '~'; the result is a function
/// of the input alone.
#[verifier::external_body]
fn percent_encode(s: &str) -> (r: String)
    ensures
        r@ == percent_encoded_of(s@),
{
    urlencoding::encode(s).into_owned()
}

/// The raw-content URL for one file of a repository at a ref, with the
/// file path percent-encoded.
pub fn raw_content_url(owner: &str, repo: &str, git_ref: &str, path: &str) -> (r: String)
    ensures
        r@ == "https://raw.githubusercontent.com/"@ + owner@ + "/"@ + repo@ + "/"@ + git_ref@
            + "/"@ + percent_encoded_of(path@),
{
    let encoded = percent_encode(path);
    String::from_str("https://raw.githubusercontent.com/").concat(owner).concat("/").concat(
        repo,
    ).concat("/").concat(git_ref).concat("/").concat(encoded.as_str())
}

/// The media-resolution URL used when a raw response turned out to be a
/// pointer stub.
pub fn media_content_url(owner: &str, repo: &str, git_ref: &str, path: &str) -> (r: String)
    ensures
        r@ == "https://media.githubusercontent.com/media/"@ + owner@ + "/"@ + repo@ + "/"@
            + git_ref@ + "/"@ + percent_encoded_of(path@),
{
    let encoded = percent_encode(path);
    String::from_str("https://media.githubusercontent.com/media/").concat(owner).concat(
        "/",
    ).concat(repo).concat("/").concat(git_ref).concat("/").concat(encoded.as_str())
}

/// Maps a raw-content response status to the per-file error it stands
/// for, or `None` for a success status.
pub fn classify_fetch_status(status: u16, path: &str) -> (r: Option<RepoPackError>)
    ensures
        400 <= status <= 599 ==> (r matches Some(e) && e matches RepoPackError::DownloadFailed {
            path: p,
            ..
        } && p@ == path@),
        !(400 <= status <= 599) ==> r is None,
{
    if 400 <= status && status <= 599 {
        Some(
            RepoPackError::DownloadFailed {
                path: String::from_str(path),
                detail: String::from_str("unexpected response status"),
            },
        )
    } else {
        None
    }
}

} // verus!
