use vstd::prelude::*;

use crate::error::RepoPackError;
use crate::text::{
    contains_text, has_substring, join_segments_from, join_segs, path_segments, split_nonempty,
    str_eq,
};

verus! {

/// A parsed repository locator with extracted components.
///
/// Supports two locator formats:
/// - Explicit ref: `https://<host>/{owner}/{repo}/tree/{ref}/{path}`
/// - Default branch: `https://<host>/{owner}/{repo}/{path}`
#[derive(Debug, Clone)]
pub struct ParsedUrl {
    pub owner: String,
    pub repo: String,
    /// Branch/tag/commit. None means the default branch needs to be fetched.
    pub git_ref: Option<String>,
    pub dir: String,
}

/// What `url::Url::parse` computes for `s`: the path component of the
/// parsed URL, or nothing when `s` is not a well-formed absolute URL. It
/// depends on `s` alone.
pub uninterp spec fn url_path_of(s: Seq<char>) -> Option<Seq<char>>;

/// Relies on url::Url::parse and url::Url::path: the path component of
/// the parsed URL, or `None` when the string does not parse as a URL.
#[verifier::external_body]
fn parse_url_path(s: &str) -> (r: Option<String>)
    ensures
        r is Some <==> url_path_of(s@) is Some,
        r matches Some(p) ==> p@ == url_path_of(s@)->0,
{
    match url::Url::parse(s) {
        Ok(u) => Some(u.path().to_string()),
        Err(_) => None,
    }
}

/// The hosting convention's single-blob marker; locators holding it point
/// at one file, not a directory, and are rejected.
pub open spec fn blob_marker() -> Seq<char> {
    "/blob/"@
}

/// True when a URL path can be read as `owner/repo[/tree/ref][/dir]`.
pub open spec fn locator_path_ok(path: Seq<char>) -> bool {
    let segs = path_segments(path);
    &&& !contains_text(path, blob_marker())
    &&& segs.len() >= 2
    &&& (segs.len() > 2 && segs[2] == "tree"@ ==> segs.len() >= 4)
}

/// True when the path names an explicit ref after a `tree` marker.
pub open spec fn locator_has_ref(path: Seq<char>) -> bool {
    let segs = path_segments(path);
    segs.len() > 2 && segs[2] == "tree"@
}

/// The directory part of the path: everything after the ref when one is
/// named, everything after owner/repo otherwise.
pub open spec fn locator_dir(path: Seq<char>) -> Seq<char> {
    let segs = path_segments(path);
    if locator_has_ref(path) {
        join_segs(segs.skip(4))
    } else {
        join_segs(segs.skip(2))
    }
}

/// The fields a well-formed locator path parses to.
pub open spec fn parsed_from(path: Seq<char>, p: ParsedUrl) -> bool {
    let segs = path_segments(path);
    &&& p.owner@ == segs[0]
    &&& p.repo@ == segs[1]
    &&& (if locator_has_ref(path) {
        p.git_ref matches Some(r) && r@ == segs[3]
    } else {
        p.git_ref is None
    })
    &&& p.dir@ == locator_dir(path)
}

impl ParsedUrl {
    /// Parses a repository URL into its components.
    ///
    /// Only the path structure decides success, never the host, so
    /// alternate hosts with the same path shape parse fine. A locator
    /// using the single-file `blob` marker is rejected: this tool
    /// downloads directories.
    pub fn parse(url_str: &str) -> (r: Result<ParsedUrl, RepoPackError>)
        ensures
            ({
                let p = url_path_of(url_str@);
                &&& (p is None ==> r is Err)
                &&& (p matches Some(path) ==> {
                    &&& (r is Ok <==> locator_path_ok(path))
                    &&& (r matches Ok(u) ==> parsed_from(path, u))
                })
                &&& (r matches Err(e) ==> e matches RepoPackError::InvalidUrl { url, .. }
                    && url@ == url_str@)
            }),
    {
        let path = match parse_url_path(url_str) {
            Some(p) => p,
            None => {
                return Err(RepoPackError::InvalidUrl {
                    url: String::from_str(url_str),
                    hint: String::from_str(
                        "Expected format: https://github.com/owner/repo[/tree/branch][/path]",
                    ),
                });
            },
        };
        if has_substring(path.as_str(), "/blob/") {
            return Err(RepoPackError::InvalidUrl {
                url: String::from_str(url_str),
                hint: String::from_str(
                    "Use '/tree/' for directories, not '/blob/' (which is for single files)",
                ),
            });
        }
        let segs = split_nonempty(path.as_str());
        if segs.len() < 2 {
            return Err(RepoPackError::InvalidUrl {
                url: String::from_str(url_str),
                hint: String::from_str(
                    "URL must include owner and repo: https://github.com/owner/repo",
                ),
            });
        }
        let owner = segs[0].clone();
        let repo = segs[1].clone();
        if segs.len() > 2 && str_eq(segs[2].as_str(), "tree") {
            if segs.len() < 4 {
                return Err(RepoPackError::InvalidUrl {
                    url: String::from_str(url_str),
                    hint: String::from_str("Missing branch after /tree/"),
                });
            }
            let git_ref = segs[3].clone();
            let dir = join_segments_from(&segs, 4);
            return Ok(ParsedUrl { owner, repo, git_ref: Some(git_ref), dir });
        }
        let dir = join_segments_from(&segs, 2);
        Ok(ParsedUrl { owner, repo, git_ref: None, dir })
    }

    /// True when the locator named no ref, so the default branch must be
    /// fetched before listing.
    pub fn needs_default_branch(&self) -> (b: bool)
        ensures
            b == (self.git_ref is None),
    {
        self.git_ref.is_none()
    }

    /// Sets the git ref (branch/tag/commit).
    pub fn set_git_ref(&mut self, git_ref: String)
        ensures
            final(self).git_ref == Some(git_ref),
            final(self).owner == old(self).owner,
            final(self).repo == old(self).repo,
            final(self).dir == old(self).dir,
    {
        self.git_ref = Some(git_ref);
    }

    /// The git ref, falling back to "main" if none is set.
    pub fn git_ref(&self) -> (r: &str)
        ensures
            match self.git_ref {
                Some(s) => r@ == s@,
                None => r@ == "main"@,
            },
    {
        match &self.git_ref {
            Some(s) => s.as_str(),
            None => "main",
        }
    }
}

} // verus!
