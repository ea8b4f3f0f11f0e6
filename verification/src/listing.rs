use vstd::prelude::*;

use crate::error::RepoPackError;
use crate::text::{is_text_prefix, raw_split, raw_segments, starts_with_str, str_eq};

verus! {

/// One entry of a remote listing: its type tag ("blob", "file", "dir",
/// ...) and its repository-relative path.
#[derive(Debug, Clone)]
pub struct RemoteEntry {
    pub entry_type: String,
    pub path: String,
}

// ---------------------------------------------------------------------------
// Directory-prefix filtering
// ---------------------------------------------------------------------------

/// The prefix that file paths under `dir` start with: `dir` with exactly
/// one trailing separator, or nothing for the repository root.
pub open spec fn dir_prefix_view(dir: Seq<char>) -> Seq<char> {
    if dir.len() == 0 {
        dir
    } else if dir.last() == '/' {
        dir
    } else {
        dir + seq!['/']
    }
}

/// Renders the directory prefix used for filtering listings.
pub fn dir_prefix(dir: &str) -> (r: String)
    ensures
        r@ == dir_prefix_view(dir@),
{
    let n = dir.unicode_len();
    if n == 0 {
        String::new()
    } else if dir.get_char(n - 1) == '/' {
        String::from_str(dir)
    } else {
        let r = String::from_str(dir).concat("/");
        proof {
            reveal_strlit("/");
            assert(("/")@ =~= seq!['/']);
        }
        r
    }
}

/// The paths of the blob (plain file) entries lying under `prefix`, in
/// listing order; an empty prefix means the repository root and matches
/// everything.
pub open spec fn blob_paths_under(es: Seq<RemoteEntry>, prefix: Seq<char>) -> Seq<Seq<char>>
    decreases es.len(),
{
    if es.len() == 0 {
        Seq::<Seq<char>>::empty()
    } else {
        let r = blob_paths_under(es.drop_last(), prefix);
        let e = es.last();
        if e.entry_type@ == "blob"@ && (prefix.len() == 0 || is_text_prefix(prefix, e.path@)) {
            r.push(e.path@)
        } else {
            r
        }
    }
}

/// Filters a fast-listing response to the files under `dir`.
pub fn filter_tree_entries(entries: &Vec<RemoteEntry>, dir: &str) -> (r: Vec<String>)
    ensures
        r.deep_view() == blob_paths_under(entries@, dir_prefix_view(dir@)),
{
    let prefix = dir_prefix(dir);
    let mut r: Vec<String> = Vec::new();
    let mut i: usize = 0;
    proof {
        assert(r.deep_view() =~~= blob_paths_under(entries@.subrange(0, 0), prefix@));
    }
    while i < entries.len()
        invariant
            prefix@ == dir_prefix_view(dir@),
            0 <= i <= entries@.len(),
            r.deep_view() == blob_paths_under(entries@.subrange(0, i as int), prefix@),
        decreases entries@.len() - i,
    {
        let ghost prev = entries@.subrange(0, i as int);
        let ghost prev_deep = r.deep_view();
        let e = &entries[i];
        if str_eq(e.entry_type.as_str(), "blob") && (prefix.as_str().unicode_len() == 0
            || starts_with_str(e.path.as_str(), prefix.as_str())) {
            r.push(e.path.clone());
        }
        i = i + 1;
        proof {
            let cur = entries@.subrange(0, i as int);
            assert(cur.drop_last() =~= prev);
            assert(cur.last() == entries@[i - 1]);
            if cur.last().entry_type@ == "blob"@ && (prefix@.len() == 0 || is_text_prefix(
                prefix@,
                cur.last().path@,
            )) {
                assert(r.deep_view() =~~= prev_deep.push(cur.last().path@));
            }
        }
    }
    proof {
        assert(entries@.subrange(0, entries@.len() as int) =~= entries@);
    }
    r
}

// ---------------------------------------------------------------------------
// Exhaustive-listing partitioning
// ---------------------------------------------------------------------------

/// The paths of the plain-file entries, in listing order.
pub open spec fn file_paths_of(es: Seq<RemoteEntry>) -> Seq<Seq<char>>
    decreases es.len(),
{
    if es.len() == 0 {
        Seq::<Seq<char>>::empty()
    } else {
        let r = file_paths_of(es.drop_last());
        if es.last().entry_type@ == "file"@ {
            r.push(es.last().path@)
        } else {
            r
        }
    }
}

/// The paths of the directory entries, in listing order.
pub open spec fn dir_paths_of(es: Seq<RemoteEntry>) -> Seq<Seq<char>>
    decreases es.len(),
{
    if es.len() == 0 {
        Seq::<Seq<char>>::empty()
    } else {
        let r = dir_paths_of(es.drop_last());
        if es.last().entry_type@ == "dir"@ {
            r.push(es.last().path@)
        } else {
            r
        }
    }
}

/// Splits an exhaustive-listing response into files to emit and
/// directories to recurse into; other entry types (symlinks, submodules)
/// are ignored.
pub fn partition_content_entries(entries: &Vec<RemoteEntry>) -> (r: (Vec<String>, Vec<String>))
    ensures
        r.0.deep_view() == file_paths_of(entries@),
        r.1.deep_view() == dir_paths_of(entries@),
{
    let mut files: Vec<String> = Vec::new();
    let mut dirs: Vec<String> = Vec::new();
    let mut i: usize = 0;
    proof {
        assert(files.deep_view() =~~= file_paths_of(entries@.subrange(0, 0)));
        assert(dirs.deep_view() =~~= dir_paths_of(entries@.subrange(0, 0)));
    }
    while i < entries.len()
        invariant
            0 <= i <= entries@.len(),
            files.deep_view() == file_paths_of(entries@.subrange(0, i as int)),
            dirs.deep_view() == dir_paths_of(entries@.subrange(0, i as int)),
        decreases entries@.len() - i,
    {
        let ghost prev = entries@.subrange(0, i as int);
        let ghost prev_files = files.deep_view();
        let ghost prev_dirs = dirs.deep_view();
        proof {
            reveal_strlit("file");
            reveal_strlit("dir");
            assert(("file")@.len() != ("dir")@.len());
        }
        let e = &entries[i];
        if str_eq(e.entry_type.as_str(), "file") {
            files.push(e.path.clone());
        } else if str_eq(e.entry_type.as_str(), "dir") {
            dirs.push(e.path.clone());
        }
        i = i + 1;
        proof {
            let cur = entries@.subrange(0, i as int);
            assert(cur.drop_last() =~= prev);
            assert(cur.last() == entries@[i - 1]);
            if cur.last().entry_type@ == "file"@ {
                assert(files.deep_view() =~~= prev_files.push(cur.last().path@));
            } else if cur.last().entry_type@ == "dir"@ {
                assert(dirs.deep_view() =~~= prev_dirs.push(cur.last().path@));
            }
        }
    }
    proof {
        assert(entries@.subrange(0, entries@.len() as int) =~= entries@);
    }
    (files, dirs)
}

// ---------------------------------------------------------------------------
// Directory decoding
// ---------------------------------------------------------------------------

/// What `urlencoding::decode` computes for `s`: the decoded text, or
/// nothing when the decoded bytes are not valid UTF-8. It depends on `s`
/// alone.
pub uninterp spec fn percent_decoded_of(s: Seq<char>) -> Option<Seq<char>>;

/// True for text without any percent escape, which decoding keeps as it
/// is.
pub open spec fn percent_free(s: Seq<char>) -> bool {
    forall|i: int| 0 <= i < s.len() ==> s[i] != '%'
}

/// Relies on urlencoding::decode: percent-decodes assuming UTF-8 and
/// fails only on invalid UTF-8; its source returns a string without any
/// percent escape unchanged. The result is a function of the input
/// alone.
#[verifier::external_body]
fn percent_decode(s: &str) -> (r: Option<String>)
    ensures
        r is Some <==> percent_decoded_of(s@) is Some,
        r matches Some(d) ==> d@ == percent_decoded_of(s@)->0,
        r matches Some(d) ==> (percent_free(s@) ==> d@ == s@),
        r is None ==> !percent_free(s@),
{
    match urlencoding::decode(s) {
        Ok(c) => Some(c.into_owned()),
        Err(_) => None,
    }
}

/// Decodes a percent-encoded directory path; an undecodable one is
/// rejected as an invalid locator, as listing requires the plain path.
pub fn decode_dir(dir: &str) -> (r: Result<String, RepoPackError>)
    ensures
        r is Ok <==> percent_decoded_of(dir@) is Some,
        r matches Ok(d) ==> d@ == percent_decoded_of(dir@)->0,
        percent_free(dir@) ==> (r matches Ok(d) && d@ == dir@),
        r matches Err(e) ==> (e matches RepoPackError::InvalidUrl { url, .. } && url@ == dir@),
{
    match percent_decode(dir) {
        Some(d) => Ok(d),
        None => Err(
            RepoPackError::InvalidUrl {
                url: String::from_str(dir),
                hint: String::from_str("Failed to decode directory path"),
            },
        ),
    }
}

// ---------------------------------------------------------------------------
// The listing state machine
// ---------------------------------------------------------------------------
// A ref holding separators is indistinguishable from a directory path
// without probing the remote side, and the fast listing can truncate.
// Both concerns live in one state machine: the driver performs one
// remote call per step and feeds the outcome back in, so every decision
// stays here, free of any network dependency.

/// Where the listing currently stands.
#[derive(Debug)]
pub enum ListingPhase {
    /// Trying the fast tree listing with the current ref/dir split.
    Probing,
    /// The fast listing was truncated with nothing usable: the
    /// exhaustive directory walk takes over.
    Fallback,
    /// Listing finished with these files.
    Done(Vec<String>),
    /// Listing failed; the error aborts the run.
    Failed(RepoPackError),
}

/// The full state: the candidate ref, the remaining directory segments,
/// and the phase.
#[derive(Debug)]
pub struct ListingState {
    pub git_ref: String,
    pub dir_parts: Vec<String>,
    pub phase: ListingPhase,
}

/// What one remote call came back with.
#[derive(Debug)]
pub enum ListingEvent {
    /// The fast call returned these already-filtered files, and whether
    /// its result set was truncated.
    TreeListing { files: Vec<String>, truncated: bool },
    /// The fast call failed because the ref or tree was not found.
    TreeMissing(RepoPackError),
    /// The fast call failed for any other reason.
    TreeError(RepoPackError),
    /// The exhaustive walk returned these files.
    ContentsListing { files: Vec<String> },
    /// The exhaustive walk failed.
    ContentsError(RepoPackError),
}

/// The mathematical mirror of `ListingPhase`.
pub enum ListingPhaseModel {
    Probing,
    Fallback,
    Done(Seq<Seq<char>>),
    Failed(RepoPackError),
}

/// The mathematical mirror of `ListingState`.
pub struct ListingStateModel {
    pub git_ref: Seq<char>,
    pub dir_parts: Seq<Seq<char>>,
    pub phase: ListingPhaseModel,
}

/// The mathematical mirror of `ListingEvent`.
pub enum ListingEventModel {
    TreeListing { files: Seq<Seq<char>>, truncated: bool },
    TreeMissing(RepoPackError),
    TreeError(RepoPackError),
    ContentsListing { files: Seq<Seq<char>> },
    ContentsError(RepoPackError),
}

impl View for ListingPhase {
    type V = ListingPhaseModel;

    open spec fn view(&self) -> ListingPhaseModel {
        match self {
            ListingPhase::Probing => ListingPhaseModel::Probing,
            ListingPhase::Fallback => ListingPhaseModel::Fallback,
            ListingPhase::Done(files) => ListingPhaseModel::Done(files.deep_view()),
            ListingPhase::Failed(e) => ListingPhaseModel::Failed(*e),
        }
    }
}

impl View for ListingState {
    type V = ListingStateModel;

    open spec fn view(&self) -> ListingStateModel {
        ListingStateModel {
            git_ref: self.git_ref@,
            dir_parts: self.dir_parts.deep_view(),
            phase: self.phase@,
        }
    }
}

impl View for ListingEvent {
    type V = ListingEventModel;

    open spec fn view(&self) -> ListingEventModel {
        match self {
            ListingEvent::TreeListing { files, truncated } => ListingEventModel::TreeListing {
                files: files.deep_view(),
                truncated: *truncated,
            },
            ListingEvent::TreeMissing(e) => ListingEventModel::TreeMissing(*e),
            ListingEvent::TreeError(e) => ListingEventModel::TreeError(*e),
            ListingEvent::ContentsListing { files } => ListingEventModel::ContentsListing {
                files: files.deep_view(),
            },
            ListingEvent::ContentsError(e) => ListingEventModel::ContentsError(*e),
        }
    }
}

/// The transition function of the listing machine.
///
/// Probing: a usable fast listing finishes; a truncated listing with zero
/// usable entries switches to the exhaustive fallback; a missing ref
/// shifts the first directory segment onto the ref (joined by '/') and
/// probes again, until the directory is exhausted and the error
/// surfaces; any other error surfaces at once. Fallback: the walk's
/// result finishes, its error surfaces. Terminal states do not move.
pub open spec fn listing_step_model(s: ListingStateModel, e: ListingEventModel)
    -> ListingStateModel {
    match s.phase {
        ListingPhaseModel::Probing => match e {
            ListingEventModel::TreeListing { files, truncated } => {
                if files.len() == 0 && truncated {
                    ListingStateModel { phase: ListingPhaseModel::Fallback, ..s }
                } else {
                    ListingStateModel { phase: ListingPhaseModel::Done(files), ..s }
                }
            },
            ListingEventModel::TreeMissing(err) => {
                if s.dir_parts.len() > 0 {
                    ListingStateModel {
                        git_ref: s.git_ref + seq!['/'] + s.dir_parts[0],
                        dir_parts: s.dir_parts.subrange(1, s.dir_parts.len() as int),
                        phase: ListingPhaseModel::Probing,
                    }
                } else {
                    ListingStateModel { phase: ListingPhaseModel::Failed(err), ..s }
                }
            },
            ListingEventModel::TreeError(err) => ListingStateModel {
                phase: ListingPhaseModel::Failed(err),
                ..s
            },
            _ => s,
        },
        ListingPhaseModel::Fallback => match e {
            ListingEventModel::ContentsListing { files } => ListingStateModel {
                phase: ListingPhaseModel::Done(files),
                ..s
            },
            ListingEventModel::ContentsError(err) => ListingStateModel {
                phase: ListingPhaseModel::Failed(err),
                ..s
            },
            _ => s,
        },
        _ => s,
    }
}

/// Advances the listing machine by one observed remote outcome.
pub fn listing_step(state: ListingState, event: ListingEvent) -> (r: ListingState)
    ensures
        r@ == listing_step_model(state@, event@),
{
    let ghost old_state = state@;
    let ghost old_event = event@;
    match state.phase {
        ListingPhase::Probing => match event {
            ListingEvent::TreeListing { files, truncated } => {
                if files.len() == 0 && truncated {
                    let r = ListingState { phase: ListingPhase::Fallback, ..state };
                    proof {
                        assert(files.deep_view() =~~= Seq::<Seq<char>>::empty());
                    }
                    r
                } else {
                    ListingState { phase: ListingPhase::Done(files), ..state }
                }
            },
            ListingEvent::TreeMissing(err) => {
                if state.dir_parts.len() > 0 {
                    let mut parts = state.dir_parts;
                    let first = parts.remove(0);
                    let new_ref = state.git_ref.concat("/").concat(first.as_str());
                    let r = ListingState {
                        git_ref: new_ref,
                        dir_parts: parts,
                        phase: ListingPhase::Probing,
                    };
                    proof {
                        reveal_strlit("/");
                        assert(("/")@ =~= seq!['/']);
                        assert(parts.deep_view() =~~= old_state.dir_parts.subrange(
                            1,
                            old_state.dir_parts.len() as int,
                        ));
                        assert(first@ == old_state.dir_parts[0]);
                    }
                    r
                } else {
                    ListingState { phase: ListingPhase::Failed(err), ..state }
                }
            },
            ListingEvent::TreeError(err) => ListingState {
                phase: ListingPhase::Failed(err),
                ..state
            },
            other => ListingState { phase: ListingPhase::Probing, ..state },
        },
        ListingPhase::Fallback => match event {
            ListingEvent::ContentsListing { files } => ListingState {
                phase: ListingPhase::Done(files),
                ..state
            },
            ListingEvent::ContentsError(err) => ListingState {
                phase: ListingPhase::Failed(err),
                ..state
            },
            other => ListingState { phase: ListingPhase::Fallback, ..state },
        },
        done_or_failed => ListingState { phase: done_or_failed, ..state },
    }
}

/// The candidate ref after the first `j` directory segments have been
/// shifted onto the initial ref, each joined by a separator.
pub open spec fn shifted_ref(r0: Seq<char>, parts: Seq<Seq<char>>, j: int) -> Seq<char>
    decreases j,
{
    if j <= 0 {
        r0
    } else {
        shifted_ref(r0, parts, j - 1) + seq!['/'] + parts[j - 1]
    }
}

/// The machine after `j` missing-ref outcomes in a row.
pub open spec fn probed_model(s: ListingStateModel, e: RepoPackError, j: int) -> ListingStateModel
    decreases j,
{
    if j <= 0 {
        s
    } else {
        listing_step_model(probed_model(s, e, j - 1), ListingEventModel::TreeMissing(e))
    }
}

/// Ref disambiguation converges: after `j` failed probes the machine is
/// still probing, its candidate ref is the initial ref extended by the
/// first `j` directory segments, and the remaining directory is the
/// rest — so a ref hidden `j` segments deep is reached within `j`
/// probes, at most one per directory segment.
pub proof fn lemma_probe_convergence(s: ListingStateModel, e: RepoPackError, j: int)
    requires
        s.phase is Probing,
        0 <= j <= s.dir_parts.len(),
    ensures
        probed_model(s, e, j).phase is Probing,
        probed_model(s, e, j).git_ref == shifted_ref(s.git_ref, s.dir_parts, j),
        probed_model(s, e, j).dir_parts == s.dir_parts.skip(j),
    decreases j,
{
    if j == 0 {
        assert(s.dir_parts.skip(0) =~~= s.dir_parts);
    } else {
        lemma_probe_convergence(s, e, j - 1);
        let t0 = probed_model(s, e, j - 1);
        assert(t0.dir_parts == s.dir_parts.skip(j - 1));
        assert(t0.dir_parts.len() == s.dir_parts.len() - (j - 1));
        assert(t0.dir_parts[0] == s.dir_parts[j - 1]);
        assert(t0.dir_parts.subrange(1, t0.dir_parts.len() as int) =~~= s.dir_parts.skip(j));
    }
}

/// Once every directory segment has been shifted, one more missing-ref
/// outcome is terminal: the error surfaces.
pub proof fn lemma_probe_exhaustion(s: ListingStateModel, e: RepoPackError)
    requires
        s.phase is Probing,
    ensures
        listing_step_model(
            probed_model(s, e, s.dir_parts.len() as int),
            ListingEventModel::TreeMissing(e),
        ).phase == ListingPhaseModel::Failed(e),
{
    lemma_probe_convergence(s, e, s.dir_parts.len() as int);
}

/// The truncation fallback: a fast listing that reports truncation and
/// returns zero usable entries moves the machine to the exhaustive
/// fallback, with ref and directory untouched, and the fallback's
/// listing is then returned as the final result.
pub proof fn lemma_truncation_fallback(s: ListingStateModel, files: Seq<Seq<char>>)
    requires
        s.phase is Probing,
    ensures
        ({
            let mid = listing_step_model(
                s,
                ListingEventModel::TreeListing { files: Seq::<Seq<char>>::empty(), truncated: true },
            );
            &&& mid.phase is Fallback
            &&& mid.git_ref == s.git_ref
            &&& mid.dir_parts == s.dir_parts
            &&& listing_step_model(mid, ListingEventModel::ContentsListing { files }).phase
                == ListingPhaseModel::Done(files)
        }),
{
}

// ---------------------------------------------------------------------------
// Endpoints
// ---------------------------------------------------------------------------

/// The fast tree-listing endpoint for a repository and ref.
pub fn trees_endpoint(owner: &str, repo: &str, git_ref: &str) -> (r: String)
    ensures
        r@ == owner@ + "/"@ + repo@ + "/git/trees/"@ + git_ref@ + "?recursive=1"@,
{
    String::from_str(owner).concat("/").concat(repo).concat("/git/trees/").concat(
        git_ref,
    ).concat("?recursive=1")
}

/// The exhaustive directory-contents endpoint for one directory.
pub fn contents_endpoint(owner: &str, repo: &str, dir: &str, git_ref: &str) -> (r: String)
    ensures
        r@ == owner@ + "/"@ + repo@ + "/contents/"@ + dir@ + "?ref="@ + git_ref@,
{
    String::from_str(owner).concat("/").concat(repo).concat("/contents/").concat(dir).concat(
        "?ref=",
    ).concat(git_ref)
}

/// The full API URL for an endpoint path.
pub fn api_url(endpoint: &str) -> (r: String)
    ensures
        r@ == "https://api.github.com/repos/"@ + endpoint@,
{
    String::from_str("https://api.github.com/repos/").concat(endpoint)
}

// ---------------------------------------------------------------------------
// Response-status classification
// ---------------------------------------------------------------------------

/// A header's text, or the placeholder used when it is missing.
pub open spec fn header_or_unknown(h: Option<String>) -> Seq<char> {
    match h {
        Some(v) => v@,
        None => "unknown"@,
    }
}

/// The owner named by an endpoint path: its first '/'-separated part.
pub open spec fn endpoint_owner(ep: Seq<char>) -> Seq<char> {
    raw_split(ep)[0]
}

/// The repository named by an endpoint path: its second part, or the
/// placeholder when there is none.
pub open spec fn endpoint_repo(ep: Seq<char>) -> Seq<char> {
    if raw_split(ep).len() > 1 {
        raw_split(ep)[1]
    } else {
        "unknown"@
    }
}

fn header_value_or_unknown(h: Option<String>) -> (r: String)
    ensures
        r@ == header_or_unknown(h),
{
    match h {
        Some(v) => v,
        None => String::from_str("unknown"),
    }
}

/// Maps an API response status to the error it stands for, or `None` for
/// a success status.
///
/// A forbidden status with the rate-limit budget exhausted is a rate
/// limit; forbidden otherwise wants a credential; too-many-requests is a
/// rate limit with its retry hint; not-found names the repository; any
/// other client or server error is a failed download of the endpoint.
pub fn classify_api_status(
    status: u16,
    rate_remaining_zero: bool,
    reset_time: Option<String>,
    retry_after: Option<String>,
    endpoint: &str,
) -> (r: Option<RepoPackError>)
    ensures
        status == 403 && rate_remaining_zero ==> (r matches Some(e) && e matches
            RepoPackError::RateLimited { reset_time: t } && t@ == header_or_unknown(reset_time)),
        status == 403 && !rate_remaining_zero ==> (r matches Some(e) && e is AuthRequired),
        status == 429 ==> (r matches Some(e) && e matches RepoPackError::RateLimited {
            reset_time: t,
        } && t@ == header_or_unknown(retry_after)),
        status == 404 ==> (r matches Some(e) && e matches RepoPackError::NotFound {
            owner,
            repo,
            ..
        } && owner@ == endpoint_owner(endpoint@) && repo@ == endpoint_repo(endpoint@)),
        status != 403 && status != 429 && status != 404 && 400 <= status <= 599 ==> (r matches
            Some(e) && e matches RepoPackError::DownloadFailed { path, .. } && path@
            == endpoint@),
        !(400 <= status <= 599) ==> r is None,
{
    if status == 403 {
        if rate_remaining_zero {
            return Some(
                RepoPackError::RateLimited { reset_time: header_value_or_unknown(reset_time) },
            );
        }
        return Some(RepoPackError::AuthRequired);
    }
    if status == 429 {
        return Some(
            RepoPackError::RateLimited { reset_time: header_value_or_unknown(retry_after) },
        );
    }
    if status == 404 {
        let parts = raw_segments(endpoint);
        proof {
            crate::text::lemma_raw_split_len(endpoint@);
        }
        let owner = parts[0].clone();
        let repo = if parts.len() > 1 {
            parts[1].clone()
        } else {
            String::from_str("unknown")
        };
        return Some(
            RepoPackError::NotFound {
                owner,
                repo,
                hint: String::from_str(
                    "Check that the repository exists and the URL is correct",
                ),
            },
        );
    }
    if 400 <= status && status <= 599 {
        return Some(
            RepoPackError::DownloadFailed {
                path: String::from_str(endpoint),
                detail: String::from_str("unexpected response status"),
            },
        );
    }
    None
}

} // verus!
