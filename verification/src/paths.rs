use vstd::prelude::*;

use crate::error::RepoPackError;
use crate::text::{
    join_segments, join_segs, raw_segments, raw_split, str_eq,
};

verus! {

// ---------------------------------------------------------------------------
// Path components
// ---------------------------------------------------------------------------

/// The current-directory marker.
pub open spec fn dot() -> Seq<char> {
    seq!['.']
}

/// The parent-directory marker.
pub open spec fn dotdot() -> Seq<char> {
    seq!['.', '.']
}

/// The split segments of a path that carry meaning: empty segments (from
/// doubled or trailing separators) and `.` markers are dropped.
pub open spec fn keep_components(parts: Seq<Seq<char>>) -> Seq<Seq<char>>
    decreases parts.len(),
{
    if parts.len() == 0 {
        Seq::<Seq<char>>::empty()
    } else {
        let r = keep_components(parts.drop_last());
        if parts.last().len() > 0 && parts.last() != dot() {
            r.push(parts.last())
        } else {
            r
        }
    }
}

/// The components of a path string: its '/'-separated segments, with empty
/// segments and `.` markers dropped. `..` markers are kept; `normalize`
/// resolves them.
pub open spec fn path_components(s: Seq<char>) -> Seq<Seq<char>> {
    keep_components(raw_split(s))
}

/// What a single component of a path may look like: non-empty, not the `.`
/// marker, and free of separators.
pub open spec fn valid_component(p: Seq<char>) -> bool {
    &&& p.len() > 0
    &&& p != dot()
    &&& forall|j: int| 0 <= j < p.len() ==> p[j] != '/'
}

/// True for path strings that start with a separator.
pub open spec fn is_abs(s: Seq<char>) -> bool {
    s.len() > 0 && s[0] == '/'
}

/// Lexical resolution of `.` and `..`: a `..` removes the preceding
/// component where one exists; leading `..` markers (which nothing can
/// absorb) are kept.
pub open spec fn normalize(parts: Seq<Seq<char>>) -> Seq<Seq<char>>
    decreases parts.len(),
{
    if parts.len() == 0 {
        Seq::<Seq<char>>::empty()
    } else {
        let r = normalize(parts.drop_last());
        if parts.last() == dotdot() {
            if r.len() > 0 && r.last() != dotdot() {
                r.drop_last()
            } else {
                r.push(dotdot())
            }
        } else {
            r.push(parts.last())
        }
    }
}

/// True when `p` is a prefix of the component sequence `s`.
pub open spec fn is_seg_prefix(p: Seq<Seq<char>>, s: Seq<Seq<char>>) -> bool {
    p.len() <= s.len() && s.subrange(0, p.len() as int) == p
}

// ---------------------------------------------------------------------------
// Executable component handling
// ---------------------------------------------------------------------------

/// The components of the path string `s`, as owned segment strings.
pub fn path_components_vec(s: &str) -> (r: Vec<String>)
    ensures
        r.deep_view() == path_components(s@),
{
    let raw = raw_segments(s);
    let mut r: Vec<String> = Vec::new();
    let mut i: usize = 0;
    proof {
        reveal_strlit(".");
        assert((".")@ =~= dot());
        assert(r.deep_view() =~~= keep_components(raw.deep_view().subrange(0, 0)));
    }
    while i < raw.len()
        invariant
            raw.deep_view() == raw_split(s@),
            (".")@ == dot(),
            0 <= i <= raw@.len(),
            r.deep_view() == keep_components(raw.deep_view().subrange(0, i as int)),
        decreases raw@.len() - i,
    {
        let ghost prev = raw.deep_view().subrange(0, i as int);
        let ghost prev_deep = r.deep_view();
        let seg = &raw[i];
        if seg.as_str().unicode_len() > 0 && !str_eq(seg.as_str(), ".") {
            r.push(seg.clone());
        }
        i = i + 1;
        proof {
            let cur = raw.deep_view().subrange(0, i as int);
            assert(cur.drop_last() =~= prev);
            assert(cur.last() == raw.deep_view()[i - 1]);
            if cur.last().len() > 0 && cur.last() != dot() {
                assert(r.deep_view() =~~= prev_deep.push(cur.last()));
            }
        }
    }
    proof {
        assert(raw.deep_view().subrange(0, raw.deep_view().len() as int) =~= raw.deep_view());
    }
    r
}

/// Whether the path string holds any `.` or `..` segment, so that resolving
/// them would change it.
pub open spec fn has_dot_segments(s: Seq<char>) -> bool {
    exists|i: int|
        0 <= i < raw_split(s).len() && (raw_split(s)[i] == dot() || raw_split(s)[i] == dotdot())
}

/// Reports whether `path` holds a `.` or `..` segment that normalization
/// would resolve.
pub fn needs_normalization(path: &str) -> (b: bool)
    ensures
        b == has_dot_segments(path@),
{
    let raw = raw_segments(path);
    let mut i: usize = 0;
    proof {
        reveal_strlit(".");
        reveal_strlit("..");
        assert((".")@ =~= dot());
        assert(("..")@ =~= dotdot());
    }
    while i < raw.len()
        invariant
            raw.deep_view() == raw_split(path@),
            (".")@ == dot(),
            ("..")@ == dotdot(),
            0 <= i <= raw@.len(),
            forall|j: int|
                0 <= j < i ==> raw.deep_view()[j] != dot() && raw.deep_view()[j] != dotdot(),
        decreases raw@.len() - i,
    {
        let seg = &raw[i];
        if str_eq(seg.as_str(), ".") || str_eq(seg.as_str(), "..") {
            proof {
                assert(raw.deep_view()[i as int] == dot() || raw.deep_view()[i as int]
                    == dotdot());
                assert(has_dot_segments(path@));
            }
            return true;
        }
        i = i + 1;
    }
    false
}

/// The anchor of a directory: its final path segment, which output
/// paths are re-rooted at. A directory without components (the
/// repository root) is its own anchor.
pub fn anchor_of(dir: &str) -> (r: String)
    ensures
        path_components(dir@).len() > 0 ==> r@ == path_components(dir@).last(),
        path_components(dir@).len() == 0 ==> r@ == dir@,
{
    let comps = path_components_vec(dir);
    if comps.len() > 0 {
        comps[comps.len() - 1].clone()
    } else {
        String::from_str(dir)
    }
}

/// Resolves `.` and `..` markers in a component list.
pub fn normalize_components(parts: &Vec<String>) -> (r: Vec<String>)
    ensures
        r.deep_view() == normalize(parts.deep_view()),
{
    let mut r: Vec<String> = Vec::new();
    let mut i: usize = 0;
    proof {
        reveal_strlit("..");
        assert(("..")@ =~= dotdot());
        assert(r.deep_view() =~~= normalize(parts.deep_view().subrange(0, 0)));
    }
    while i < parts.len()
        invariant
            ("..")@ == dotdot(),
            0 <= i <= parts@.len(),
            r.deep_view() == normalize(parts.deep_view().subrange(0, i as int)),
        decreases parts@.len() - i,
    {
        let ghost prev = parts.deep_view().subrange(0, i as int);
        let ghost prev_deep = r.deep_view();
        let seg = &parts[i];
        if str_eq(seg.as_str(), "..") {
            if r.len() > 0 && !str_eq(r[r.len() - 1].as_str(), "..") {
                r.pop();
                proof {
                    assert(r.deep_view() =~~= prev_deep.drop_last());
                }
            } else {
                r.push(String::from_str(".."));
                proof {
                    assert(r.deep_view() =~~= prev_deep.push(dotdot()));
                }
            }
        } else {
            r.push(seg.clone());
            proof {
                assert(r.deep_view() =~~= prev_deep.push(parts.deep_view()[i as int]));
            }
        }
        i = i + 1;
        proof {
            let cur = parts.deep_view().subrange(0, i as int);
            assert(cur.drop_last() =~= prev);
            assert(cur.last() == parts.deep_view()[i - 1]);
        }
    }
    proof {
        assert(parts.deep_view().subrange(0, parts.deep_view().len() as int)
            =~= parts.deep_view());
    }
    r
}

/// The string form of a lexically normalized path: resolved components
/// joined by single separators, with a leading separator kept for absolute
/// paths.
pub open spec fn normalized_path_view(s: Seq<char>) -> Seq<char> {
    if is_abs(s) {
        seq!['/'] + join_segs(normalize(path_components(s)))
    } else {
        join_segs(normalize(path_components(s)))
    }
}

/// Normalizes a path string lexically: drops `.` segments and empty
/// segments, resolves `..` against preceding components, and collapses
/// separators. The filesystem is never consulted.
pub fn normalize_path(path: &str) -> (r: String)
    ensures
        r@ == normalized_path_view(path@),
{
    let comps = path_components_vec(path);
    let norm = normalize_components(&comps);
    let joined = join_segments(&norm);
    if path.unicode_len() > 0 && path.get_char(0) == '/' {
        let r = String::from_str("/").concat(joined.as_str());
        proof {
            reveal_strlit("/");
            assert(("/")@ =~= seq!['/']);
        }
        r
    } else {
        joined
    }
}

// ---------------------------------------------------------------------------
// Anchor extraction
// ---------------------------------------------------------------------------

/// The first position at or after `i` where the anchor components `a`
/// occur in `cs` with at least one component following them, or -1 when
/// there is none.
pub open spec fn find_anchor_from(cs: Seq<Seq<char>>, a: Seq<Seq<char>>, i: int) -> int
    decreases cs.len() - i,
{
    if i + a.len() >= cs.len() {
        -1
    } else if cs.subrange(i, i + a.len() as int) == a {
        i
    } else {
        find_anchor_from(cs, a, i + 1)
    }
}

/// The suffix of `file`'s components from the first occurrence of the
/// anchor `base` onwards (anchor included); the empty suffix when the
/// components of `file` merely end with the anchor; `None` when the anchor
/// has no components or does not occur.
pub open spec fn extract_spec(base: Seq<char>, file: Seq<char>) -> Option<Seq<Seq<char>>> {
    let a = path_components(base);
    let cs = path_components(file);
    if a.len() == 0 {
        None
    } else if find_anchor_from(cs, a, 0) >= 0 {
        Some(cs.skip(find_anchor_from(cs, a, 0)))
    } else if a.len() <= cs.len() && cs.skip(cs.len() - a.len()) == a {
        Some(Seq::<Seq<char>>::empty())
    } else {
        None
    }
}

/// Owned copies of the components of `cs` from index `i` onwards.
fn clone_tail(cs: &Vec<String>, i: usize) -> (r: Vec<String>)
    requires
        i <= cs@.len(),
    ensures
        r.deep_view() == cs.deep_view().skip(i as int),
{
    let mut r: Vec<String> = Vec::new();
    let mut j: usize = i;
    while j < cs.len()
        invariant
            i <= j <= cs@.len(),
            r.deep_view() == cs.deep_view().subrange(i as int, j as int),
        decreases cs@.len() - j,
    {
        let ghost prev_deep = r.deep_view();
        r.push(cs[j].clone());
        j = j + 1;
        proof {
            let cur = cs.deep_view().subrange(i as int, j as int);
            assert(cur.drop_last() =~= cs.deep_view().subrange(i as int, j - 1));
            assert(r.deep_view() =~~= prev_deep.push(cs.deep_view()[j - 1]));
            assert(r.deep_view() =~~= cur);
        }
    }
    proof {
        assert(cs.deep_view().subrange(i as int, cs.deep_view().len() as int)
            =~= cs.deep_view().skip(i as int));
    }
    r
}

/// The error used when a path cannot be anchored: an unanchored path
/// cannot be placed safely, so it is treated as a traversal.
fn unanchored_error(base_norm: &String, file_norm: &String) -> (e: RepoPackError)
    ensures
        e is PathTraversal,
{
    RepoPackError::PathTraversal {
        path: String::from_str("base directory ").concat(base_norm.as_str()).concat(
            " not found in file path ",
        ).concat(file_norm.as_str()),
    }
}

/// The components of `file_path` from the first occurrence of the
/// `base_dir` anchor onwards; see `extract_spec`.
fn extract_components(base_dir: &str, file_path: &str) -> (r: Result<Vec<String>, RepoPackError>)
    ensures
        ({
            let e = extract_spec(base_dir@, file_path@);
            &&& (r is Ok <==> e is Some)
            &&& (e matches Some(sfx) ==> r matches Ok(v) && v.deep_view() == sfx)
            &&& (r is Err ==> r->Err_0 is PathTraversal)
        }),
{
    let acs = path_components_vec(base_dir);
    let cs = path_components_vec(file_path);
    let k = acs.len();
    let n = cs.len();
    if k == 0 {
        let base_norm = join_segments(&acs);
        let file_norm = join_segments(&cs);
        return Err(unanchored_error(&base_norm, &file_norm));
    }
    let ghost av = acs.deep_view();
    let ghost cv = cs.deep_view();
    let mut i: usize = 0;
    while k < n - i
        invariant
            k == acs@.len(),
            n == cs@.len(),
            k >= 1,
            av == acs.deep_view(),
            cv == cs.deep_view(),
            av == path_components(base_dir@),
            cv == path_components(file_path@),
            av.len() == k,
            cv.len() == n,
            0 <= i <= n,
            find_anchor_from(cv, av, 0) == find_anchor_from(cv, av, i as int),
        decreases n - i,
    {
        if segs_match(&cs, i, &acs) {
            proof {
                assert(find_anchor_from(cv, av, i as int) == i);
            }
            return Ok(clone_tail(&cs, i));
        }
        i = i + 1;
    }
    proof {
        assert(find_anchor_from(cv, av, i as int) == -1);
    }
    if n >= k && segs_match(&cs, n - k, &acs) {
        proof {
            assert(cv.subrange(n - k, n as int) =~= cv.skip(n - k));
        }
        return Ok(Vec::new());
    }
    proof {
        if n >= k {
            assert(cv.skip(n - k) =~= cv.subrange(n - k, n as int));
        }
    }
    let base_norm = join_segments(&acs);
    let file_norm = join_segments(&cs);
    Err(unanchored_error(&base_norm, &file_norm))
}

/// Extracts the relative path starting from the `base_dir` anchor.
///
/// Both arguments are normalized lexically first; the result is the
/// normalized suffix of `file_path` from the first component run equal to
/// `base_dir`'s components onwards (anchor included). A path whose
/// components merely end with the anchor yields the empty string. A path
/// that the anchor does not occur in cannot be placed safely and is
/// rejected as a traversal.
pub fn extract_relative_path(base_dir: &str, file_path: &str) -> (r: Result<
    String,
    RepoPackError,
>)
    ensures
        ({
            let e = extract_spec(base_dir@, file_path@);
            &&& (r is Ok <==> e is Some)
            &&& (e matches Some(sfx) ==> r matches Ok(s) && s@ == join_segs(sfx))
            &&& (r is Err ==> r->Err_0 is PathTraversal)
        }),
{
    match extract_components(base_dir, file_path) {
        Ok(v) => Ok(join_segments(&v)),
        Err(e) => Err(e),
    }
}

// ---------------------------------------------------------------------------
// Containment
// ---------------------------------------------------------------------------

/// The components of the output path: the root's components followed by
/// the suffix, resolved lexically.
pub open spec fn resolve_components(root: Seq<char>, sfx: Seq<Seq<char>>) -> Seq<Seq<char>> {
    normalize(path_components(root) + sfx)
}

/// The containment check: the resolved output path must still lie under
/// the (resolved) output root.
pub open spec fn resolve_contained(root: Seq<char>, sfx: Seq<Seq<char>>) -> bool {
    is_seg_prefix(normalize(path_components(root)), resolve_components(root, sfx))
}

/// The string form of the resolved output path.
pub open spec fn resolved_path_view(root: Seq<char>, sfx: Seq<Seq<char>>) -> Seq<char> {
    if is_abs(root) {
        seq!['/'] + join_segs(resolve_components(root, sfx))
    } else {
        join_segs(resolve_components(root, sfx))
    }
}

/// Computes the output path for `file_path` under `output_root`, anchored
/// at `base_dir`, and rejects any resolution that would escape the root.
///
/// The suffix extracted from `file_path` is joined onto the root, both are
/// resolved lexically (`.` and `..`, without consulting the filesystem),
/// and the resolved root's components must be a prefix of the resolved
/// output path's components; any mismatch is a traversal. No directory is
/// created and nothing is written here.
pub fn resolve_output_path(base_dir: &str, file_path: &str, output_root: &str) -> (r: Result<
    String,
    RepoPackError,
>)
    ensures
        ({
            let e = extract_spec(base_dir@, file_path@);
            &&& e is None ==> r is Err
            &&& (e matches Some(sfx) ==> {
                &&& (r is Ok <==> resolve_contained(output_root@, sfx))
                &&& (r matches Ok(p) ==> {
                    &&& p@ == resolved_path_view(output_root@, sfx)
                    &&& path_components(p@) == resolve_components(output_root@, sfx)
                    &&& is_seg_prefix(
                        normalize(path_components(output_root@)),
                        path_components(p@),
                    )
                })
            })
            &&& (r is Err ==> r->Err_0 is PathTraversal)
        }),
{
    let sc = match extract_components(base_dir, file_path) {
        Ok(v) => v,
        Err(e) => {
            return Err(e);
        },
    };
    let ghost sfx = sc.deep_view();
    let rc = path_components_vec(output_root);
    let nroot = normalize_components(&rc);
    let mut all = rc;
    let mut tail = sc;
    all.append(&mut tail);
    proof {
        assert(all.deep_view() =~~= path_components(output_root@) + sfx);
    }
    let nfull = normalize_components(&all);
    if !(nroot.len() <= nfull.len() && segs_match(&nfull, 0, &nroot)) {
        proof {
            assert(!resolve_contained(output_root@, sfx));
        }
        let msg = String::from_str("").concat(file_path).concat(
            " is outside output directory ",
        ).concat(output_root);
        return Err(RepoPackError::PathTraversal { path: msg });
    }
    let joined = join_segments(&nfull);
    proof {
        let a = path_components(base_dir@);
        let cs = path_components(file_path@);
        lemma_components_valid(output_root@);
        lemma_components_valid(file_path@);
        assert forall|i: int| 0 <= i < sfx.len() implies valid_component(#[trigger] sfx[i]) by {
            if find_anchor_from(cs, a, 0) >= 0 {
                let f = find_anchor_from(cs, a, 0);
                lemma_find_anchor_found(cs, a, 0);
                assert(sfx == cs.skip(f));
                assert(cs.skip(f) =~= cs.subrange(f, cs.len() as int));
                assert(sfx[i] == cs[f + i]);
                assert(valid_component(cs[f + i]));
            }
        }
        let allv = path_components(output_root@) + sfx;
        assert forall|i: int| 0 <= i < allv.len() implies valid_component(#[trigger] allv[i]) by {
            if i < path_components(output_root@).len() {
                assert(allv[i] == path_components(output_root@)[i]);
            } else {
                assert(allv[i] == sfx[i - path_components(output_root@).len()]);
            }
        }
        lemma_normalize_valid(allv);
        lemma_join_roundtrip(normalize(allv));
        assert(path_components(joined@) == resolve_components(output_root@, sfx));
    }
    if output_root.unicode_len() > 0 && output_root.get_char(0) == '/' {
        let r = String::from_str("/").concat(joined.as_str());
        proof {
            reveal_strlit("/");
            assert(("/")@ =~= seq!['/']);
            lemma_components_leading_slash(joined@);
            assert(r@ == seq!['/'] + joined@);
        }
        Ok(r)
    } else {
        Ok(joined)
    }
}

// ---------------------------------------------------------------------------
// Structural lemmas about components
// ---------------------------------------------------------------------------

proof fn lemma_keep_components_valid(parts: Seq<Seq<char>>)
    requires
        forall|i: int, j: int|
            0 <= i < parts.len() && 0 <= j < parts[i].len() ==> parts[i][j] != '/',
    ensures
        forall|i: int|
            0 <= i < keep_components(parts).len() ==> valid_component(
                #[trigger] keep_components(parts)[i],
            ),
    decreases parts.len(),
{
    if parts.len() > 0 {
        assert(forall|i: int, j: int|
            0 <= i < parts.drop_last().len() && 0 <= j < parts.drop_last()[i].len()
                ==> #[trigger] parts.drop_last()[i][j] != '/');
        lemma_keep_components_valid(parts.drop_last());
        if parts.last().len() > 0 && parts.last() != dot() {
            assert(parts.last() == parts[parts.len() - 1]);
            assert(forall|j: int|
                0 <= j < parts[parts.len() - 1].len() ==> #[trigger] parts[parts.len() - 1][j]
                    != '/');
            assert(valid_component(parts.last()));
            assert(keep_components(parts) == keep_components(parts.drop_last()).push(
                parts.last(),
            ));
        } else {
            assert(keep_components(parts) == keep_components(parts.drop_last()));
        }
    }
}

/// Every component of a path string is non-empty, is not the `.` marker,
/// and holds no separator.
pub proof fn lemma_components_valid(s: Seq<char>)
    ensures
        forall|i: int|
            0 <= i < path_components(s).len() ==> valid_component(
                #[trigger] path_components(s)[i],
            ),
{
    crate::text::lemma_raw_split_no_slash(s);
    lemma_keep_components_valid(raw_split(s));
}

/// Appending separator-free text to a path extends its last raw segment.
proof fn lemma_raw_split_extend(x: Seq<char>, b: Seq<char>)
    requires
        forall|j: int| 0 <= j < b.len() ==> b[j] != '/',
    ensures
        ({
            let r = raw_split(x);
            raw_split(x + b) == r.update(r.len() - 1, r.last() + b)
        }),
    decreases b.len(),
{
    crate::text::lemma_raw_split_len(x);
    let r = raw_split(x);
    if b.len() == 0 {
        assert(x + b =~= x);
        assert(r.last() + b =~= r.last());
        assert(r.update(r.len() - 1, r.last() + b) =~~= r);
    } else {
        let b0 = b.drop_last();
        assert(forall|j: int| 0 <= j < b0.len() ==> #[trigger] b0[j] != '/');
        lemma_raw_split_extend(x, b0);
        let c = b.last();
        assert((x + b).drop_last() =~= x + b0);
        assert((x + b).last() == c);
        let r1 = raw_split(x + b0);
        assert(raw_split(x + b) == r1.update(r1.len() - 1, r1.last().push(c)));
        assert(r1.last() == r.last() + b0);
        assert((r.last() + b0).push(c) =~= r.last() + b);
        assert(r1.update(r1.len() - 1, r1.last().push(c)) =~~= r.update(r.len() - 1, r.last() + b));
    }
}

/// A trailing separator opens a fresh empty segment.
proof fn lemma_raw_split_push_slash(x: Seq<char>)
    ensures
        raw_split(x.push('/')) == raw_split(x).push(Seq::<char>::empty()),
{
    assert(x.push('/').drop_last() =~= x);
}

/// A leading separator contributes exactly one leading empty segment.
proof fn lemma_raw_split_prepend_slash(x: Seq<char>)
    ensures
        raw_split(seq!['/'] + x) == seq![Seq::<char>::empty()] + raw_split(x),
    decreases x.len(),
{
    if x.len() == 0 {
        assert(seq!['/'] + x =~= seq!['/']);
        assert(raw_split(Seq::<char>::empty()) == seq![Seq::<char>::empty()]);
        assert(seq!['/'].drop_last() =~= Seq::<char>::empty());
        assert(seq!['/'].last() == '/');
        assert(raw_split(seq!['/']) == raw_split(Seq::<char>::empty()).push(
            Seq::<char>::empty(),
        ));
        assert(raw_split(seq!['/'] + x) =~~= seq![Seq::<char>::empty()] + raw_split(x));
    } else {
        lemma_raw_split_prepend_slash(x.drop_last());
        crate::text::lemma_raw_split_len(x.drop_last());
        let s = seq!['/'] + x;
        assert(s.drop_last() =~= seq!['/'] + x.drop_last());
        assert(s.last() == x.last());
        let r0 = raw_split(x.drop_last());
        let rp = seq![Seq::<char>::empty()] + r0;
        if x.last() == '/' {
            assert(raw_split(s) == rp.push(Seq::<char>::empty()));
            assert(raw_split(x) == r0.push(Seq::<char>::empty()));
            assert(rp.push(Seq::<char>::empty()) =~~= seq![Seq::<char>::empty()] + r0.push(
                Seq::<char>::empty(),
            ));
        } else {
            assert(raw_split(s) == rp.update(rp.len() - 1, rp.last().push(x.last())));
            assert(raw_split(x) == r0.update(r0.len() - 1, r0.last().push(x.last())));
            assert(rp.last() == r0.last());
            assert(rp.update(rp.len() - 1, rp.last().push(x.last())) =~~= seq![
                Seq::<char>::empty(),
            ] + r0.update(r0.len() - 1, r0.last().push(x.last())));
        }
    }
}

/// A leading empty segment carries no component.
proof fn lemma_keep_prepend_empty(parts: Seq<Seq<char>>)
    ensures
        keep_components(seq![Seq::<char>::empty()] + parts) == keep_components(parts),
    decreases parts.len(),
{
    if parts.len() == 0 {
        let p = seq![Seq::<char>::empty()] + parts;
        assert(p =~~= seq![Seq::<char>::empty()]);
        assert(keep_components(Seq::<Seq<char>>::empty()) == Seq::<Seq<char>>::empty());
        assert(p.drop_last() =~= Seq::<Seq<char>>::empty());
        assert(p.last().len() == 0);
        assert(keep_components(p) =~~= keep_components(parts));
    } else {
        let p = seq![Seq::<char>::empty()] + parts;
        assert(p.drop_last() =~= seq![Seq::<char>::empty()] + parts.drop_last());
        assert(p.last() == parts.last());
        lemma_keep_prepend_empty(parts.drop_last());
    }
}

/// A leading separator does not change a path's components.
pub proof fn lemma_components_leading_slash(x: Seq<char>)
    ensures
        path_components(seq!['/'] + x) == path_components(x),
{
    lemma_raw_split_prepend_slash(x);
    lemma_keep_prepend_empty(raw_split(x));
}

/// Joining valid components and splitting again gives the components back.
pub proof fn lemma_join_roundtrip(parts: Seq<Seq<char>>)
    requires
        forall|i: int| 0 <= i < parts.len() ==> valid_component(#[trigger] parts[i]),
    ensures
        path_components(join_segs(parts)) == parts,
    decreases parts.len(),
{
    if parts.len() == 0 {
        assert(raw_split(Seq::<char>::empty()) == seq![Seq::<char>::empty()]);
        assert(keep_components(Seq::<Seq<char>>::empty()) == Seq::<Seq<char>>::empty());
        assert(seq![Seq::<char>::empty()].drop_last() =~= Seq::<Seq<char>>::empty());
        assert(seq![Seq::<char>::empty()].last().len() == 0);
        assert(path_components(join_segs(parts)) =~~= parts);
    } else if parts.len() == 1 {
        let p = parts[0];
        assert(valid_component(p));
        lemma_raw_split_extend(Seq::<char>::empty(), p);
        let r = raw_split(Seq::<char>::empty());
        assert(Seq::<char>::empty() + p =~= p);
        assert(r.last() + p =~= p);
        assert(r.update(0, r.last() + p) =~~= seq![p]);
        assert(raw_split(p) == seq![p]);
        assert(keep_components(Seq::<Seq<char>>::empty()) == Seq::<Seq<char>>::empty());
        assert(seq![p].drop_last() =~= Seq::<Seq<char>>::empty());
        assert(seq![p].last() == p);
        assert(keep_components(seq![p]) =~~= seq![p]);
        assert(parts =~~= seq![p]);
    } else {
        let dl = parts.drop_last();
        let last = parts.last();
        assert(forall|i: int| 0 <= i < dl.len() ==> valid_component(#[trigger] dl[i]));
        lemma_join_roundtrip(dl);
        let x = join_segs(dl);
        assert(x + seq!['/'] =~= x.push('/'));
        lemma_raw_split_push_slash(x);
        crate::text::lemma_raw_split_len(x);
        assert(valid_component(last));
        lemma_raw_split_extend(x.push('/'), last);
        let rs = raw_split(x.push('/'));
        assert(rs.last() == Seq::<char>::empty());
        assert(rs.last() + last =~= last);
        assert(rs.update(rs.len() - 1, rs.last() + last) =~~= raw_split(x).push(last));
        assert(join_segs(parts) == x + seq!['/'] + last);
        assert(x + seq!['/'] + last =~= x.push('/') + last);
        assert(raw_split(join_segs(parts)) == raw_split(x).push(last));
        let rx = raw_split(x);
        assert((rx.push(last)).drop_last() =~= rx);
        assert((rx.push(last)).last() == last);
        assert(keep_components(rx.push(last)) == keep_components(rx).push(last));
        assert(keep_components(rx).push(last) =~~= parts);
    }
}

/// Resolving `.` and `..` only ever keeps valid components (a surviving
/// `..` is itself one).
pub proof fn lemma_normalize_valid(parts: Seq<Seq<char>>)
    requires
        forall|i: int| 0 <= i < parts.len() ==> valid_component(#[trigger] parts[i]),
    ensures
        forall|i: int|
            0 <= i < normalize(parts).len() ==> valid_component(#[trigger] normalize(parts)[i]),
    decreases parts.len(),
{
    assert(dotdot().len() == 2);
    assert(dot().len() == 1);
    assert(dotdot()[0] == '.');
    assert(dotdot()[1] == '.');
    assert(valid_component(dotdot())) by {
        assert(forall|j: int| 0 <= j < dotdot().len() ==> dotdot()[j] != '/') by {
            assert(dotdot()[0] != '/');
            assert(dotdot()[1] != '/');
        }
    }
    if parts.len() > 0 {
        assert(forall|i: int|
            0 <= i < parts.drop_last().len() ==> valid_component(#[trigger] parts.drop_last()[i]));
        lemma_normalize_valid(parts.drop_last());
        let r = normalize(parts.drop_last());
        assert(parts.last() == parts[parts.len() - 1]);
        assert(valid_component(parts.last()));
        if parts.last() == dotdot() {
            if r.len() > 0 && r.last() != dotdot() {
                assert(normalize(parts) == r.drop_last());
                assert(forall|i: int|
                    0 <= i < r.drop_last().len() ==> #[trigger] r.drop_last()[i] == r[i]);
            } else {
                assert(normalize(parts) == r.push(dotdot()));
            }
        } else {
            assert(normalize(parts) == r.push(parts.last()));
        }
    }
}

/// Appending components free of `..` to a list leaves them untouched by
/// resolution.
pub proof fn lemma_normalize_clean_append(a: Seq<Seq<char>>, b: Seq<Seq<char>>)
    requires
        forall|i: int| 0 <= i < b.len() ==> b[i] != dotdot(),
    ensures
        normalize(a + b) == normalize(a) + b,
    decreases b.len(),
{
    if b.len() == 0 {
        assert(a + b =~~= a);
        assert(normalize(a) + b =~~= normalize(a));
    } else {
        let b0 = b.drop_last();
        assert(forall|i: int| 0 <= i < b0.len() ==> #[trigger] b0[i] != dotdot());
        lemma_normalize_clean_append(a, b0);
        let s = a + b;
        assert(s.drop_last() =~~= a + b0);
        assert(s.last() == b.last());
        assert(normalize(s) == normalize(a + b0).push(b.last()));
        assert((normalize(a) + b0).push(b.last()) =~~= normalize(a) + b);
    }
}

// ---------------------------------------------------------------------------
// Properties of anchor search
// ---------------------------------------------------------------------------

proof fn lemma_find_anchor_found(cs: Seq<Seq<char>>, a: Seq<Seq<char>>, i: int)
    requires
        0 <= i,
        find_anchor_from(cs, a, i) >= 0,
    ensures
        ({
            let f = find_anchor_from(cs, a, i);
            &&& i <= f
            &&& f + a.len() < cs.len()
            &&& cs.subrange(f, f + a.len() as int) == a
        }),
    decreases cs.len() - i,
{
    if i + a.len() >= cs.len() {
    } else if cs.subrange(i, i + a.len() as int) == a {
    } else {
        lemma_find_anchor_found(cs, a, i + 1);
    }
}

proof fn lemma_find_anchor_none(cs: Seq<Seq<char>>, a: Seq<Seq<char>>, i: int)
    requires
        0 <= i,
        forall|k: int|
            i <= k && k + a.len() < cs.len() ==> #[trigger] cs.subrange(k, k + a.len() as int)
                != a,
    ensures
        find_anchor_from(cs, a, i) == -1,
    decreases cs.len() - i,
{
    if i + a.len() >= cs.len() {
    } else {
        lemma_find_anchor_none(cs, a, i + 1);
    }
}

// ---------------------------------------------------------------------------
// The laws of extraction and containment
// ---------------------------------------------------------------------------

/// When the anchor occurs among the path's components with something
/// after it, extraction yields the suffix starting at the anchor,
/// inclusive, and extracting again from that suffix gives the suffix back
/// unchanged.
pub proof fn lemma_extraction_idempotent(base: Seq<char>, file: Seq<char>)
    requires
        path_components(base).len() > 0,
        find_anchor_from(path_components(file), path_components(base), 0) >= 0,
    ensures
        extract_spec(base, file) is Some,
        is_seg_prefix(path_components(base), extract_spec(base, file)->0),
        extract_spec(base, join_segs(extract_spec(base, file)->0)) == extract_spec(base, file),
{
    let a = path_components(base);
    let cs = path_components(file);
    let f = find_anchor_from(cs, a, 0);
    lemma_find_anchor_found(cs, a, 0);
    let sfx = cs.skip(f);
    assert(extract_spec(base, file) == Some(sfx));
    assert(sfx.subrange(0, a.len() as int) =~~= cs.subrange(f, f + a.len() as int));
    assert(is_seg_prefix(a, sfx));
    lemma_components_valid(file);
    assert(forall|i: int| 0 <= i < sfx.len() ==> valid_component(#[trigger] sfx[i]));
    lemma_join_roundtrip(sfx);
    assert(path_components(join_segs(sfx)) == sfx);
    assert(0 + a.len() < sfx.len());
    assert(sfx.subrange(0, a.len() as int) == a);
    assert(find_anchor_from(sfx, a, 0) == 0);
    assert(sfx.skip(0) =~~= sfx);
}

/// A path equal to the anchor extracts to the empty suffix.
pub proof fn lemma_extract_whole_is_empty(base: Seq<char>)
    requires
        path_components(base).len() > 0,
    ensures
        extract_spec(base, base) == Some(Seq::<Seq<char>>::empty()),
{
    let a = path_components(base);
    assert(a.skip(0) =~~= a);
}

/// A path among whose components the anchor never occurs cannot be
/// anchored: extraction fails (and the failure surfaces as a traversal).
pub proof fn lemma_extract_absent_anchor(base: Seq<char>, file: Seq<char>)
    requires
        path_components(base).len() > 0,
        forall|i: int|
            0 <= i && i + path_components(base).len() <= path_components(file).len()
                ==> #[trigger] path_components(file).subrange(
                i,
                i + path_components(base).len() as int,
            ) != path_components(base),
    ensures
        extract_spec(base, file) is None,
{
    let a = path_components(base);
    let cs = path_components(file);
    lemma_find_anchor_none(cs, a, 0);
    if a.len() <= cs.len() {
        let k0 = cs.len() - a.len();
        assert(cs.skip(k0) =~= cs.subrange(k0, k0 + a.len() as int));
        assert(cs.subrange(k0, k0 + a.len() as int) != a);
    }
}

/// For a lexically normalized output root and a suffix free of `..`
/// components, containment always holds: the resolved path is the root's
/// components followed by the suffix, so saving succeeds and the written
/// path keeps the root's components as a prefix.
pub proof fn lemma_contained_when_no_escape(root: Seq<char>, sfx: Seq<Seq<char>>)
    requires
        normalize(path_components(root)) == path_components(root),
        forall|i: int| 0 <= i < sfx.len() ==> sfx[i] != dotdot(),
    ensures
        resolve_contained(root, sfx),
        resolve_components(root, sfx) == path_components(root) + sfx,
{
    lemma_normalize_clean_append(path_components(root), sfx);
    let rc = path_components(root);
    assert((rc + sfx).subrange(0, rc.len() as int) =~~= rc);
}

/// A suffix holding a `..` component that resolves outside the output
/// root — wherever in the suffix the `..` occurs — fails containment, so
/// saving it is rejected as a traversal.
pub proof fn lemma_escape_rejected(root: Seq<char>, sfx: Seq<Seq<char>>)
    requires
        exists|i: int| 0 <= i < sfx.len() && sfx[i] == dotdot(),
        !is_seg_prefix(
            normalize(path_components(root)),
            normalize(path_components(root) + sfx),
        ),
    ensures
        !resolve_contained(root, sfx),
{
}

/// Compares a range of `cs` starting at `i` against the whole of `a`.
fn segs_match(cs: &Vec<String>, i: usize, a: &Vec<String>) -> (r: bool)
    requires
        i + a@.len() <= cs@.len(),
    ensures
        r == (cs.deep_view().subrange(i as int, i + a.deep_view().len()) == a.deep_view()),
{
    let ncs = cs.len();
    let mut j: usize = 0;
    let mut hit = true;
    while j < a.len()
        invariant
            ncs == cs@.len(),
            i + a@.len() <= cs@.len(),
            0 <= j <= a@.len(),
            hit == (forall|k: int| 0 <= k < j ==> cs.deep_view()[i + k] == a.deep_view()[k]),
        decreases a@.len() - j,
    {
        if !str_eq(cs[i + j].as_str(), a[j].as_str()) {
            hit = false;
            assert(cs.deep_view()[i + j as int] != a.deep_view()[j as int]);
            j = a.len();
        } else {
            j = j + 1;
        }
    }
    proof {
        let sub = cs.deep_view().subrange(i as int, i + a.deep_view().len());
        if hit {
            assert(sub =~= a.deep_view());
        } else {
            let k = choose|k: int| 0 <= k < a.deep_view().len() && cs.deep_view()[i + k]
                != a.deep_view()[k];
            if sub == a.deep_view() {
                assert(sub[k] == a.deep_view()[k]);
                assert(false);
            }
        }
    }
    hit
}

} // verus!
