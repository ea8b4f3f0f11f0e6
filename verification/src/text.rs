use vstd::prelude::*;

verus! {

// ---------------------------------------------------------------------------
// Splitting a string at '/' separators
// ---------------------------------------------------------------------------

/// The segments of `s` between '/' separators, empty segments kept, so the
/// result always holds at least one element (a string without any separator
/// is one segment).
pub open spec fn raw_split(s: Seq<char>) -> Seq<Seq<char>>
    decreases s.len(),
{
    if s.len() == 0 {
        seq![Seq::<char>::empty()]
    } else if s.last() == '/' {
        raw_split(s.drop_last()).push(Seq::<char>::empty())
    } else {
        let r = raw_split(s.drop_last());
        r.update(r.len() - 1, r.last().push(s.last()))
    }
}

pub proof fn lemma_raw_split_len(s: Seq<char>)
    ensures
        raw_split(s).len() >= 1,
    decreases s.len(),
{
    if s.len() > 0 {
        lemma_raw_split_len(s.drop_last());
    }
}

/// No segment of a split ever holds a separator.
pub proof fn lemma_raw_split_no_slash(s: Seq<char>)
    ensures
        forall|i: int, j: int|
            0 <= i < raw_split(s).len() && 0 <= j < raw_split(s)[i].len() ==> raw_split(s)[i][j]
                != '/',
    decreases s.len(),
{
    if s.len() > 0 {
        lemma_raw_split_no_slash(s.drop_last());
        lemma_raw_split_len(s.drop_last());
    }
}

/// The split segments of `s`, with the empty ones removed.
pub open spec fn keep_nonempty(parts: Seq<Seq<char>>) -> Seq<Seq<char>>
    decreases parts.len(),
{
    if parts.len() == 0 {
        Seq::<Seq<char>>::empty()
    } else {
        let r = keep_nonempty(parts.drop_last());
        if parts.last().len() > 0 {
            r.push(parts.last())
        } else {
            r
        }
    }
}

/// The non-empty '/'-separated segments of `s`.
pub open spec fn path_segments(s: Seq<char>) -> Seq<Seq<char>> {
    keep_nonempty(raw_split(s))
}

/// Splits `s` at every '/', keeping empty segments.
pub fn raw_segments(s: &str) -> (r: Vec<String>)
    ensures
        r.deep_view() == raw_split(s@),
{
    let n = s.unicode_len();
    let mut r: Vec<String> = Vec::new();
    let mut start: usize = 0;
    let mut i: usize = 0;
    proof {
        assert(r.deep_view().push(s@.subrange(0, 0)) =~~= raw_split(s@.subrange(0, 0)));
    }
    while i < n
        invariant
            n == s@.len(),
            0 <= start <= i <= n,
            r.deep_view().push(s@.subrange(start as int, i as int)) == raw_split(
                s@.subrange(0, i as int),
            ),
        decreases n - i,
    {
        let ghost prev = s@.subrange(0, i as int);
        let ghost prev_deep = r.deep_view();
        let c = s.get_char(i);
        if c == '/' {
            let seg = String::from_str(s.substring_char(start, i));
            r.push(seg);
            proof {
                assert(r.deep_view() =~~= prev_deep.push(s@.subrange(start as int, i as int)));
            }
            start = i + 1;
        }
        i = i + 1;
        proof {
            let cur = s@.subrange(0, i as int);
            assert(cur.drop_last() =~= prev);
            assert(cur.last() == c);
            if c == '/' {
                assert(s@.subrange(start as int, i as int) =~= Seq::<char>::empty());
                assert(r.deep_view().push(s@.subrange(start as int, i as int)) =~~= raw_split(
                    prev,
                ).push(Seq::<char>::empty()));
            } else {
                let old_seg = s@.subrange(start as int, i - 1);
                let new_seg = s@.subrange(start as int, i as int);
                assert(new_seg =~= old_seg.push(c));
                let rs = raw_split(prev);
                assert(rs == prev_deep.push(old_seg));
                assert(prev_deep.push(new_seg) =~~= rs.update(rs.len() - 1, rs.last().push(c)));
            }
        }
    }
    let seg = String::from_str(s.substring_char(start, n));
    r.push(seg);
    proof {
        assert(s@.subrange(0, n as int) =~= s@);
        assert(r.deep_view() =~~= raw_split(s@));
    }
    r
}

/// Splits `s` at every '/' and drops the empty segments.
pub fn split_nonempty(s: &str) -> (r: Vec<String>)
    ensures
        r.deep_view() == path_segments(s@),
{
    let raw = raw_segments(s);
    let mut r: Vec<String> = Vec::new();
    let mut i: usize = 0;
    proof {
        assert(r.deep_view() =~~= keep_nonempty(raw.deep_view().subrange(0, 0)));
    }
    while i < raw.len()
        invariant
            raw.deep_view() == raw_split(s@),
            0 <= i <= raw@.len(),
            r.deep_view() == keep_nonempty(raw.deep_view().subrange(0, i as int)),
        decreases raw@.len() - i,
    {
        let ghost prev = raw.deep_view().subrange(0, i as int);
        let ghost prev_deep = r.deep_view();
        let seg = &raw[i];
        if seg.as_str().unicode_len() > 0 {
            r.push(seg.clone());
        }
        i = i + 1;
        proof {
            let cur = raw.deep_view().subrange(0, i as int);
            assert(cur.drop_last() =~= prev);
            assert(cur.last() == raw.deep_view()[i - 1]);
            if cur.last().len() > 0 {
                assert(r.deep_view() =~~= prev_deep.push(cur.last()));
            }
        }
    }
    proof {
        assert(raw.deep_view().subrange(0, raw.deep_view().len() as int) =~= raw.deep_view());
    }
    r
}

// ---------------------------------------------------------------------------
// Joining segments with '/' separators
// ---------------------------------------------------------------------------

/// The segments of `parts`, joined by single '/' separators.
pub open spec fn join_segs(parts: Seq<Seq<char>>) -> Seq<char>
    decreases parts.len(),
{
    if parts.len() == 0 {
        Seq::<char>::empty()
    } else if parts.len() == 1 {
        parts[0]
    } else {
        join_segs(parts.drop_last()) + seq!['/'] + parts.last()
    }
}

/// Joins the segments of `parts` from index `from` on with '/' separators.
pub fn join_segments_from(parts: &Vec<String>, from: usize) -> (r: String)
    requires
        from <= parts@.len(),
    ensures
        r@ == join_segs(parts.deep_view().skip(from as int)),
{
    let mut r = String::new();
    let mut i: usize = from;
    while i < parts.len()
        invariant
            from <= i <= parts@.len(),
            r@ == join_segs(parts.deep_view().subrange(from as int, i as int)),
        decreases parts@.len() - i,
    {
        let ghost prev = parts.deep_view().subrange(from as int, i as int);
        proof {
            reveal_strlit("/");
            assert(("/")@ =~= seq!['/']);
        }
        if i > from {
            r.append("/");
        }
        r.append(parts[i].as_str());
        i = i + 1;
        proof {
            let cur = parts.deep_view().subrange(from as int, i as int);
            assert(cur.drop_last() =~= prev);
            assert(cur.last() == parts.deep_view()[i - 1]);
            if prev.len() == 0 {
                assert(r@ =~= join_segs(cur));
            } else {
                assert(r@ =~= join_segs(prev) + seq!['/'] + cur.last());
            }
        }
    }
    proof {
        assert(parts.deep_view().subrange(from as int, parts.deep_view().len() as int)
            =~= parts.deep_view().skip(from as int));
    }
    r
}

/// Joins all segments of `parts` with '/' separators.
pub fn join_segments(parts: &Vec<String>) -> (r: String)
    ensures
        r@ == join_segs(parts.deep_view()),
{
    let r = join_segments_from(parts, 0);
    proof {
        assert(parts.deep_view().skip(0) =~= parts.deep_view());
    }
    r
}

// ---------------------------------------------------------------------------
// Elementary string comparisons
// ---------------------------------------------------------------------------

/// Character-wise equality of two string slices.
pub fn str_eq(a: &str, b: &str) -> (r: bool)
    ensures
        r == (a@ == b@),
{
    let n = a.unicode_len();
    if n != b.unicode_len() {
        return false;
    }
    let mut i: usize = 0;
    while i < n
        invariant
            n == a@.len() == b@.len(),
            0 <= i <= n,
            forall|j: int| 0 <= j < i ==> a@[j] == b@[j],
        decreases n - i,
    {
        if a.get_char(i) != b.get_char(i) {
            return false;
        }
        i = i + 1;
    }
    proof {
        assert(a@ =~= b@);
    }
    true
}

/// True when `p` is a prefix of `s`.
pub open spec fn is_text_prefix(p: Seq<char>, s: Seq<char>) -> bool {
    p.len() <= s.len() && s.subrange(0, p.len() as int) == p
}

/// Character-wise prefix test.
pub fn starts_with_str(s: &str, p: &str) -> (r: bool)
    ensures
        r == is_text_prefix(p@, s@),
{
    let np = p.unicode_len();
    if np > s.unicode_len() {
        return false;
    }
    let mut i: usize = 0;
    while i < np
        invariant
            np == p@.len() <= s@.len(),
            0 <= i <= np,
            forall|j: int| 0 <= j < i ==> s@[j] == p@[j],
        decreases np - i,
    {
        if s.get_char(i) != p.get_char(i) {
            assert(s@.subrange(0, np as int)[i as int] != p@[i as int]);
            return false;
        }
        i = i + 1;
    }
    proof {
        assert(s@.subrange(0, np as int) =~= p@);
    }
    true
}

/// True when `p` occurs in `s` starting at position `i`.
pub open spec fn occurs_at(s: Seq<char>, p: Seq<char>, i: int) -> bool {
    0 <= i && i + p.len() <= s.len() && s.subrange(i, i + p.len() as int) == p
}

/// True when `p` occurs somewhere in `s`.
pub open spec fn contains_text(s: Seq<char>, p: Seq<char>) -> bool {
    exists|i: int| occurs_at(s, p, i)
}

/// Substring search.
pub fn has_substring(s: &str, p: &str) -> (r: bool)
    ensures
        r == contains_text(s@, p@),
{
    let n = s.unicode_len();
    let np = p.unicode_len();
    if np > n {
        return false;
    }
    let mut i: usize = 0;
    while i <= n - np
        invariant
            n == s@.len(),
            np == p@.len(),
            np <= n,
            0 <= i <= n - np + 1,
            forall|k: int| 0 <= k < i ==> !occurs_at(s@, p@, k),
        decreases n + 1 - np - i,
    {
        let mut j: usize = 0;
        let mut hit = true;
        while j < np
            invariant
                n == s@.len(),
                np == p@.len(),
                np <= n,
                0 <= i <= n - np,
                0 <= j <= np,
                hit == (forall|k: int| 0 <= k < j ==> s@[i + k] == p@[k]),
            decreases np - j,
        {
            if s.get_char(i + j) != p.get_char(j) {
                hit = false;
                assert(s@[i + j as int] != p@[j as int]);
                j = np;
            } else {
                j = j + 1;
            }
        }
        if hit {
            proof {
                assert(s@.subrange(i as int, i + np as int) =~= p@);
                assert(occurs_at(s@, p@, i as int));
            }
            return true;
        }
        proof {
            if occurs_at(s@, p@, i as int) {
                assert(forall|k: int|
                    0 <= k < np ==> s@.subrange(i as int, i + np as int)[k] == p@[k]);
                assert(forall|k: int| 0 <= k < np ==> s@[i + k] == p@[k]);
                assert(false);
            }
        }
        i = i + 1;
    }
    proof {
        if contains_text(s@, p@) {
            let w = choose|w: int| occurs_at(s@, p@, w);
            assert(!occurs_at(s@, p@, w));
        }
    }
    false
}

// ---------------------------------------------------------------------------
// Shortening long paths for display
// ---------------------------------------------------------------------------

/// The first position of a separator in `s`, or -1 when there is none.
pub open spec fn first_slash(s: Seq<char>) -> int
    decreases s.len(),
{
    if s.len() == 0 {
        -1
    } else if s[0] == '/' {
        0
    } else {
        let r = first_slash(s.skip(1));
        if r == -1 {
            -1
        } else {
            r + 1
        }
    }
}

proof fn lemma_first_slash_at(w: Seq<char>, i: int)
    requires
        0 <= i < w.len(),
        w[i] == '/',
        forall|j: int| 0 <= j < i ==> w[j] != '/',
    ensures
        first_slash(w) == i,
    decreases i,
{
    if i > 0 {
        assert(forall|j: int| 0 <= j < i - 1 ==> #[trigger] w.skip(1)[j] == w[j + 1]);
        assert(w.skip(1)[i - 1] == w[i]);
        lemma_first_slash_at(w.skip(1), i - 1);
    }
}

proof fn lemma_first_slash_none(w: Seq<char>)
    requires
        forall|j: int| 0 <= j < w.len() ==> w[j] != '/',
    ensures
        first_slash(w) == -1,
    decreases w.len(),
{
    if w.len() > 0 {
        assert(forall|j: int| 0 <= j < w.len() - 1 ==> #[trigger] w.skip(1)[j] == w[j + 1]);
        lemma_first_slash_none(w.skip(1));
    }
}

/// A path shortened to at most `max_len` characters for display: when it
/// is too long, its tail window is kept, cut at the first separator
/// inside the window where there is one, behind an ellipsis marker.
pub open spec fn truncated_path_view(s: Seq<char>, max_len: int) -> Seq<char> {
    if s.len() <= max_len {
        s
    } else {
        let w = s.skip(s.len() - (max_len - 2));
        if first_slash(w) >= 0 {
            "…/"@ + w.skip(first_slash(w) + 1)
        } else {
            "…/"@ + w
        }
    }
}

/// Shortens a path for display to at most `max_len` characters.
pub fn truncate_path(path: &str, max_len: usize) -> (r: String)
    requires
        max_len >= 2,
    ensures
        r@ == truncated_path_view(path@, max_len as int),
{
    let n = path.unicode_len();
    if n <= max_len {
        return String::from_str(path);
    }
    let avail = max_len - 2;
    let start = n - avail;
    let window = path.substring_char(start, n);
    proof {
        assert(window@ == path@.skip(start as int));
    }
    let wn = window.unicode_len();
    let mut i: usize = 0;
    while i < wn
        invariant
            max_len >= 2,
            path@.len() > max_len,
            window@ == path@.skip(path@.len() - (max_len as int - 2)),
            wn == window@.len(),
            0 <= i <= wn,
            forall|j: int| 0 <= j < i ==> window@[j] != '/',
        decreases wn - i,
    {
        if window.get_char(i) == '/' {
            proof {
                lemma_first_slash_at(window@, i as int);
            }
            let tail = window.substring_char(i + 1, wn);
            let r = String::from_str("…/").concat(tail);
            proof {
                let w = path@.skip(path@.len() - (max_len as int - 2));
                assert(window@ == w);
                assert(first_slash(w) == i as int);
                assert(tail@ =~= w.skip(i + 1));
                assert(r@ == "…/"@ + w.skip(first_slash(w) + 1));
            }
            return r;
        }
        i = i + 1;
    }
    proof {
        lemma_first_slash_none(window@);
    }
    String::from_str("…/").concat(window)
}

} // verus!
