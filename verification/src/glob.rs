//! Glob matching on `/`-separated paths.
//!
//! Supports `*` (any run of characters inside one segment), `**` (any number
//! of whole segments) and `?` (one character). When the pattern holds no `/`
//! and no `**`, it is matched against the file name (last component) only.
use vstd::prelude::*;
use crate::text::{chars_of, contains_chars, contains_seq, occurs_at};

verus! {

// ---------------------------------------------------------------------------
// Specification
// ---------------------------------------------------------------------------

pub open spec fn double_star() -> Seq<char> {
    seq!['*', '*']
}

/// `s.trim_start_matches("./")`: every leading `./` removed.
pub open spec fn strip_dot_slash(s: Seq<char>) -> Seq<char>
    decreases s.len(),
{
    if s.len() >= 2 && s[0] == '.' && s[1] == '/' {
        strip_dot_slash(s.skip(2))
    } else {
        s
    }
}

/// The non-empty pieces of `s` between `/` separators, in order, where `cur`
/// is the piece collected so far.
pub open spec fn segments_from(s: Seq<char>, cur: Seq<char>) -> Seq<Seq<char>>
    decreases s.len(),
{
    let flushed = if cur.len() > 0 { seq![cur] } else { Seq::empty() };
    if s.len() == 0 {
        flushed
    } else if s[0] == '/' {
        flushed + segments_from(s.drop_first(), Seq::empty())
    } else {
        segments_from(s.drop_first(), cur.push(s[0]))
    }
}

/// `s.split('/').filter(|x| !x.is_empty())`.
pub open spec fn segments(s: Seq<char>) -> Seq<Seq<char>> {
    segments_from(s, Seq::empty())
}

/// The text after the last `/` of `s` (all of `s` when it has none).
pub open spec fn file_name(s: Seq<char>) -> Seq<char>
    decreases s.len(),
{
    if s.len() == 0 {
        s
    } else if s.last() == '/' {
        Seq::empty()
    } else {
        file_name(s.drop_last()).push(s.last())
    }
}

pub open spec fn has_slash(s: Seq<char>) -> bool {
    exists|i: int| 0 <= i < s.len() && s[i] == '/'
}

/// Wildcard matching of one segment: `*` matches any run of characters,
/// `?` any one character, every other character itself.
pub open spec fn wild_match(p: Seq<char>, t: Seq<char>) -> bool
    decreases p.len() + t.len(),
{
    if p.len() == 0 {
        t.len() == 0
    } else if p.last() == '*' {
        wild_match(p.drop_last(), t) || (t.len() > 0 && wild_match(p, t.drop_last()))
    } else if t.len() == 0 {
        false
    } else if p.last() == '?' {
        wild_match(p.drop_last(), t.drop_last())
    } else {
        p.last() == t.last() && wild_match(p.drop_last(), t.drop_last())
    }
}

/// Matching of pattern segments against path segments, where a `**`
/// segment matches any number (zero or more) of path segments.
pub open spec fn segments_match(ps: Seq<Seq<char>>, ts: Seq<Seq<char>>) -> bool
    decreases ps.len(), ts.len(),
{
    if ps.len() == 0 {
        ts.len() == 0
    } else if ps[0] == double_star() {
        segments_match(ps.drop_first(), ts) || (ts.len() > 0 && segments_match(ps, ts.drop_first()))
    } else if ts.len() == 0 {
        false
    } else {
        wild_match(ps[0], ts[0]) && segments_match(ps.drop_first(), ts.drop_first())
    }
}

/// What `glob_match(pattern, path)` decides.
pub open spec fn glob_spec(pattern: Seq<char>, path: Seq<char>) -> bool {
    let p = strip_dot_slash(pattern);
    let t = strip_dot_slash(path);
    if has_slash(p) || contains_seq(p, double_star()) {
        segments_match(segments(p), segments(t))
    } else {
        wild_match(p, file_name(t))
    }
}

pub open spec fn views(v: Seq<Vec<char>>) -> Seq<Seq<char>> {
    v.map_values(|x: Vec<char>| x@)
}

// ---------------------------------------------------------------------------
// Lemmas
// ---------------------------------------------------------------------------

/// A lone `*` matches every segment.
pub proof fn lemma_star_matches_all(t: Seq<char>)
    ensures
        wild_match(seq!['*'], t),
    decreases t.len(),
{
    let p = seq!['*'];
    assert(p.drop_last() =~= Seq::<char>::empty());
    assert(p.len() == 1 && p.last() == '*');
    if t.len() > 0 {
        lemma_star_matches_all(t.drop_last());
        assert(wild_match(p, t.drop_last()));
    } else {
        assert(wild_match(p.drop_last(), t));
    }
}

/// Whether `t` fits the star-free pattern `p` character by character: the
/// same length, and each `?` of `p` against any character, each other
/// character against itself.
pub open spec fn fits_char_by_char(p: Seq<char>, t: Seq<char>) -> bool {
    &&& t.len() == p.len()
    &&& forall|i: int| 0 <= i < p.len() ==> (#[trigger] p[i] == '?' || p[i] == t[i])
}

/// A segment pattern without `*` matches exactly the texts of its own
/// length that agree with it wherever it holds no `?`: so `?` stands for
/// exactly one character, never for none.
pub proof fn law_star_free_segment_matches_char_by_char(p: Seq<char>, t: Seq<char>)
    requires
        forall|i: int| 0 <= i < p.len() ==> p[i] != '*',
    ensures
        wild_match(p, t) <==> fits_char_by_char(p, t),
    decreases p.len(),
{
    if p.len() > 0 && t.len() > 0 {
        let p0 = p.drop_last();
        let t0 = t.drop_last();
        assert(p.last() == p[p.len() - 1]);
        assert forall|i: int| 0 <= i < p0.len() implies p0[i] != '*' by {
            assert(p0[i] == p[i]);
        }
        law_star_free_segment_matches_char_by_char(p0, t0);
        if fits_char_by_char(p, t) {
            assert forall|i: int| 0 <= i < p0.len() implies (#[trigger] p0[i] == '?' || p0[i] == t0[i]) by {
                assert(p0[i] == p[i] && t0[i] == t[i]);
            }
            assert(p[p.len() - 1] == '?' || p[p.len() - 1] == t[t.len() - 1]);
        }
        if wild_match(p, t) {
            assert(fits_char_by_char(p0, t0));
            assert forall|i: int| 0 <= i < p.len() implies (#[trigger] p[i] == '?' || p[i] == t[i]) by {
                if i < p.len() - 1 {
                    assert(p0[i] == p[i] && t0[i] == t[i]);
                }
            }
        }
    } else if p.len() > 0 {
        assert(p.last() == p[p.len() - 1]);
    }
}

/// A pattern with neither `/` nor `*` matches a path only when the path's
/// file name has as many characters as the pattern: `test?.py` does not
/// match `test.py`.
pub proof fn law_star_free_glob_keeps_length(pattern: Seq<char>, path: Seq<char>)
    requires
        forall|i: int| 0 <= i < pattern.len() ==> pattern[i] != '*' && pattern[i] != '/',
    ensures
        glob_spec(pattern, path) ==> file_name(strip_dot_slash(path)).len() == pattern.len(),
{
    if pattern.len() >= 2 && pattern[0] == '.' && pattern[1] == '/' {
        assert(false);
    }
    assert(strip_dot_slash(pattern) == pattern);
    assert(!has_slash(pattern)) by {
        if has_slash(pattern) {
            let i = choose|i: int| 0 <= i < pattern.len() && pattern[i] == '/';
            assert(pattern[i] != '/');
        }
    }
    if contains_seq(pattern, double_star()) {
        let i = choose|i: int| occurs_at(pattern, double_star(), i);
        assert(pattern.subrange(i, i + 2)[0] == pattern[i]);
    }
    law_star_free_segment_matches_char_by_char(pattern, file_name(strip_dot_slash(path)));
}

// ---------------------------------------------------------------------------
// Implementation
// ---------------------------------------------------------------------------

/// Index of the first character after all leading `./` pairs.
pub fn skip_dot_slash(v: &[char]) -> (k: usize)
    ensures
        k <= v@.len(),
        v@.skip(k as int) == strip_dot_slash(v@),
{
    let n = v.len();
    let mut k: usize = 0;
    assert(v@.skip(0) == v@);
    while n >= 2 && k <= n - 2 && v[k] == '.' && v[k + 1] == '/'
        invariant
            n == v@.len(),
            k <= v@.len(),
            strip_dot_slash(v@.skip(k as int)) == strip_dot_slash(v@),
        decreases v.len() - k,
    {
        assert(v@.skip(k as int).skip(2) == v@.skip(k + 2));
        k += 2;
    }
    k
}

/// The non-empty `/`-separated segments of `v`.
pub fn split_segments(v: &[char]) -> (r: Vec<Vec<char>>)
    ensures
        views(r@) == segments(v@),
{
    let mut r: Vec<Vec<char>> = Vec::new();
    let mut cur: Vec<char> = Vec::new();
    let mut i: usize = 0;
    assert(v@.skip(0) == v@);
    assert(views(r@) =~= Seq::<Seq<char>>::empty());
    assert(cur@ =~= Seq::<char>::empty());
    assert(views(r@) + segments_from(v@.skip(0), cur@) =~= segments_from(v@, Seq::empty()));
    let n = v.len();
    while i < n
        invariant
            n == v@.len(),
            i <= v@.len(),
            views(r@) + segments_from(v@.skip(i as int), cur@) == segments(v@),
        decreases v.len() - i,
    {
        let ghost s = v@.skip(i as int);
        assert(s.drop_first() == v@.skip(i + 1));
        if v[i] == '/' {
            let ghost old_cur = cur@;
            let ghost old_rv = views(r@);
            let ghost rest = segments_from(s.drop_first(), Seq::empty());
            if cur.len() > 0 {
                let piece = cur;
                r.push(piece);
                assert(views(r@) == old_rv + seq![old_cur]);
                cur = Vec::new();
                assert(segments_from(s, old_cur) == seq![old_cur] + rest);
                assert(old_rv + (seq![old_cur] + rest) == (old_rv + seq![old_cur]) + rest);
            } else {
                assert(segments_from(s, old_cur) =~= rest);
            }
            assert(cur@ =~= Seq::<char>::empty());
            assert(views(r@) + segments_from(v@.skip(i + 1), cur@) == segments(v@));
        } else {
            cur.push(v[i]);
        }
        i += 1;
    }
    if cur.len() > 0 {
        let ghost old_r = r@;
        let piece = cur;
        r.push(piece);
        assert(views(r@) == views(old_r) + seq![piece@]);
    }
    assert(views(r@) == segments(v@));
    r
}

/// The characters after the last `/` of `v`.
pub fn file_name_of(v: &[char]) -> (r: Vec<char>)
    ensures
        r@ == file_name(v@),
{
    let mut start: usize = v.len();
    assert(v@.take(start as int) == v@);
    assert(v@.skip(start as int) =~= Seq::<char>::empty());
    while start > 0 && v[start - 1] != '/'
        invariant
            start <= v@.len(),
            file_name(v@) == file_name(v@.take(start as int)) + v@.skip(start as int),
        decreases start,
    {
        assert(v@.take(start as int).drop_last() == v@.take(start - 1));
        assert(v@.skip(start - 1) == seq![v@[start - 1]] + v@.skip(start as int));
        start -= 1;
    }
    if start > 0 {
        assert(v@.take(start as int).last() == '/');
    }
    let n = v.len();
    let mut r: Vec<char> = Vec::new();
    let mut i = start;
    while i < n
        invariant
            n == v@.len(),
            start <= i <= v@.len(),
            r@ == v@.subrange(start as int, i as int),
        decreases v.len() - i,
    {
        r.push(v[i]);
        i += 1;
    }
    assert(r@ == v@.skip(start as int));
    r
}

fn is_double_star(s: &Vec<char>) -> (b: bool)
    ensures
        b == (s@ == double_star()),
{
    let b = s.len() == 2 && s[0] == '*' && s[1] == '*';
    proof {
        if s@.len() == 2 && s@[0] == '*' && s@[1] == '*' {
            assert(s@ == double_star());
        }
    }
    b
}

/// Wildcard matching of one segment (`*`, `?`, literal characters).
pub fn match_segment(p: &[char], t: &[char]) -> (b: bool)
    ensures
        b == wild_match(p@, t@),
{
    if p.len() == 1 && p[0] == '*' {
        proof {
            assert(p@ == seq!['*']);
            lemma_star_matches_all(t@);
        }
        return true;
    }
    let n = t.len();
    let m = p.len();
    // Row `i` holds, at column `k`, whether `p[..i]` matches `t[..k]`.
    let mut prev: Vec<bool> = Vec::new();
    prev.push(true);
    assert(t@.take(0).len() == 0 && p@.take(0).len() == 0);
    let mut j: usize = 0;
    while j < n
        invariant
            n == t@.len(),
            j <= n,
            prev@.len() == j + 1,
            forall|k: int| 0 <= k <= j ==> prev@[k] == wild_match(p@.take(0), #[trigger] t@.take(k)),
        decreases n - j,
    {
        prev.push(false);
        j += 1;
        assert(t@.take(j as int).len() == j);
    }
    let mut i: usize = 0;
    while i < m
        invariant
            n == t@.len(),
            m == p@.len(),
            i <= m,
            prev@.len() == n + 1,
            forall|k: int| 0 <= k <= n ==> prev@[k] == wild_match(p@.take(i as int), #[trigger] t@.take(k)),
        decreases m - i,
    {
        let c = p[i];
        let ghost pi = p@.take(i + 1);
        assert(pi.drop_last() == p@.take(i as int));
        assert(pi.last() == c);
        let mut cur: Vec<bool> = Vec::new();
        let first = if c == '*' { prev[0] } else { false };
        assert(t@.take(0).len() == 0);
        cur.push(first);
        let mut j: usize = 0;
        while j < n
            invariant
                n == t@.len(),
                m == p@.len(),
                i < m,
                pi == p@.take(i + 1),
                pi.drop_last() == p@.take(i as int),
                pi.last() == c,
                j <= n,
                prev@.len() == n + 1,
                cur@.len() == j + 1,
                forall|k: int| 0 <= k <= n ==> prev@[k] == wild_match(p@.take(i as int), #[trigger] t@.take(k)),
                forall|k: int| 0 <= k <= j ==> cur@[k] == wild_match(pi, #[trigger] t@.take(k)),
            decreases n - j,
        {
            let ghost tj = t@.take(j + 1);
            assert(tj.drop_last() == t@.take(j as int));
            assert(tj.last() == t@[j as int]);
            let v = if c == '*' {
                prev[j + 1] || cur[j]
            } else if c == '?' {
                prev[j]
            } else {
                prev[j] && c == t[j]
            };
            cur.push(v);
            j += 1;
        }
        prev = cur;
        i += 1;
    }
    assert(p@.take(m as int) == p@);
    assert(t@.take(n as int) == t@);
    prev[n]
}

/// Matching of pattern segments `ps[pi..]` against path segments `ts[ti..]`.
pub fn match_segments(ps: &Vec<Vec<char>>, pi: usize, ts: &Vec<Vec<char>>, ti: usize) -> (b: bool)
    requires
        pi <= ps@.len(),
        ti <= ts@.len(),
    ensures
        b == segments_match(views(ps@).skip(pi as int), views(ts@).skip(ti as int)),
    decreases ps@.len() - pi, ts@.len() - ti,
{
    let ghost psv = views(ps@).skip(pi as int);
    let ghost tsv = views(ts@).skip(ti as int);
    if pi == ps.len() {
        return ti == ts.len();
    }
    assert(psv[0] == ps@[pi as int]@);
    assert(psv.drop_first() == views(ps@).skip(pi + 1));
    if is_double_star(&ps[pi]) {
        if match_segments(ps, pi + 1, ts, ti) {
            return true;
        }
        if ti < ts.len() {
            assert(tsv.drop_first() == views(ts@).skip(ti + 1));
            return match_segments(ps, pi, ts, ti + 1);
        }
        return false;
    }
    if ti == ts.len() {
        return false;
    }
    assert(tsv[0] == ts@[ti as int]@);
    assert(tsv.drop_first() == views(ts@).skip(ti + 1));
    if !match_segment(ps[pi].as_slice(), ts[ti].as_slice()) {
        return false;
    }
    match_segments(ps, pi + 1, ts, ti + 1)
}

fn has_slash_exec(v: &[char]) -> (b: bool)
    ensures
        b == has_slash(v@),
{
    let n = v.len();
    let mut i: usize = 0;
    while i < n
        invariant
            n == v@.len(),
            i <= v@.len(),
            forall|k: int| 0 <= k < i ==> v@[k] != '/',
        decreases v.len() - i,
    {
        if v[i] == '/' {
            return true;
        }
        i += 1;
    }
    false
}

pub(crate) fn suffix(v: &[char], k: usize) -> (r: Vec<char>)
    requires
        k <= v@.len(),
    ensures
        r@ == v@.skip(k as int),
{
    let n = v.len();
    let mut r: Vec<char> = Vec::new();
    let mut i = k;
    while i < n
        invariant
            n == v@.len(),
            k <= i <= v@.len(),
            r@ == v@.subrange(k as int, i as int),
        decreases v.len() - i,
    {
        r.push(v[i]);
        i += 1;
    }
    r
}

/// Match a glob pattern against a path.
///
/// Supports `*` (single segment wildcard), `**` (multi-segment), and `?` (single char).
/// When the pattern contains no `/` or `**`, it matches against the filename only.
pub fn glob_match(pattern: &str, path: &str) -> (b: bool)
    ensures
        b == glob_spec(pattern@, path@),
{
    let pv = chars_of(pattern);
    let tv = chars_of(path);
    let p = suffix(pv.as_slice(), skip_dot_slash(pv.as_slice()));
    let t = suffix(tv.as_slice(), skip_dot_slash(tv.as_slice()));
    let stars = vec!['*', '*'];
    assert(stars@ == double_star());
    if has_slash_exec(p.as_slice()) || contains_chars(p.as_slice(), stars.as_slice()) {
        let ps = split_segments(p.as_slice());
        let ts = split_segments(t.as_slice());
        assert(views(ps@).skip(0) == views(ps@));
        assert(views(ts@).skip(0) == views(ts@));
        match_segments(&ps, 0, &ts, 0)
    } else {
        let name = file_name_of(t.as_slice());
        match_segment(p.as_slice(), name.as_slice())
    }
}

} // verus!
