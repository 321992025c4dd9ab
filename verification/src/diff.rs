//! Hunk records and hunk selections.
use vstd::prelude::*;
use std::collections::HashSet;
use crate::text::{chars_of, chars_start_with, is_ascii_hex, lower_char, lower_seq, push_char,
    push_str, starts_with, str_eq};

verus! {

broadcast use vstd::std_specs::hash::group_hash_axioms;

/// Prefix of every stable hunk id.
pub const HUNK_ID_PREFIX: &'static str = "hunk-";

pub open spec fn hunk_prefix() -> Seq<char> {
    seq!['h', 'u', 'n', 'k', '-']
}

pub open spec fn sha256_prefix() -> Seq<char> {
    seq!['s', 'h', 'a', '2', '5', '6', ':']
}

/// A 1-based line range: `length` lines starting at `start`.
#[derive(Debug, Clone, Copy, PartialEq, Eq)]
pub struct LineRange {
    pub start: usize,
    pub length: usize,
}

/// Semantic facts about the code a hunk touches.
#[derive(Debug, Clone, Default)]
pub struct SemanticInfo {
    pub enclosing_function: Option<String>,
    pub enclosing_scope: Option<String>,
    pub annotations: Vec<String>,
    pub is_doc_comment: bool,
    pub is_import: bool,
    pub is_toplevel: bool,
    pub nesting_depth: usize,
}

/// One hunk of a file diff.
#[derive(Debug, Clone)]
pub struct Hunk {
    /// Position of the hunk in its file's diff.
    pub index: usize,
    /// Stable id (`hunk-` followed by hex digits).
    pub id: String,
    /// `insert`, `delete` or `replace`.
    pub hunk_type: String,
    /// Text removed by the hunk.
    pub removed: String,
    /// Text added by the hunk.
    pub added: String,
    pub before_range: LineRange,
    pub after_range: LineRange,
    pub context: Option<String>,
    pub semantic: SemanticInfo,
}

/// The hex body of a hunk id written as `hunk-<hex>`, `sha256:<hex>` or `<hex>`.
pub open spec fn id_body(s: Seq<char>) -> Seq<char> {
    if starts_with(s, hunk_prefix()) {
        s.skip(5)
    } else if starts_with(s, sha256_prefix()) {
        s.skip(7)
    } else {
        s
    }
}

pub open spec fn all_hex(s: Seq<char>) -> bool {
    forall|i: int| 0 <= i < s.len() ==> is_ascii_hex(#[trigger] s[i])
}

/// The canonical form of a hunk id selector: `hunk-` followed by between
/// one and 64 lower-case hex digits; `None` when `s` is no hunk id.
pub open spec fn normalized_hunk_id(s: Seq<char>) -> Option<Seq<char>> {
    let body = id_body(s);
    if 0 < body.len() <= 64 && all_hex(body) {
        Some(hunk_prefix() + lower_seq(body))
    } else {
        None
    }
}

/// Normalize a hunk id selector to its canonical `hunk-<hex>` form.
pub fn normalize_hunk_id(s: &str) -> (r: Option<String>)
    ensures
        r matches Some(id) ==> normalized_hunk_id(s@) == Some(id@),
        r is None ==> normalized_hunk_id(s@) is None,
{
    let v = chars_of(s);
    let hp = vec!['h', 'u', 'n', 'k', '-'];
    let sp = vec!['s', 'h', 'a', '2', '5', '6', ':'];
    assert(hp@ == hunk_prefix());
    assert(sp@ == sha256_prefix());
    let start: usize = if chars_start_with(v.as_slice(), hp.as_slice()) {
        5
    } else if chars_start_with(v.as_slice(), sp.as_slice()) {
        7
    } else {
        0
    };
    let ghost body = v@.skip(start as int);
    assert(body == id_body(s@)) by {
        if start == 0 {
            assert(v@.skip(0) == v@);
        }
    }
    let n = v.len();
    if n - start == 0 || n - start > 64 {
        return None;
    }
    let mut out = String::new();
    push_str(&mut out, "hunk-");
    proof {
        reveal_strlit("hunk-");
        assert(out@ == hunk_prefix());
    }
    let mut i = start;
    while i < n
        invariant
            n == v@.len(),
            start <= i <= n,
            body == v@.skip(start as int),
            body == id_body(s@),
            forall|k: int| 0 <= k < i - start ==> is_ascii_hex(#[trigger] body[k]),
            out@ == hunk_prefix() + lower_seq(body.take(i - start)),
        decreases n - i,
    {
        let c = v[i];
        if !(('0' <= c && c <= '9') || ('a' <= c && c <= 'f') || ('A' <= c && c <= 'F')) {
            assert(body[i - start] == c);
            assert(!is_ascii_hex(body[i - start]));
            assert(!all_hex(body));
            return None;
        }
        let lc = if 'A' <= c && c <= 'Z' { ((c as u8) + 32) as char } else { c };
        assert(lc == lower_char(c));
        push_char(&mut out, lc);
        i += 1;
        assert(body.take(i - start) == body.take(i - 1 - start).push(c));
        assert(lower_seq(body.take(i - start)) == lower_seq(body.take(i - 1 - start)).push(lc));
    }
    assert(body.take(n - start) == body);
    Some(out)
}

/// A set of hunk ids (each kept once).
#[derive(Debug, Clone)]
pub struct IdSet {
    items: Vec<String>,
}

impl View for IdSet {
    type V = Set<Seq<char>>;

    closed spec fn view(&self) -> Set<Seq<char>> {
        Set::new(|s: Seq<char>| exists|i: int| 0 <= i < self.items@.len() && #[trigger] self.items@[i]@ == s)
    }
}

impl IdSet {
    pub fn new() -> (r: Self)
        ensures
            r@ == Set::<Seq<char>>::empty(),
    {
        let r = IdSet { items: Vec::new() };
        assert(r@ =~= Set::<Seq<char>>::empty());
        r
    }

    pub fn is_empty(&self) -> (b: bool)
        ensures
            b == (self@ == Set::<Seq<char>>::empty()),
    {
        let b = self.items.len() == 0;
        if !b {
            assert(self@.contains(self.items@[0]@));
        } else {
            assert(self@ =~= Set::<Seq<char>>::empty());
        }
        b
    }

    /// Whether `id` is in the set.
    pub fn contains(&self, id: &str) -> (b: bool)
        ensures
            b == self@.contains(id@),
    {
        let mut i: usize = 0;
        while i < self.items.len()
            invariant
                i <= self.items@.len(),
                forall|k: int| 0 <= k < i ==> self.items@[k]@ != id@,
            decreases self.items@.len() - i,
        {
            if str_eq(self.items[i].as_str(), id) {
                return true;
            }
            i += 1;
        }
        false
    }

    /// Add `id` to the set.
    pub fn insert(&mut self, id: String)
        ensures
            final(self)@ == old(self)@.insert(id@),
    {
        if !self.contains(id.as_str()) {
            let ghost old_items = self.items@;
            self.items.push(id);
            assert(self@ =~= old(self)@.insert(id@)) by {
                assert(self.items@[old_items.len() as int] == id);
                assert forall|s: Seq<char>| old(self)@.contains(s) implies self@.contains(s) by {
                    let i = choose|i: int| 0 <= i < old_items.len() && #[trigger] old_items[i]@ == s;
                    assert(self.items@[i] == old_items[i]);
                }
            }
        } else {
            assert(self@ =~= old(self)@.insert(id@));
        }
    }

    /// The ids, each once.
    pub fn as_slice(&self) -> (r: &[String])
        ensures
            forall|s: Seq<char>| self@.contains(s) <==> exists|i: int| 0 <= i < r@.len() && #[trigger] r@[i]@ == s,
    {
        self.items.as_slice()
    }
}

/// The hunks of one file that a spec keeps: by position or by id.
#[derive(Debug)]
pub struct HunkSelection {
    pub indices: HashSet<usize>,
    pub ids: IdSet,
}

impl HunkSelection {
    pub fn new() -> (r: Self)
        ensures
            r.indices@ == Set::<usize>::empty(),
            r.ids@ == Set::<Seq<char>>::empty(),
    {
        HunkSelection { indices: HashSet::new(), ids: IdSet::new() }
    }

    /// Whether the selection keeps nothing.
    pub fn is_empty(&self) -> (b: bool)
        ensures
            b == (self.indices@.is_empty() && self.ids@ == Set::<Seq<char>>::empty()),
    {
        self.indices.is_empty() && self.ids.is_empty()
    }

    /// Whether the hunk at `index` with id `id` is kept.
    pub fn matches(&self, index: usize, id: &str) -> (b: bool)
        ensures
            b == (self.indices@.contains(index) || self.ids@.contains(id@)),
    {
        self.indices.contains(&index) || self.ids.contains(id)
    }
}

} // verus!
