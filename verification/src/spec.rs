//! Hunk selection specs: which hunks of which files to keep.
use vstd::prelude::*;
use std::collections::HashSet;
use crate::diff::{normalize_hunk_id, normalized_hunk_id, HunkSelection, IdSet};
use crate::text::{all_digits, chars_of, digits_value, is_ascii_digit, push_str, str_eq, string_of,
    trim, trim_string};

verus! {

broadcast use vstd::std_specs::hash::group_hash_axioms;

/// A selection spec: per-file selections plus the action for unlisted files.
#[derive(Debug)]
pub struct Spec {
    pub files: FileMap,
    pub default: DefaultAction,
}

/// What a spec says about one file.
#[derive(Debug, Clone)]
pub enum FileSpec {
    Selection(HunkSpec),
    Action { action: Action },
}

/// Hunks kept in one file, by position or by id.
#[derive(Debug, Clone, Default)]
pub struct HunkSpec {
    pub hunks: Vec<HunkSelector>,
    pub ids: Vec<String>,
}

/// One hunk, by position in its file or by stable id.
#[derive(Debug, Clone)]
pub enum HunkSelector {
    Index(usize),
    Id(String),
}

#[derive(Debug, Clone, Copy, PartialEq, Eq)]
pub enum Action {
    Keep,
    Reset,
}

#[derive(Debug, Clone, Copy, PartialEq, Eq)]
pub enum DefaultAction {
    Keep,
    Reset,
}

impl Default for DefaultAction {
    fn default() -> (r: Self)
        ensures
            r == DefaultAction::Reset,
    {
        DefaultAction::Reset
    }
}

// ---------------------------------------------------------------------------
// FileMap: per-file specs keyed by path, each path once
// ---------------------------------------------------------------------------

/// The map from file path to file spec.
pub open spec fn entries_map(s: Seq<(String, FileSpec)>) -> Map<Seq<char>, FileSpec>
    decreases s.len(),
{
    if s.len() == 0 {
        Map::empty()
    } else {
        entries_map(s.drop_last()).insert(s.last().0@, s.last().1)
    }
}

pub open spec fn keys_distinct(s: Seq<(String, FileSpec)>) -> bool {
    forall|i: int, j: int| 0 <= i < j < s.len() ==> (#[trigger] s[i]).0@ != (#[trigger] s[j]).0@
}

pub proof fn lemma_entries_map(s: Seq<(String, FileSpec)>)
    requires
        keys_distinct(s),
    ensures
        forall|k: Seq<char>| entries_map(s).dom().contains(k) <==> exists|i: int| 0 <= i < s.len() && (#[trigger] s[i]).0@ == k,
        forall|i: int| 0 <= i < s.len() ==> (#[trigger] entries_map(s)[s[i].0@]) == s[i].1,
        entries_map(s).dom().len() == s.len(),
        entries_map(s).dom().finite(),
    decreases s.len(),
{
    if s.len() > 0 {
        let t = s.drop_last();
        assert(keys_distinct(t)) by {
            assert forall|i: int, j: int| 0 <= i < j < t.len() implies (#[trigger] t[i]).0@ != (#[trigger] t[j]).0@ by {
                assert(t[i] == s[i] && t[j] == s[j]);
            }
        }
        lemma_entries_map(t);
        let m = entries_map(t);
        assert(!m.dom().contains(s.last().0@)) by {
            if m.dom().contains(s.last().0@) {
                let i = choose|i: int| 0 <= i < t.len() && (#[trigger] t[i]).0@ == s.last().0@;
                assert(s[i] == t[i]);
                assert(s[i].0@ != s[s.len() - 1].0@);
            }
        }
        assert forall|k: Seq<char>| entries_map(s).dom().contains(k) implies exists|i: int| 0 <= i < s.len() && (#[trigger] s[i]).0@ == k by {
            if k != s.last().0@ {
                let i = choose|i: int| 0 <= i < t.len() && (#[trigger] t[i]).0@ == k;
                assert(s[i] == t[i]);
            } else {
                assert(s[s.len() - 1].0@ == k);
            }
        }
        assert forall|k: Seq<char>| (exists|i: int| 0 <= i < s.len() && (#[trigger] s[i]).0@ == k) implies entries_map(s).dom().contains(k) by {
            let i = choose|i: int| 0 <= i < s.len() && (#[trigger] s[i]).0@ == k;
            if i < s.len() - 1 {
                assert(t[i] == s[i]);
            }
        }
        assert forall|i: int| 0 <= i < s.len() implies (#[trigger] entries_map(s)[s[i].0@]) == s[i].1 by {
            if i < s.len() - 1 {
                assert(t[i] == s[i]);
                assert(s[i].0@ != s[s.len() - 1].0@);
            }
        }
    } else {
        assert(entries_map(s).dom() =~= Set::<Seq<char>>::empty());
    }
}

/// Per-file specs keyed by path; every path occurs once.
#[derive(Debug)]
pub struct FileMap {
    entries: Vec<(String, FileSpec)>,
}

impl View for FileMap {
    type V = Map<Seq<char>, FileSpec>;

    closed spec fn view(&self) -> Map<Seq<char>, FileSpec> {
        entries_map(self.entries@)
    }
}

impl FileMap {
    #[verifier::type_invariant]
    closed spec fn inv(self) -> bool {
        keys_distinct(self.entries@)
    }

    /// The entries, in insertion order.
    pub closed spec fn entry_seq(&self) -> Seq<(String, FileSpec)> {
        self.entries@
    }

    pub fn new() -> (r: Self)
        ensures
            r@ == Map::<Seq<char>, FileSpec>::empty(),
            r.entry_seq().len() == 0,
    {
        FileMap { entries: Vec::new() }
    }

    /// Number of paths.
    pub fn len(&self) -> (n: usize)
        ensures
            n == self@.dom().len(),
    {
        proof {
            use_type_invariant(self);
            lemma_entries_map(self.entries@);
        }
        self.entries.len()
    }

    /// The entries, in insertion order.
    pub fn entries(&self) -> (r: &[(String, FileSpec)])
        ensures
            r@ == self.entry_seq(),
            keys_distinct(r@),
            self@ == entries_map(r@),
    {
        proof {
            use_type_invariant(self);
        }
        self.entries.as_slice()
    }

    fn position(&self, key: &str) -> (r: Option<usize>)
        requires
            keys_distinct(self.entry_seq()),
        ensures
            r matches Some(i) ==> i < self.entry_seq().len() && self.entry_seq()[i as int].0@ == key@,
            r is None ==> forall|i: int| 0 <= i < self.entry_seq().len() ==> (#[trigger] self.entry_seq()[i]).0@ != key@,
    {
        let mut i: usize = 0;
        while i < self.entries.len()
            invariant
                i <= self.entries@.len(),
                forall|k: int| 0 <= k < i ==> (#[trigger] self.entries@[k]).0@ != key@,
            decreases self.entries@.len() - i,
        {
            if str_eq(self.entries[i].0.as_str(), key) {
                return Some(i);
            }
            i += 1;
        }
        None
    }

    /// Whether `key` has an entry.
    pub fn contains_key(&self, key: &str) -> (b: bool)
        ensures
            b == self@.dom().contains(key@),
    {
        proof {
            use_type_invariant(self);
            lemma_entries_map(self.entries@);
        }
        let r = self.position(key);
        proof {
            if let Some(i) = r {
                assert(self.entries@[i as int].0@ == key@);
            } else if self@.dom().contains(key@) {
                let i = choose|i: int| 0 <= i < self.entries@.len() && (#[trigger] self.entries@[i]).0@ == key@;
                assert(self.entry_seq()[i].0@ == key@);
            }
        }
        r.is_some()
    }

    /// The spec for `key`, if any.
    pub fn get(&self, key: &str) -> (r: Option<&FileSpec>)
        ensures
            r matches Some(v) ==> self@.dom().contains(key@) && self@[key@] == *v,
            r is None ==> !self@.dom().contains(key@),
    {
        proof {
            use_type_invariant(self);
            lemma_entries_map(self.entries@);
        }
        match self.position(key) {
            Some(i) => Some(&self.entries[i].1),
            None => None,
        }
    }

    /// Set the spec for `key`, replacing any earlier one.
    pub fn insert(&mut self, key: String, value: FileSpec)
        ensures
            final(self)@ == old(self)@.insert(key@, value),
    {
        proof {
            use_type_invariant(&*self);
            lemma_entries_map(self.entries@);
        }
        match self.position(key.as_str()) {
            Some(i) => {
                let ghost old_entries = self.entries@;
                let mut entries: Vec<(String, FileSpec)> = Vec::new();
                std::mem::swap(&mut entries, &mut self.entries);
                entries.set(i, (key, value));
                proof {
                    let s = entries@;
                    assert(keys_distinct(s)) by {
                        assert forall|a: int, b: int| 0 <= a < b < s.len() implies (#[trigger] s[a]).0@ != (#[trigger] s[b]).0@ by {
                            assert(old_entries[a].0@ != old_entries[b].0@);
                        }
                    }
                    lemma_entries_map(s);
                    lemma_entries_map(old_entries);
                    assert(entries_map(s) =~= entries_map(old_entries).insert(key@, value)) by {
                        assert forall|k: Seq<char>| #[trigger] entries_map(s).dom().contains(k) <==> entries_map(old_entries).insert(key@, value).dom().contains(k) by {
                            if entries_map(s).dom().contains(k) {
                                let j = choose|j: int| 0 <= j < s.len() && (#[trigger] s[j]).0@ == k;
                                if j != i {
                                    assert(old_entries[j] == s[j]);
                                }
                            }
                            if entries_map(old_entries).dom().contains(k) {
                                let j = choose|j: int| 0 <= j < old_entries.len() && (#[trigger] old_entries[j]).0@ == k;
                                if j != i {
                                    assert(old_entries[j] == s[j]);
                                } else {
                                    assert(s[i as int].0@ == k);
                                }
                            }
                        }
                        assert forall|k: Seq<char>| #[trigger] entries_map(s).dom().contains(k) implies entries_map(s)[k] == entries_map(old_entries).insert(key@, value)[k] by {
                            let j = choose|j: int| 0 <= j < s.len() && (#[trigger] s[j]).0@ == k;
                            if j != i {
                                assert(old_entries[j] == s[j]);
                            }
                        }
                    }
                }
                self.entries = entries;
            },
            None => {
                let ghost old_entries = self.entries@;
                assert(forall|i: int| 0 <= i < old_entries.len() ==> (#[trigger] old_entries[i]).0@ != key@) by {
                    assert(old_entries == self.entry_seq());
                }
                let mut entries: Vec<(String, FileSpec)> = Vec::new();
                std::mem::swap(&mut entries, &mut self.entries);
                entries.push((key, value));
                proof {
                    let s = entries@;
                    assert(s.drop_last() == old_entries);
                    assert(keys_distinct(s)) by {
                        assert forall|a: int, b: int| 0 <= a < b < s.len() implies (#[trigger] s[a]).0@ != (#[trigger] s[b]).0@ by {
                            if b == s.len() - 1 {
                                assert(old_entries[a] == s[a]);
                            } else {
                                assert(old_entries[a] == s[a] && old_entries[b] == s[b]);
                            }
                        }
                    }
                }
                self.entries = entries;
            },
        }
    }
}

// ---------------------------------------------------------------------------
// Selections
// ---------------------------------------------------------------------------

/// The positions named by `hunks`.
pub open spec fn selector_indices(hunks: Seq<HunkSelector>) -> Set<usize> {
    Set::new(|i: usize| exists|k: int| 0 <= k < hunks.len() && #[trigger] hunks[k] == HunkSelector::Index(i))
}

/// `sel` names the hunk id `s`.
pub open spec fn selects_id(sel: HunkSelector, s: Seq<char>) -> bool {
    match sel {
        HunkSelector::Id(id) => id@ == s,
        HunkSelector::Index(_) => false,
    }
}

/// The ids named by `hunks` and `ids`.
pub open spec fn selector_ids(hunks: Seq<HunkSelector>, ids: Seq<String>) -> Set<Seq<char>> {
    Set::new(|s: Seq<char>|
        (exists|k: int| 0 <= k < hunks.len() && selects_id(#[trigger] hunks[k], s))
        || (exists|k: int| 0 <= k < ids.len() && (#[trigger] ids[k])@ == s))
}

impl HunkSpec {
    /// The selection this spec describes: every listed position and id.
    pub fn to_selection(&self) -> (sel: HunkSelection)
        ensures
            sel.indices@ == selector_indices(self.hunks@),
            sel.ids@ == selector_ids(self.hunks@, self.ids@),
    {
        let mut sel = HunkSelection::new();
        let mut i: usize = 0;
        while i < self.hunks.len()
            invariant
                i <= self.hunks@.len(),
                sel.indices@ == Set::new(|x: usize| exists|k: int| 0 <= k < i && #[trigger] self.hunks@[k] == HunkSelector::Index(x)),
                sel.ids@ == Set::new(|s: Seq<char>| exists|k: int| 0 <= k < i && selects_id(#[trigger] self.hunks@[k], s)),
            decreases self.hunks@.len() - i,
        {
            let ghost old_indices = sel.indices@;
            let ghost old_ids = sel.ids@;
            match &self.hunks[i] {
                HunkSelector::Index(index) => {
                    sel.indices.insert(*index);
                    assert(sel.ids@ == Set::new(|s: Seq<char>| exists|k: int| 0 <= k < i + 1 && selects_id(#[trigger] self.hunks@[k], s))) by {
                        assert(sel.ids@ =~= Set::new(|s: Seq<char>| exists|k: int| 0 <= k < i + 1 && selects_id(#[trigger] self.hunks@[k], s)));
                    }
                    assert(sel.indices@ =~= Set::new(|x: usize| exists|k: int| 0 <= k < i + 1 && #[trigger] self.hunks@[k] == HunkSelector::Index(x))) by {
                        assert(self.hunks@[i as int] == HunkSelector::Index(*index));
                    }
                },
                HunkSelector::Id(id) => {
                    let copy = string_of(id.as_str());
                    sel.ids.insert(copy);
                    assert(sel.ids@ =~= Set::new(|s: Seq<char>| exists|k: int| 0 <= k < i + 1 && selects_id(#[trigger] self.hunks@[k], s))) by {
                        assert(self.hunks@[i as int] matches HunkSelector::Id(x) && x@ == id@);
                    }
                    assert(sel.indices@ =~= Set::new(|x: usize| exists|k: int| 0 <= k < i + 1 && #[trigger] self.hunks@[k] == HunkSelector::Index(x)));
                },
            }
            i += 1;
        }
        let mut j: usize = 0;
        while j < self.ids.len()
            invariant
                j <= self.ids@.len(),
                i == self.hunks@.len(),
                sel.indices@ == selector_indices(self.hunks@),
                sel.ids@ == Set::new(|s: Seq<char>|
                    (exists|k: int| 0 <= k < self.hunks@.len() && selects_id(#[trigger] self.hunks@[k], s))
                    || (exists|k: int| 0 <= k < j && (#[trigger] self.ids@[k])@ == s)),
            decreases self.ids@.len() - j,
        {
            let copy = string_of(self.ids[j].as_str());
            sel.ids.insert(copy);
            assert(sel.ids@ =~= Set::new(|s: Seq<char>|
                (exists|k: int| 0 <= k < self.hunks@.len() && selects_id(#[trigger] self.hunks@[k], s))
                || (exists|k: int| 0 <= k < j + 1 && (#[trigger] self.ids@[k])@ == s)));
            j += 1;
        }
        sel
    }
}

// ---------------------------------------------------------------------------
// Reading hunk selectors
// ---------------------------------------------------------------------------

/// `s.parse::<usize>()`: an optional `+` then one or more decimal digits
/// whose value fits in `usize`.
pub open spec fn parse_usize(s: Seq<char>) -> Option<usize> {
    let d = if s.len() > 0 && s[0] == '+' { s.drop_first() } else { s };
    if d.len() > 0 && all_digits(d) && digits_value(d) <= usize::MAX {
        Some(digits_value(d) as usize)
    } else {
        None
    }
}

pub fn parse_usize_exec(s: &[char]) -> (r: Option<usize>)
    ensures
        r == parse_usize(s@),
{
    let start: usize = if s.len() > 0 && s[0] == '+' { 1 } else { 0 };
    let ghost d = s@.skip(start as int);
    assert(d == if s@.len() > 0 && s@[0] == '+' { s@.drop_first() } else { s@ });
    if start == s.len() {
        return None;
    }
    let mut n: usize = 0;
    let mut i = start;
    while i < s.len()
        invariant
            start < s@.len(),
            start <= i <= s@.len(),
            d == s@.skip(start as int),
            d == if s@.len() > 0 && s@[0] == '+' { s@.drop_first() } else { s@ },
            all_digits(d.take(i - start)),
            n == digits_value(d.take(i - start)),
        decreases s@.len() - i,
    {
        let c = s[i];
        let ghost pre = d.take(i - start);
        let ghost next = d.take(i + 1 - start);
        assert(next.drop_last() == pre);
        assert(next.last() == c);
        if !('0' <= c && c <= '9') {
            assert(!all_digits(d)) by {
                assert(d[i - start] == c);
            }
            return None;
        }
        let dv = (c as u32 - '0' as u32) as usize;
        if n > (usize::MAX - dv) / 10 {
            proof {
                assert(all_digits(next));
                assert(digits_value(next) == n * 10 + dv);
                assert(n * 10 + dv > usize::MAX) by (nonlinear_arith)
                    requires
                        n > (usize::MAX - dv) / 10,
                        dv < 10,
                ;
                lemma_digits_prefix_le(d, i + 1 - start);
            }
            return None;
        }
        n = n * 10 + dv;
        i += 1;
    }
    assert(d.take(s@.len() - start) == d);
    Some(n)
}

proof fn lemma_digits_prefix_le(d: Seq<char>, k: int)
    requires
        0 <= k <= d.len(),
        all_digits(d.take(k)),
    ensures
        all_digits(d) ==> digits_value(d.take(k)) <= digits_value(d),
    decreases d.len() - k,
{
    if all_digits(d) {
        if k < d.len() {
            let t = d.take(k + 1);
            assert(t.drop_last() == d.take(k));
            assert(all_digits(t));
            assert(digits_value(t) == digits_value(d.take(k)) * 10 + ((t.last() as nat) - ('0' as nat)) as nat);
            lemma_digits_prefix_le(d, k + 1);
        } else {
            assert(d.take(k) == d);
        }
    }
}

/// The selector that a string in a spec's `hunks` list stands for: a
/// position when it reads as a number, else a hunk id.
pub open spec fn string_selector(value: Seq<char>) -> Option<Result<usize, Seq<char>>> {
    let t = trim(value);
    if t.len() == 0 {
        None
    } else if parse_usize(t) is Some {
        Some(Ok(parse_usize(t).unwrap()))
    } else if normalized_hunk_id(t) is Some {
        Some(Err(normalized_hunk_id(t).unwrap()))
    } else {
        None
    }
}

pub open spec fn invalid_selector_message(value: Seq<char>) -> Seq<char> {
    if trim(value).len() == 0 {
        "Invalid hunk selector: empty value"@
    } else {
        "Invalid hunk selector: "@ + value
    }
}

/// Read one string entry of a spec's `hunks` list.
pub fn parse_hunk_selector(value: &str) -> (r: Result<HunkSelector, String>)
    ensures
        r matches Ok(HunkSelector::Index(n)) ==> string_selector(value@) == Some(Ok::<usize, Seq<char>>(n)),
        r matches Ok(HunkSelector::Id(id)) ==> string_selector(value@) == Some(Err::<usize, Seq<char>>(id@)),
        r matches Err(msg) ==> string_selector(value@) is None && msg@ == invalid_selector_message(value@),
{
    let trimmed = trim_string(value);
    let tv = chars_of(trimmed.as_str());
    if tv.len() == 0 {
        let msg = string_of("Invalid hunk selector: empty value");
        return Err(msg);
    }
    match parse_usize_exec(tv.as_slice()) {
        Some(n) => Ok(HunkSelector::Index(n)),
        None => match normalize_hunk_id(trimmed.as_str()) {
            Some(id) => Ok(HunkSelector::Id(id)),
            None => {
                let mut msg = string_of("Invalid hunk selector: ");
                push_str(&mut msg, value);
                Err(msg)
            },
        },
    }
}

pub open spec fn invalid_id_message(value: Seq<char>) -> Seq<char> {
    "Invalid hunk id selector: "@ + value
}

/// Read one entry of a spec's `ids` list.
pub fn parse_hunk_id(value: &str) -> (r: Result<String, String>)
    ensures
        r matches Ok(id) ==> normalized_hunk_id(trim(value@)) == Some(id@),
        r matches Err(msg) ==> normalized_hunk_id(trim(value@)) is None && msg@ == invalid_id_message(value@),
{
    let trimmed = trim_string(value);
    match normalize_hunk_id(trimmed.as_str()) {
        Some(id) => Ok(id),
        None => {
            let mut msg = string_of("Invalid hunk id selector: ");
            push_str(&mut msg, value);
            Err(msg)
        },
    }
}


/// One entry of a spec's `hunks` list as written: a number or a string.
#[derive(Debug)]
pub enum SelectorInput {
    Index(usize),
    Text(String),
}

/// Whether an entry of a `hunks` list reads as a selector.
pub open spec fn input_ok(x: SelectorInput) -> bool {
    match x {
        SelectorInput::Index(_) => true,
        SelectorInput::Text(t) => string_selector(t@) is Some,
    }
}

/// Whether `sel` is the selector that the entry `x` stands for.
pub open spec fn selector_for(x: SelectorInput, sel: HunkSelector) -> bool {
    match x {
        SelectorInput::Index(n) => sel matches HunkSelector::Index(m) && m == n,
        SelectorInput::Text(t) => match string_selector(t@) {
            Some(Ok(n)) => sel matches HunkSelector::Index(m) && m == n,
            Some(Err(id)) => sel matches HunkSelector::Id(v) && v@ == id,
            None => false,
        },
    }
}

/// The message for a `hunks` entry that reads as no selector.
pub open spec fn input_message(x: SelectorInput) -> Seq<char> {
    match x {
        SelectorInput::Index(_) => Seq::empty(),
        SelectorInput::Text(t) => invalid_selector_message(t@),
    }
}

/// Read a spec's `hunks` list: every entry must read as a selector, else the
/// first one that does not is reported.
pub fn parse_hunk_selectors(inputs: Vec<SelectorInput>) -> (r: Result<Vec<HunkSelector>, String>)
    ensures
        match r {
            Ok(v) => v@.len() == inputs@.len() && forall|i: int| 0 <= i < inputs@.len() ==> input_ok(#[trigger] inputs@[i])
                && selector_for(inputs@[i], v@[i]),
            Err(msg) => exists|k: int| 0 <= k < inputs@.len() && !input_ok(#[trigger] inputs@[k])
                && (forall|j: int| 0 <= j < k ==> input_ok(#[trigger] inputs@[j])) && msg@ == input_message(inputs@[k]),
        },
{
    let mut parsed: Vec<HunkSelector> = Vec::new();
    let n = inputs.len();
    let mut i: usize = 0;
    while i < n
        invariant
            n == inputs@.len(),
            i <= n,
            parsed@.len() == i,
            forall|j: int| 0 <= j < i ==> input_ok(#[trigger] inputs@[j]) && selector_for(inputs@[j], parsed@[j]),
        decreases n - i,
    {
        let sel = match &inputs[i] {
            SelectorInput::Index(k) => HunkSelector::Index(*k),
            SelectorInput::Text(t) => match parse_hunk_selector(t.as_str()) {
                Ok(sel) => sel,
                Err(msg) => {
                    assert(!input_ok(inputs@[i as int]));
                    return Err(msg);
                },
            },
        };
        parsed.push(sel);
        i += 1;
    }
    Ok(parsed)
}

/// Read a spec's `ids` list: every entry must read as a hunk id, else the
/// first one that does not is reported.
pub fn parse_hunk_ids(values: Vec<String>) -> (r: Result<Vec<String>, String>)
    ensures
        match r {
            Ok(v) => v@.len() == values@.len() && forall|i: int| 0 <= i < values@.len()
                ==> normalized_hunk_id(trim((#[trigger] values@[i])@)) == Some(v@[i]@),
            Err(msg) => exists|k: int| 0 <= k < values@.len() && normalized_hunk_id(trim((#[trigger] values@[k])@)) is None
                && (forall|j: int| 0 <= j < k ==> normalized_hunk_id(trim((#[trigger] values@[j])@)) is Some)
                && msg@ == invalid_id_message(values@[k]@),
        },
{
    let mut parsed: Vec<String> = Vec::new();
    let n = values.len();
    let mut i: usize = 0;
    while i < n
        invariant
            n == values@.len(),
            i <= n,
            parsed@.len() == i,
            forall|j: int| 0 <= j < i ==> normalized_hunk_id(trim((#[trigger] values@[j])@)) == Some(parsed@[j]@),
        decreases n - i,
    {
        match parse_hunk_id(values[i].as_str()) {
            Ok(id) => parsed.push(id),
            Err(msg) => {
                return Err(msg);
            },
        }
        i += 1;
    }
    Ok(parsed)
}

} // verus!
