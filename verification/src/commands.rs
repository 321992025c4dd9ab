//! The decisions behind the `list`, `split`, `commit` and `squash` commands:
//! which files and hunks to show, how to group and render them, and which
//! `jj` invocation carries a selection.
use vstd::prelude::*;
use crate::diff::{normalized_hunk_id, Hunk, HunkSelection};
use crate::hunkset::EnrichedHunk;
use crate::glob::{match_segments, segments, segments_match, skip_dot_slash, split_segments,
    strip_dot_slash, suffix, views};
use crate::spec::{selector_ids, selector_indices, Action, DefaultAction, FileSpec, HunkSpec, Spec};
use crate::semantic::{extension_of, path_extension};
use vstd::utf8::valid_utf8;
use crate::text::{chars_of, decimal, decimal_string, push_str, str_eq, string_from_chars, string_of,
    trim, trim_bounds};

verus! {

/// The flag that makes `jj` run this tool as its diff editor.
pub const JJ_HUNK_TOOL_ARG: &'static str = "--tool=jj-hunk";

/// The `jj` config key naming the tool's program.
pub const JJ_HUNK_PROGRAM_KEY: &'static str = "merge-tools.jj-hunk.program";

/// The `jj` config key holding the tool's arguments.
pub const JJ_HUNK_EDIT_ARGS_KEY: &'static str = "merge-tools.jj-hunk.edit-args";

#[derive(Debug, Clone, Copy, PartialEq, Eq, Structural)]
pub enum ListFormat {
    Json,
    Yaml,
    Text,
}

impl Default for ListFormat {
    fn default() -> (r: Self)
        ensures
            r == ListFormat::Json,
    {
        ListFormat::Json
    }
}

/// How `list` groups files: not at all, or by directory, extension or status.
#[derive(Debug, Clone, Copy, PartialEq, Eq, Structural)]
pub enum ListGrouping {
    Ungrouped,
    Directory,
    Extension,
    Status,
}

impl Default for ListGrouping {
    fn default() -> (r: Self)
        ensures
            r == ListGrouping::Ungrouped,
    {
        ListGrouping::Ungrouped
    }
}

#[derive(Debug, Clone, Copy, PartialEq, Eq, Structural)]
pub enum BinaryMode {
    Skip,
    Mark,
    Include,
}

impl Default for BinaryMode {
    fn default() -> (r: Self)
        ensures
            r == BinaryMode::Mark,
    {
        BinaryMode::Mark
    }
}

#[derive(Debug, Clone, Copy, PartialEq, Eq, Structural)]
pub enum ListMode {
    Full,
    Files,
    SpecTemplate,
}

impl Default for ListMode {
    fn default() -> (r: Self)
        ensures
            r == ListMode::Full,
    {
        ListMode::Full
    }
}

#[derive(Debug, Clone)]
pub struct ListOptions {
    pub rev: Option<String>,
    pub includes: Vec<String>,
    pub excludes: Vec<String>,
    pub group: ListGrouping,
    pub format: ListFormat,
    pub mode: ListMode,
    pub spec: Option<String>,
    pub spec_file: Option<String>,
    pub binary: BinaryMode,
    pub max_bytes: Option<usize>,
    pub max_lines: Option<usize>,
}

impl Default for ListOptions {
    fn default() -> (r: Self)
        ensures
            r.rev is None,
            r.includes@.len() == 0,
            r.excludes@.len() == 0,
            r.group == ListGrouping::Ungrouped,
            r.format == ListFormat::Json,
            r.mode == ListMode::Full,
            r.spec is None,
            r.spec_file is None,
            r.binary == BinaryMode::Mark,
            r.max_bytes is None,
            r.max_lines is None,
    {
        ListOptions {
            rev: None,
            includes: Vec::new(),
            excludes: Vec::new(),
            group: ListGrouping::Ungrouped,
            format: ListFormat::Json,
            mode: ListMode::Full,
            spec: None,
            spec_file: None,
            binary: BinaryMode::Mark,
            max_bytes: None,
            max_lines: None,
        }
    }
}

impl ListOptions {
    /// The default options for the revision `rev`.
    pub fn for_rev(rev: Option<&str>) -> (r: Self)
        ensures
            match rev {
                Some(s) => r.rev matches Some(x) && x@ == s@,
                None => r.rev is None,
            },
            r.includes@.len() == 0,
            r.excludes@.len() == 0,
            r.group == ListGrouping::Ungrouped,
            r.format == ListFormat::Json,
            r.mode == ListMode::Full,
            r.spec is None,
            r.spec_file is None,
            r.binary == BinaryMode::Mark,
            r.max_bytes is None,
            r.max_lines is None,
    {
        let mut r = ListOptions::default();
        r.rev = match rev {
            Some(s) => Some(string_of(s)),
            None => None,
        };
        r
    }
}

// ---------------------------------------------------------------------------
// Revisions and diff summary entries
// ---------------------------------------------------------------------------

pub open spec fn opt_view(o: Option<String>) -> Option<Seq<char>> {
    match o {
        Some(s) => Some(s@),
        None => None,
    }
}

pub open spec fn opt_str_view(o: Option<&str>) -> Option<Seq<char>> {
    match o {
        Some(s) => Some(s@),
        None => None,
    }
}

/// The revisions whose files are compared: the parent of `revset` and
/// `revset` itself; without one, the working copy's parent and the working
/// copy.
pub fn resolve_revisions(revset: Option<&str>) -> (r: (Option<String>, Option<String>))
    ensures
        match revset {
            Some(rev) => opt_view(r.0) == Some("("@ + rev@ + ")-"@) && opt_view(r.1) == Some(rev@),
            None => opt_view(r.0) == Some("@-"@) && r.1 is None,
        },
{
    match revset {
        Some(rev) => {
            let mut before = string_of("(");
            push_str(&mut before, rev);
            push_str(&mut before, ")-");
            (Some(before), Some(string_of(rev)))
        },
        None => (Some(string_of("@-")), None),
    }
}

/// One line of `jj diff`'s summary: a file's status and paths.
#[derive(Debug, Clone)]
pub struct DiffSummaryEntry {
    pub status: String,
    pub path: String,
    pub source: String,
    pub target: String,
}

/// The path a summary entry is listed under: its path, else its target,
/// else its source.
pub open spec fn primary_path_spec(e: DiffSummaryEntry) -> Seq<char> {
    if e.path@.len() > 0 {
        e.path@
    } else if e.target@.len() > 0 {
        e.target@
    } else {
        e.source@
    }
}

pub fn primary_path(entry: &DiffSummaryEntry) -> (r: String)
    ensures
        r@ == primary_path_spec(*entry),
{
    if !entry.path.as_str().is_empty() {
        entry.path.clone()
    } else if !entry.target.as_str().is_empty() {
        entry.target.clone()
    } else {
        entry.source.clone()
    }
}

#[derive(Debug, Clone)]
pub struct RenameInfo {
    pub from: String,
    pub to: String,
}

pub open spec fn is_rename_status(s: Seq<char>) -> bool {
    s == "renamed"@ || s == "copied"@
}

/// For a rename or copy with a known source: where the file came from and
/// where it went (its target, else its path).
pub open spec fn rename_spec(e: DiffSummaryEntry) -> Option<(Seq<char>, Seq<char>)> {
    if is_rename_status(e.status@) && e.source@.len() > 0 {
        Some((e.source@, if e.target@.len() == 0 { e.path@ } else { e.target@ }))
    } else {
        None
    }
}

pub open spec fn rename_view(r: Option<RenameInfo>) -> Option<(Seq<char>, Seq<char>)> {
    match r {
        Some(info) => Some((info.from@, info.to@)),
        None => None,
    }
}

pub fn rename_info(entry: &DiffSummaryEntry) -> (r: Option<RenameInfo>)
    ensures
        rename_view(r) == rename_spec(*entry),
        match r {
            Some(info) => is_rename_status(entry.status@) && entry.source@.len() > 0
                && info.from@ == entry.source@ && info.to@ == (if entry.target@.len() == 0 {
                entry.path@
            } else {
                entry.target@
            }),
            None => !is_rename_status(entry.status@) || entry.source@.len() == 0,
        },
{
    if str_eq(entry.status.as_str(), "renamed") || str_eq(entry.status.as_str(), "copied") {
        if entry.source.as_str().is_empty() {
            return None;
        }
        let to = if entry.target.as_str().is_empty() {
            entry.path.clone()
        } else {
            entry.target.clone()
        };
        Some(RenameInfo { from: entry.source.clone(), to })
    } else {
        None
    }
}

/// The paths of a file before and after the change (absent when the file
/// did not exist on that side).
#[derive(Debug, Clone)]
pub struct FilePaths {
    pub before: Option<String>,
    pub after: Option<String>,
}

/// Where a file is read from before and after the change: nowhere before
/// an addition or after a removal; a rename or copy reads its source and its
/// target, where they are known.
pub open spec fn entry_file_paths(e: DiffSummaryEntry, path: Seq<char>) -> (Option<Seq<char>>, Option<Seq<char>>) {
    if e.status@ == "added"@ {
        (None, Some(path))
    } else if e.status@ == "removed"@ {
        (Some(path), None)
    } else if is_rename_status(e.status@) {
        (Some(if e.source@.len() == 0 { path } else { e.source@ }),
        Some(if e.target@.len() == 0 { path } else { e.target@ }))
    } else {
        (Some(path), Some(path))
    }
}

pub fn file_paths_for_entry(entry: &DiffSummaryEntry, path: &str) -> (r: FilePaths)
    ensures
        (opt_view(r.before), opt_view(r.after)) == entry_file_paths(*entry, path@),
        entry.status@ == "added"@ ==> r.before is None && opt_view(r.after) == Some(path@),
        entry.status@ == "removed"@ ==> opt_view(r.before) == Some(path@) && r.after is None,
        is_rename_status(entry.status@) ==> opt_view(r.before) == Some(
            if entry.source@.len() == 0 {
                path@
            } else {
                entry.source@
            },
        ) && opt_view(r.after) == Some(
            if entry.target@.len() == 0 {
                path@
            } else {
                entry.target@
            },
        ),
        !(entry.status@ == "added"@ || entry.status@ == "removed"@ || is_rename_status(entry.status@))
            ==> opt_view(r.before) == Some(path@) && opt_view(r.after) == Some(path@),
{
    proof {
        reveal_strlit("added");
        reveal_strlit("removed");
        reveal_strlit("renamed");
        reveal_strlit("copied");
        assert("added"@.len() == 5 && "removed"@.len() == 7);
        assert("renamed"@[2] == 'n' && "removed"@[2] == 'm');
        assert("copied"@.len() == 6);
    }
    let status = entry.status.as_str();
    assert(status@ == entry.status@);
    if str_eq(status, "added") {
        FilePaths { before: None, after: Some(string_of(path)) }
    } else if str_eq(status, "removed") {
        FilePaths { before: Some(string_of(path)), after: None }
    } else if str_eq(status, "renamed") || str_eq(status, "copied") {
        let before = if entry.source.as_str().is_empty() {
            string_of(path)
        } else {
            entry.source.clone()
        };
        let after = if entry.target.as_str().is_empty() {
            string_of(path)
        } else {
            entry.target.clone()
        };
        FilePaths { before: Some(before), after: Some(after) }
    } else {
        FilePaths { before: Some(string_of(path)), after: Some(string_of(path)) }
    }
}

// ---------------------------------------------------------------------------
// Which files and hunks a spec keeps
// ---------------------------------------------------------------------------

/// What a spec says about one file in a listing.
#[derive(Debug)]
pub enum SpecDecision {
    Skip,
    KeepAll,
    KeepSelection(HunkSelection),
}

/// Whether the selection `hs` denotes keeps nothing.
pub open spec fn selects_nothing(hs: HunkSpec) -> bool {
    selector_indices(hs.hunks@).is_empty() && selector_ids(hs.hunks@, hs.ids@) == Set::<Seq<char>>::empty()
}

/// What `spec_decision` decides, with the selection given by its views.
pub open spec fn decision_ok(spec: Option<&Spec>, path: Seq<char>, d: SpecDecision) -> bool {
    match spec {
        None => d is KeepAll,
        Some(s) => if s.files@.dom().contains(path) {
            match s.files@[path] {
                FileSpec::Action { action: Action::Keep } => d is KeepAll,
                FileSpec::Action { action: Action::Reset } => d is Skip,
                FileSpec::Selection(hs) => if selects_nothing(hs) {
                    d is Skip
                } else {
                    d matches SpecDecision::KeepSelection(sel) && sel.indices@ == selector_indices(hs.hunks@)
                        && sel.ids@ == selector_ids(hs.hunks@, hs.ids@)
                },
            }
        } else if s.default == DefaultAction::Reset {
            d is Skip
        } else {
            d is KeepAll
        },
    }
}

/// Whether a listing shows the file `path`, and which of its hunks.
pub fn spec_decision(spec: Option<&Spec>, path: &str) -> (d: SpecDecision)
    ensures
        decision_ok(spec, path@, d),
{
    let spec = match spec {
        Some(s) => s,
        None => {
            return SpecDecision::KeepAll;
        },
    };
    match spec.files.get(path) {
        Some(file_spec) => match file_spec {
            FileSpec::Action { action: Action::Keep } => SpecDecision::KeepAll,
            FileSpec::Action { action: Action::Reset } => SpecDecision::Skip,
            FileSpec::Selection(selection) => {
                let selection = selection.to_selection();
                if selection.is_empty() {
                    SpecDecision::Skip
                } else {
                    SpecDecision::KeepSelection(selection)
                }
            },
        },
        None => {
            match spec.default {
                DefaultAction::Reset => SpecDecision::Skip,
                DefaultAction::Keep => SpecDecision::KeepAll,
            }
        },
    }
}

/// Whether `selection` keeps the hunk `h`.
pub open spec fn keeps(selection: HunkSelection, h: Hunk) -> bool {
    selection.indices@.contains(h.index) || selection.ids@.contains(h.id@)
}

/// The hunks that `selection` keeps, in order.
pub fn filter_hunks(hunks: Vec<Hunk>, selection: &HunkSelection) -> (r: Vec<Hunk>)
    ensures
        r@ == hunks@.filter(|h: Hunk| keeps(*selection, h)),
{
    let ghost all = hunks@;
    let ghost pred = |h: Hunk| keeps(*selection, h);
    let mut rest = hunks;
    let mut r: Vec<Hunk> = Vec::new();
    let n = rest.len();
    let mut i: usize = 0;
    while i < n
        invariant
            n == all.len(),
            i <= n,
            rest@ == all.skip(i as int),
            pred == (|h: Hunk| keeps(*selection, h)),
            r@ == all.take(i as int).filter(pred),
        decreases n - i,
    {
        let h = rest.remove(0);
        let ghost hv = h;
        assert(all.take(i + 1).drop_last() == all.take(i as int));
        assert(all.take(i + 1).last() == hv);
        assert(rest@ == all.skip(i + 1));
        let keep = selection.matches(h.index, h.id.as_str());
        if keep {
            r.push(h);
        }
        assert(pred(hv) == keep);
        assert(all.take(i + 1) == all.take(i as int).push(hv));
        proof {
            all.take(i as int).lemma_filter_push(hv, pred);
        }
        assert(all.take(i + 1).filter(pred) == (if pred(hv) {
            all.take(i as int).filter(pred).push(hv)
        } else {
            all.take(i as int).filter(pred)
        }));
        i += 1;
    }
    assert(all.take(n as int) == all);
    r
}

// ---------------------------------------------------------------------------
// Include / exclude patterns
// ---------------------------------------------------------------------------

/// The pieces of `s` between commas (empty ones included), where `cur` is
/// the piece collected so far.
pub open spec fn comma_pieces_from(s: Seq<char>, cur: Seq<char>) -> Seq<Seq<char>>
    decreases s.len(),
{
    if s.len() == 0 {
        seq![cur]
    } else if s[0] == ',' {
        seq![cur] + comma_pieces_from(s.drop_first(), Seq::empty())
    } else {
        comma_pieces_from(s.drop_first(), cur.push(s[0]))
    }
}

/// The trimmed pieces that are not empty.
pub open spec fn trimmed_nonempty(pieces: Seq<Seq<char>>) -> Seq<Seq<char>>
    decreases pieces.len(),
{
    if pieces.len() == 0 {
        Seq::empty()
    } else {
        let rest = trimmed_nonempty(pieces.drop_first());
        if trim(pieces[0]).len() > 0 {
            seq![trim(pieces[0])] + rest
        } else {
            rest
        }
    }
}

/// Every comma-separated, trimmed, non-empty piece of the patterns, in order.
pub open spec fn normalized_patterns(ps: Seq<Seq<char>>) -> Seq<Seq<char>>
    decreases ps.len(),
{
    if ps.len() == 0 {
        Seq::empty()
    } else {
        normalized_patterns(ps.drop_last()) + trimmed_nonempty(comma_pieces_from(ps.last(), Seq::empty()))
    }
}

pub open spec fn strings_view(v: Seq<String>) -> Seq<Seq<char>> {
    v.map_values(|s: String| s@)
}

proof fn lemma_trimmed_nonempty_append(a: Seq<Seq<char>>, b: Seq<Seq<char>>)
    ensures
        trimmed_nonempty(a + b) == trimmed_nonempty(a) + trimmed_nonempty(b),
    decreases a.len(),
{
    if a.len() == 0 {
        assert(a + b == b);
    } else {
        assert((a + b).drop_first() == a.drop_first() + b);
        lemma_trimmed_nonempty_append(a.drop_first(), b);
    }
}

proof fn lemma_trimmed_single(x: Seq<char>)
    ensures
        trimmed_nonempty(seq![x]) == (if trim(x).len() > 0 {
            seq![trim(x)]
        } else {
            Seq::<Seq<char>>::empty()
        }),
{
    assert(seq![x].drop_first() =~= Seq::<Seq<char>>::empty());
    assert(trimmed_nonempty(Seq::<Seq<char>>::empty()) == Seq::<Seq<char>>::empty());
    if trim(x).len() > 0 {
        assert(seq![trim(x)] + Seq::<Seq<char>>::empty() =~= seq![trim(x)]);
    }
}

/// Append the trimmed pieces of `v` between commas that are not empty.
fn push_pieces(out: &mut Vec<String>, v: &[char])
    ensures
        strings_view(final(out)@) == strings_view(old(out)@) + trimmed_nonempty(
            comma_pieces_from(v@, Seq::empty()),
        ),
{
    let n = v.len();
    let mut cur: Vec<char> = Vec::new();
    let mut i: usize = 0;
    assert(v@.skip(0) == v@);
    while i < n
        invariant
            n == v@.len(),
            i <= n,
            strings_view(out@) + trimmed_nonempty(comma_pieces_from(v@.skip(i as int), cur@))
                == strings_view(old(out)@) + trimmed_nonempty(comma_pieces_from(v@, Seq::empty())),
        decreases n - i,
    {
        let ghost rest = v@.skip(i as int);
        assert(rest.drop_first() == v@.skip(i + 1));
        if v[i] == ',' {
            let ghost before = strings_view(out@);
            let (lo, hi) = trim_bounds(cur.as_slice());
            proof {
                lemma_trimmed_nonempty_append(seq![cur@], comma_pieces_from(v@.skip(i + 1), Seq::empty()));
                lemma_trimmed_single(cur@);
            }
            if lo < hi {
                let piece = string_from_chars(cur.as_slice(), lo, hi);
                out.push(piece);
                assert(strings_view(out@) =~= before.push(trim(cur@)));
                assert(before.push(trim(cur@)) + trimmed_nonempty(comma_pieces_from(v@.skip(i + 1), Seq::empty()))
                    =~= before + (seq![trim(cur@)] + trimmed_nonempty(comma_pieces_from(v@.skip(i + 1), Seq::empty()))));
            } else {
                assert(Seq::<Seq<char>>::empty() + trimmed_nonempty(comma_pieces_from(v@.skip(i + 1), Seq::empty()))
                    =~= trimmed_nonempty(comma_pieces_from(v@.skip(i + 1), Seq::empty())));
            }
            cur = Vec::new();
        } else {
            cur.push(v[i]);
        }
        i += 1;
    }
    proof {
        assert(v@.skip(n as int) =~= Seq::<char>::empty());
    }
    proof {
        lemma_trimmed_single(cur@);
    }
    let (lo, hi) = trim_bounds(cur.as_slice());
    if lo < hi {
        let ghost before = strings_view(out@);
        let piece = string_from_chars(cur.as_slice(), lo, hi);
        out.push(piece);
        assert(strings_view(out@) =~= before.push(trim(cur@)));
        assert(before.push(trim(cur@)) =~= before + seq![trim(cur@)]);
    } else {
        assert(strings_view(out@) + Seq::<Seq<char>>::empty() =~= strings_view(out@));
    }
}

/// Split each pattern at commas and keep the trimmed, non-empty pieces.
pub fn normalize_patterns(patterns: &[String]) -> (r: Vec<String>)
    ensures
        strings_view(r@) == normalized_patterns(strings_view(patterns@)),
{
    let mut r: Vec<String> = Vec::new();
    let n = patterns.len();
    let mut i: usize = 0;
    while i < n
        invariant
            n == patterns@.len(),
            i <= n,
            strings_view(r@) == normalized_patterns(strings_view(patterns@).take(i as int)),
        decreases n - i,
    {
        let v = chars_of(patterns[i].as_str());
        push_pieces(&mut r, v.as_slice());
        assert(strings_view(patterns@).take(i + 1).drop_last() == strings_view(patterns@).take(i as int));
        i += 1;
    }
    assert(strings_view(patterns@).take(n as int) == strings_view(patterns@));
    r
}

/// The paths a summary entry names, each once, in the order path, source,
/// target (empty ones left out).
pub open spec fn entry_paths_spec(e: DiffSummaryEntry) -> Seq<Seq<char>> {
    let p = if e.path@.len() > 0 { seq![e.path@] } else { Seq::empty() };
    let s = if e.source@.len() > 0 && e.source@ != e.path@ { seq![e.source@] } else { Seq::empty() };
    let t = if e.target@.len() > 0 && e.target@ != e.path@ && e.target@ != e.source@ {
        seq![e.target@]
    } else {
        Seq::empty()
    };
    p + s + t
}

pub fn entry_paths(entry: &DiffSummaryEntry) -> (r: Vec<String>)
    ensures
        strings_view(r@) == entry_paths_spec(*entry),
{
    let mut r: Vec<String> = Vec::new();
    if !entry.path.as_str().is_empty() {
        r.push(entry.path.clone());
    }
    let ghost a = strings_view(r@);
    if !entry.source.as_str().is_empty() && !str_eq(entry.source.as_str(), entry.path.as_str()) {
        r.push(entry.source.clone());
    }
    let ghost b = strings_view(r@);
    if !entry.target.as_str().is_empty() && !str_eq(entry.target.as_str(), entry.path.as_str())
        && !str_eq(entry.target.as_str(), entry.source.as_str()) {
        r.push(entry.target.clone());
    }
    assert(strings_view(r@) =~= entry_paths_spec(*entry));
    r
}

/// What a listing's path filter decides: like `glob_match`, except that an
/// empty pattern matches only the empty path and that a pattern without a
/// slash is matched against the whole path.
pub open spec fn path_glob_spec(pattern: Seq<char>, path: Seq<char>) -> bool {
    let p = strip_dot_slash(pattern);
    let t = strip_dot_slash(path);
    if p.len() == 0 {
        t.len() == 0
    } else {
        segments_match(segments(p), segments(t))
    }
}

pub fn path_glob_match(pattern: &str, path: &str) -> (b: bool)
    ensures
        b == path_glob_spec(pattern@, path@),
{
    let pv = chars_of(pattern);
    let tv = chars_of(path);
    let p = suffix(pv.as_slice(), skip_dot_slash(pv.as_slice()));
    let t = suffix(tv.as_slice(), skip_dot_slash(tv.as_slice()));
    if p.len() == 0 {
        return t.len() == 0;
    }
    let ps = split_segments(p.as_slice());
    let ts = split_segments(t.as_slice());
    assert(views(ps@).skip(0) == views(ps@));
    assert(views(ts@).skip(0) == views(ts@));
    match_segments(&ps, 0, &ts, 0)
}

pub open spec fn any_path_glob(patterns: Seq<Seq<char>>, path: Seq<char>) -> bool {
    exists|k: int| 0 <= k < patterns.len() && path_glob_spec(#[trigger] patterns[k], path)
}

pub fn matches_any(patterns: &[String], path: &str) -> (b: bool)
    ensures
        b == any_path_glob(strings_view(patterns@), path@),
{
    let n = patterns.len();
    let mut k: usize = 0;
    while k < n
        invariant
            n == patterns@.len(),
            k <= n,
            forall|j: int| 0 <= j < k ==> !path_glob_spec(#[trigger] strings_view(patterns@)[j], path@),
        decreases n - k,
    {
        if path_glob_match(patterns[k].as_str(), path) {
            assert(path_glob_spec(strings_view(patterns@)[k as int], path@));
            return true;
        }
        k += 1;
    }
    false
}

/// Whether a listing shows the entry: one of its paths matches an include
/// pattern (when there are any) and none matches an exclude pattern.
pub open spec fn included(e: DiffSummaryEntry, includes: Seq<Seq<char>>, excludes: Seq<Seq<char>>) -> bool {
    let paths = entry_paths_spec(e);
    &&& (includes.len() > 0 ==> exists|k: int| 0 <= k < paths.len() && any_path_glob(includes, #[trigger] paths[k]))
    &&& (excludes.len() > 0 ==> forall|k: int| 0 <= k < paths.len() ==> !any_path_glob(excludes, #[trigger] paths[k]))
}

fn any_path_matches(paths: &Vec<String>, patterns: &[String]) -> (b: bool)
    ensures
        b == exists|k: int| 0 <= k < paths@.len() && any_path_glob(strings_view(patterns@), #[trigger] strings_view(paths@)[k]),
{
    let n = paths.len();
    let mut k: usize = 0;
    while k < n
        invariant
            n == paths@.len(),
            k <= n,
            forall|j: int| 0 <= j < k ==> !any_path_glob(strings_view(patterns@), #[trigger] strings_view(paths@)[j]),
        decreases n - k,
    {
        if matches_any(patterns, paths[k].as_str()) {
            assert(any_path_glob(strings_view(patterns@), strings_view(paths@)[k as int]));
            return true;
        }
        k += 1;
    }
    false
}

pub fn should_include_entry(entry: &DiffSummaryEntry, includes: &[String], excludes: &[String]) -> (b: bool)
    ensures
        b == included(*entry, strings_view(includes@), strings_view(excludes@)),
{
    let paths = entry_paths(entry);
    if includes.len() > 0 && !any_path_matches(&paths, includes) {
        return false;
    }
    if excludes.len() > 0 && any_path_matches(&paths, excludes) {
        return false;
    }
    true
}

pub open spec fn status_letter(status: Seq<char>) -> Seq<char> {
    if status == "modified"@ {
        "M"@
    } else if status == "added"@ {
        "A"@
    } else if status == "removed"@ {
        "D"@
    } else if status == "renamed"@ {
        "R"@
    } else if status == "copied"@ {
        "C"@
    } else {
        "?"@
    }
}

/// The one-letter code of a file status.
pub fn status_char(status: &str) -> (r: &'static str)
    ensures
        r@ == status_letter(status@),
{
    if str_eq(status, "modified") {
        "M"
    } else if str_eq(status, "added") {
        "A"
    } else if str_eq(status, "removed") {
        "D"
    } else if str_eq(status, "renamed") {
        "R"
    } else if str_eq(status, "copied") {
        "C"
    } else {
        "?"
    }
}

// ---------------------------------------------------------------------------
// Listing output
// ---------------------------------------------------------------------------

/// One file of a listing.
#[derive(Debug)]
pub struct FileEntry {
    pub path: String,
    pub status: String,
    pub rename: Option<RenameInfo>,
    pub hunks: Vec<Hunk>,
    pub binary: Option<bool>,
    pub truncated: Option<bool>,
}

#[derive(Debug)]
pub struct ListGroup {
    pub name: String,
    pub files: Vec<FileEntry>,
}

/// A listing: its files, or its groups of files.
#[derive(Debug)]
pub struct ListOutput {
    pub files: Option<Vec<FileEntry>>,
    pub groups: Option<Vec<ListGroup>>,
}

/// One file of a listing of files only.
#[derive(Debug)]
pub struct FileSummary {
    pub path: String,
    pub status: String,
    pub rename: Option<RenameInfo>,
    pub hunk_count: usize,
    pub binary: Option<bool>,
    pub truncated: Option<bool>,
}

#[derive(Debug)]
pub struct ListSummaryGroup {
    pub name: String,
    pub files: Vec<FileSummary>,
}

#[derive(Debug)]
pub struct ListSummaryOutput {
    pub files: Option<Vec<FileSummary>>,
    pub groups: Option<Vec<ListSummaryGroup>>,
}

/// What `std::path::Path::parent` gives for the path `p`.
pub uninterp spec fn path_parent(p: Seq<char>) -> Option<Seq<char>>;

/// Calls `std::path::Path::parent`; the contract claims that, on the
/// platform the crate is built for, the result depends on the path's text
/// alone.
#[verifier::external_body]
fn parent_of(path: &str) -> (r: Option<&str>)
    ensures
        match path_parent(path@) {
            Some(q) => r matches Some(x) && x@ == q,
            None => r is None,
        },
{
    std::path::Path::new(path).parent().and_then(|p| p.to_str())
}

/// The directory a file is grouped under: its parent, or `.` at the top.
pub open spec fn directory_group_spec(path: Seq<char>) -> Seq<char> {
    match path_parent(path) {
        Some(q) => if q.len() > 0 { q } else { "."@ },
        None => "."@,
    }
}

pub fn directory_group(path: &str) -> (r: String)
    ensures
        r@ == directory_group_spec(path@),
{
    match parent_of(path) {
        Some(parent) => {
            if parent.is_empty() {
                string_of(".")
            } else {
                string_of(parent)
            }
        },
        None => string_of("."),
    }
}

/// The extension a file is grouped under, or `<no-ext>`.
pub open spec fn extension_group_spec(path: Seq<char>) -> Seq<char> {
    match path_extension(path) {
        Some(e) => e,
        None => "<no-ext>"@,
    }
}

pub fn extension_group(path: &str) -> (r: String)
    ensures
        r@ == extension_group_spec(path@),
{
    match extension_of(path) {
        Some(ext) => string_of(ext),
        None => string_of("<no-ext>"),
    }
}

/// The group a file with this path and status belongs to.
pub open spec fn group_key_spec(grouping: ListGrouping, path: Seq<char>, status: Seq<char>) -> Seq<char> {
    match grouping {
        ListGrouping::Directory => directory_group_spec(path),
        ListGrouping::Extension => extension_group_spec(path),
        ListGrouping::Status => status,
        ListGrouping::Ungrouped => Seq::empty(),
    }
}

fn group_key(grouping: ListGrouping, path: &str, status: &str) -> (r: String)
    ensures
        r@ == group_key_spec(grouping, path@, status@),
{
    match grouping {
        ListGrouping::Directory => directory_group(path),
        ListGrouping::Extension => extension_group(path),
        ListGrouping::Status => string_of(status),
        ListGrouping::Ungrouped => String::new(),
    }
}

/// The keys in order of first occurrence, each once.
pub open spec fn distinct_keys(keys: Seq<Seq<char>>) -> Seq<Seq<char>>
    decreases keys.len(),
{
    if keys.len() == 0 {
        Seq::empty()
    } else {
        let d = distinct_keys(keys.drop_last());
        if d.contains(keys.last()) {
            d
        } else {
            d.push(keys.last())
        }
    }
}

/// The items whose key is `name`, in order.
pub open spec fn with_key<T>(items: Seq<T>, keys: Seq<Seq<char>>, name: Seq<char>) -> Seq<T>
    decreases items.len(),
{
    if items.len() == 0 {
        Seq::empty()
    } else {
        let rest = with_key(items.drop_last(), keys.drop_last(), name);
        if keys.last() == name {
            rest.push(items.last())
        } else {
            rest
        }
    }
}

proof fn lemma_distinct_keys_contains(keys: Seq<Seq<char>>, x: Seq<char>)
    ensures
        distinct_keys(keys).contains(x) <==> keys.contains(x),
    decreases keys.len(),
{
    if keys.len() > 0 {
        lemma_distinct_keys_contains(keys.drop_last(), x);
        let d = distinct_keys(keys.drop_last());
        if keys.contains(x) {
            let i = choose|i: int| 0 <= i < keys.len() && keys[i] == x;
            if i < keys.len() - 1 {
                assert(keys.drop_last()[i] == x);
            }
        }
        if keys.drop_last().contains(x) {
            let i = choose|i: int| 0 <= i < keys.drop_last().len() && keys.drop_last()[i] == x;
            assert(keys[i] == x);
        }
        if !d.contains(keys.last()) {
            assert(d.push(keys.last())[d.len() as int] == keys.last());
            if d.push(keys.last()).contains(x) {
                let j = choose|j: int| 0 <= j < d.len() + 1 && d.push(keys.last())[j] == x;
                if j < d.len() {
                    assert(d[j] == x);
                }
            }
            if d.contains(x) {
                let j = choose|j: int| 0 <= j < d.len() && d[j] == x;
                assert(d.push(keys.last())[j] == x);
            }
        }
    }
}

proof fn lemma_with_key_absent<T>(items: Seq<T>, keys: Seq<Seq<char>>, name: Seq<char>)
    requires
        items.len() == keys.len(),
        !keys.contains(name),
    ensures
        with_key(items, keys, name) == Seq::<T>::empty(),
    decreases items.len(),
{
    if items.len() > 0 {
        if keys.drop_last().contains(name) {
            let i = choose|i: int| 0 <= i < keys.drop_last().len() && keys.drop_last()[i] == name;
            assert(keys[i] == name);
        }
        assert(keys[keys.len() - 1] == keys.last());
        lemma_with_key_absent(items.drop_last(), keys.drop_last(), name);
    }
}

proof fn lemma_distinct_keys_distinct(keys: Seq<Seq<char>>)
    ensures
        forall|a: int, b: int| 0 <= a < b < distinct_keys(keys).len() ==> distinct_keys(keys)[a] != distinct_keys(keys)[b],
    decreases keys.len(),
{
    if keys.len() > 0 {
        lemma_distinct_keys_distinct(keys.drop_last());
        let d = distinct_keys(keys.drop_last());
        let l = keys.last();
        if !d.contains(l) {
            assert forall|a: int, b: int| 0 <= a < b < d.push(l).len() implies d.push(l)[a] != d.push(l)[b] by {
                if b == d.len() && d[a] == l {
                    assert(d.contains(l));
                }
            }
        }
    }
}

fn position_of<T>(groups: &Vec<(String, Vec<T>)>, key: &str) -> (r: Option<usize>)
    ensures
        match r {
            Some(p) => p < groups@.len() && groups@[p as int].0@ == key@,
            None => forall|j: int| 0 <= j < groups@.len() ==> (#[trigger] groups@[j]).0@ != key@,
        },
{
    let n = groups.len();
    let mut j: usize = 0;
    while j < n
        invariant
            n == groups@.len(),
            j <= n,
            forall|k: int| 0 <= k < j ==> (#[trigger] groups@[k]).0@ != key@,
        decreases n - j,
    {
        if str_eq(groups[j].0.as_str(), key) {
            return Some(j);
        }
        j += 1;
    }
    None
}

/// Group the items by key, groups in order of first occurrence and items
/// in their input order.
pub fn group_by_key<T>(items: Vec<T>, keys: &Vec<String>) -> (r: Vec<(String, Vec<T>)>)
    requires
        items@.len() == keys@.len(),
    ensures
        r@.len() == distinct_keys(strings_view(keys@)).len(),
        forall|g: int| 0 <= g < r@.len() ==> (#[trigger] r@[g]).0@ == distinct_keys(strings_view(keys@))[g]
            && r@[g].1@ == with_key(items@, strings_view(keys@), r@[g].0@),
{
    let ghost all = items@;
    let ghost kv = strings_view(keys@);
    let mut rest = items;
    let mut groups: Vec<(String, Vec<T>)> = Vec::new();
    let n = keys.len();
    let mut i: usize = 0;
    while i < n
        invariant
            n == keys@.len(),
            n == all.len(),
            kv == strings_view(keys@),
            i <= n,
            rest@ == all.skip(i as int),
            groups@.len() == distinct_keys(kv.take(i as int)).len(),
            forall|g: int| 0 <= g < groups@.len() ==> (#[trigger] groups@[g]).0@ == distinct_keys(kv.take(i as int))[g]
                && groups@[g].1@ == with_key(all.take(i as int), kv.take(i as int), groups@[g].0@),
        decreases n - i,
    {
        let item = rest.remove(0);
        let ghost iv = item;
        let key = keys[i].as_str();
        let ghost t0 = kv.take(i as int);
        let ghost t1 = kv.take(i + 1);
        let ghost a0 = all.take(i as int);
        let ghost a1 = all.take(i + 1);
        proof {
            assert(t1.drop_last() == t0);
            assert(t1.last() == key@);
            assert(a1.drop_last() == a0);
            assert(a1.last() == iv);
            assert(rest@ == all.skip(i + 1));
        }
        let ghost old_groups = groups@;
        match position_of(&groups, key) {
            Some(p) => {
                let (name, mut members) = groups.remove(p);
                members.push(item);
                groups.insert(p, (name, members));
                proof {
                    lemma_distinct_keys_contains(t0, key@);
                    assert(distinct_keys(t0)[p as int] == key@);
                    assert(distinct_keys(t0).contains(key@));
                    assert(distinct_keys(t1) == distinct_keys(t0));
                    assert forall|g: int| 0 <= g < groups@.len() implies (#[trigger] groups@[g]).0@ == distinct_keys(t1)[g]
                        && groups@[g].1@ == with_key(a1, t1, groups@[g].0@) by {
                        if g == p {
                            assert(groups@[g].1@ == old_groups[g].1@.push(iv));
                        } else {
                            assert(groups@[g] == old_groups[g]);
                            lemma_distinct_keys_distinct(t0);
                        }
                    }
                }
            },
            None => {
                let name = string_of(key);
                let mut members: Vec<T> = Vec::new();
                members.push(item);
                groups.push((name, members));
                proof {
                    assert forall|j: int| 0 <= j < distinct_keys(t0).len() implies distinct_keys(t0)[j] != key@ by {
                        assert(old_groups[j].0@ == distinct_keys(t0)[j]);
                    }
                    assert(!distinct_keys(t0).contains(key@));
                    lemma_distinct_keys_contains(t0, key@);
                    lemma_with_key_absent(a0, t0, key@);
                    assert(distinct_keys(t1) == distinct_keys(t0).push(key@));
                    assert forall|g: int| 0 <= g < groups@.len() implies (#[trigger] groups@[g]).0@ == distinct_keys(t1)[g]
                        && groups@[g].1@ == with_key(a1, t1, groups@[g].0@) by {
                        if g < old_groups.len() {
                            assert(groups@[g] == old_groups[g]);
                            assert(old_groups[g].0@ != key@);
                        } else {
                            assert(groups@[g].1@ == seq![iv]);
                            assert(with_key(a1, t1, key@) == Seq::<T>::empty().push(iv));
                        }
                    }
                }
            },
        }
        i += 1;
    }
    assert(kv.take(n as int) == kv);
    assert(all.take(n as int) == all);
    groups
}

/// The number of items in the groups named `names`.
pub open spec fn total_size<T>(items: Seq<T>, keys: Seq<Seq<char>>, names: Seq<Seq<char>>) -> nat
    decreases names.len(),
{
    if names.len() == 0 {
        0
    } else {
        total_size(items, keys, names.drop_last()) + with_key(items, keys, names.last()).len()
    }
}

proof fn lemma_total_size_push<T>(items: Seq<T>, keys: Seq<Seq<char>>, x: T, k: Seq<char>, names: Seq<Seq<char>>)
    requires
        items.len() == keys.len(),
        forall|a: int, b: int| 0 <= a < b < names.len() ==> names[a] != names[b],
    ensures
        total_size(items.push(x), keys.push(k), names) == total_size(items, keys, names) + (if names.contains(k) {
            1nat
        } else {
            0nat
        }),
    decreases names.len(),
{
    if names.len() > 0 {
        let rest = names.drop_last();
        let g = names.last();
        lemma_total_size_push(items, keys, x, k, rest);
        assert(items.push(x).drop_last() == items);
        assert(keys.push(k).drop_last() == keys);
        if rest.contains(k) {
            let i = choose|i: int| 0 <= i < rest.len() && rest[i] == k;
            assert(names[i] == k);
            assert(g != k) by {
                assert(names[names.len() - 1] == g);
            }
            assert(names.contains(k));
        } else if g == k {
            assert(names[names.len() - 1] == k);
            assert(names.contains(k));
        } else {
            if names.contains(k) {
                let i = choose|i: int| 0 <= i < names.len() && names[i] == k;
                assert(rest[i] == k);
            }
        }
    }
}

/// Grouping keeps every item once: the groups, one per distinct key, hold
/// as many items as there were.
pub proof fn law_grouping_keeps_every_item<T>(items: Seq<T>, keys: Seq<Seq<char>>)
    requires
        items.len() == keys.len(),
    ensures
        total_size(items, keys, distinct_keys(keys)) == items.len(),
    decreases items.len(),
{
    if items.len() > 0 {
        let i0 = items.drop_last();
        let k0 = keys.drop_last();
        let x = items.last();
        let k = keys.last();
        law_grouping_keeps_every_item(i0, k0);
        lemma_distinct_keys_distinct(k0);
        lemma_total_size_push(i0, k0, x, k, distinct_keys(k0));
        assert(i0.push(x) == items);
        assert(k0.push(k) == keys);
        let d0 = distinct_keys(k0);
        if !d0.contains(k) {
            lemma_distinct_keys_contains(k0, k);
            lemma_with_key_absent(i0, k0, k);
            assert(d0.push(k).drop_last() == d0);
        }
    }
}

pub open spec fn file_keys(files: Seq<FileEntry>, grouping: ListGrouping) -> Seq<Seq<char>> {
    files.map_values(|f: FileEntry| group_key_spec(grouping, f.path@, f.status@))
}

pub open spec fn summary_keys(files: Seq<FileSummary>, grouping: ListGrouping) -> Seq<Seq<char>> {
    files.map_values(|f: FileSummary| group_key_spec(grouping, f.path@, f.status@))
}

proof fn lemma_file_members_keyed(files: Seq<FileEntry>, grouping: ListGrouping, name: Seq<char>)
    ensures
        forall|j: int| 0 <= j < with_key(files, file_keys(files, grouping), name).len() ==> group_key_spec(
            grouping,
            (#[trigger] with_key(files, file_keys(files, grouping), name)[j]).path@,
            with_key(files, file_keys(files, grouping), name)[j].status@,
        ) == name,
    decreases files.len(),
{
    if files.len() > 0 {
        assert(file_keys(files, grouping).drop_last() =~= file_keys(files.drop_last(), grouping));
        lemma_file_members_keyed(files.drop_last(), grouping, name);
    }
}

proof fn lemma_summary_members_keyed(files: Seq<FileSummary>, grouping: ListGrouping, name: Seq<char>)
    ensures
        forall|j: int| 0 <= j < with_key(files, summary_keys(files, grouping), name).len() ==> group_key_spec(
            grouping,
            (#[trigger] with_key(files, summary_keys(files, grouping), name)[j]).path@,
            with_key(files, summary_keys(files, grouping), name)[j].status@,
        ) == name,
    decreases files.len(),
{
    if files.len() > 0 {
        assert(summary_keys(files, grouping).drop_last() =~= summary_keys(files.drop_last(), grouping));
        lemma_summary_members_keyed(files.drop_last(), grouping, name);
    }
}

/// Every file in a group is there for the group's name: grouping by
/// directory puts a file under its directory, by extension under its
/// extension (or `<no-ext>`), by status under its status. So files with
/// different extensions (directories, statuses) never share a group.
pub proof fn law_groups_share_their_key(files: Seq<FileEntry>, grouping: ListGrouping, name: Seq<char>, j: int)
    requires
        0 <= j < with_key(files, file_keys(files, grouping), name).len(),
    ensures
        ({
            let f = with_key(files, file_keys(files, grouping), name)[j];
            &&& grouping == ListGrouping::Directory ==> directory_group_spec(f.path@) == name
            &&& grouping == ListGrouping::Extension ==> extension_group_spec(f.path@) == name
            &&& grouping == ListGrouping::Status ==> f.status@ == name
        }),
{
    lemma_file_members_keyed(files, grouping, name);
}

/// The same for a listing of files only.
pub proof fn law_summary_groups_share_their_key(files: Seq<FileSummary>, grouping: ListGrouping, name: Seq<char>, j: int)
    requires
        0 <= j < with_key(files, summary_keys(files, grouping), name).len(),
    ensures
        ({
            let f = with_key(files, summary_keys(files, grouping), name)[j];
            &&& grouping == ListGrouping::Directory ==> directory_group_spec(f.path@) == name
            &&& grouping == ListGrouping::Extension ==> extension_group_spec(f.path@) == name
            &&& grouping == ListGrouping::Status ==> f.status@ == name
        }),
{
    lemma_summary_members_keyed(files, grouping, name);
}

/// Group the files of a listing, groups in order of first occurrence.
pub fn group_files(files: Vec<FileEntry>, grouping: ListGrouping) -> (r: Vec<ListGroup>)
    ensures
        r@.len() == distinct_keys(file_keys(files@, grouping)).len(),
        forall|g: int| 0 <= g < r@.len() ==> (#[trigger] r@[g]).name@ == distinct_keys(file_keys(files@, grouping))[g]
            && r@[g].files@ == with_key(files@, file_keys(files@, grouping), r@[g].name@),
{
    let ghost kv = file_keys(files@, grouping);
    let n = files.len();
    let mut keys: Vec<String> = Vec::new();
    let mut i: usize = 0;
    while i < n
        invariant
            n == files@.len(),
            i <= n,
            kv == file_keys(files@, grouping),
            strings_view(keys@) == kv.take(i as int),
        decreases n - i,
    {
        let k = group_key(grouping, files[i].path.as_str(), files[i].status.as_str());
        let ghost old_keys = keys@;
        let ghost kview = k@;
        keys.push(k);
        assert(strings_view(keys@) =~= strings_view(old_keys).push(kview));
        assert(kv.take(i + 1) =~= kv.take(i as int).push(kv[i as int]));
        i += 1;
    }
    assert(kv.take(n as int) == kv);
    let mut pairs = group_by_key(files, &keys);
    let ghost pv = pairs@;
    let m = pairs.len();
    let mut out: Vec<ListGroup> = Vec::new();
    let mut j: usize = 0;
    while j < m
        invariant
            m == pv.len(),
            j <= m,
            pairs@ == pv.skip(j as int),
            out@.len() == j,
            forall|g: int| 0 <= g < j ==> (#[trigger] out@[g]).name == pv[g].0 && out@[g].files == pv[g].1,
        decreases m - j,
    {
        let (name, members) = pairs.remove(0);
        assert(pairs@ == pv.skip(j + 1));
        out.push(ListGroup { name, files: members });
        j += 1;
    }
    out
}

/// Group the file summaries, groups in order of first occurrence.
pub fn group_summaries(files: Vec<FileSummary>, grouping: ListGrouping) -> (r: Vec<ListSummaryGroup>)
    ensures
        r@.len() == distinct_keys(summary_keys(files@, grouping)).len(),
        forall|g: int| 0 <= g < r@.len() ==> (#[trigger] r@[g]).name@ == distinct_keys(summary_keys(files@, grouping))[g]
            && r@[g].files@ == with_key(files@, summary_keys(files@, grouping), r@[g].name@),
{
    let ghost kv = summary_keys(files@, grouping);
    let n = files.len();
    let mut keys: Vec<String> = Vec::new();
    let mut i: usize = 0;
    while i < n
        invariant
            n == files@.len(),
            i <= n,
            kv == summary_keys(files@, grouping),
            strings_view(keys@) == kv.take(i as int),
        decreases n - i,
    {
        let k = group_key(grouping, files[i].path.as_str(), files[i].status.as_str());
        let ghost old_keys = keys@;
        let ghost kview = k@;
        keys.push(k);
        assert(strings_view(keys@) =~= strings_view(old_keys).push(kview));
        assert(kv.take(i + 1) =~= kv.take(i as int).push(kv[i as int]));
        i += 1;
    }
    assert(kv.take(n as int) == kv);
    let mut pairs = group_by_key(files, &keys);
    let ghost pv = pairs@;
    let m = pairs.len();
    let mut out: Vec<ListSummaryGroup> = Vec::new();
    let mut j: usize = 0;
    while j < m
        invariant
            m == pv.len(),
            j <= m,
            pairs@ == pv.skip(j as int),
            out@.len() == j,
            forall|g: int| 0 <= g < j ==> (#[trigger] out@[g]).name == pv[g].0 && out@[g].files == pv[g].1,
        decreases m - j,
    {
        let (name, members) = pairs.remove(0);
        assert(pairs@ == pv.skip(j + 1));
        out.push(ListSummaryGroup { name, files: members });
        j += 1;
    }
    out
}

/// The summary of a listed file: everything but its hunks, which it counts.
pub open spec fn summary_of(f: FileEntry) -> FileSummary {
    FileSummary {
        path: f.path,
        status: f.status,
        rename: f.rename,
        hunk_count: f.hunks@.len() as usize,
        binary: f.binary,
        truncated: f.truncated,
    }
}

pub open spec fn summaries_of(files: Seq<FileEntry>) -> Seq<FileSummary> {
    files.map_values(|f: FileEntry| summary_of(f))
}

/// `gs` groups the summaries `sums` by key, in order of first occurrence.
pub open spec fn summary_groups_ok(gs: Seq<ListSummaryGroup>, sums: Seq<FileSummary>, grouping: ListGrouping) -> bool {
    &&& gs.len() == distinct_keys(summary_keys(sums, grouping)).len()
    &&& forall|g: int| 0 <= g < gs.len() ==> (#[trigger] gs[g]).name@ == distinct_keys(summary_keys(sums, grouping))[g]
        && gs[g].files@ == with_key(sums, summary_keys(sums, grouping), gs[g].name@)
}

/// A listing of files only: one summary per file, grouped unless the
/// grouping is `Ungrouped`.
pub fn build_summary_output(files: Vec<FileEntry>, grouping: ListGrouping) -> (r: ListSummaryOutput)
    ensures
        ({
            let sums = summaries_of(files@);
            &&& grouping == ListGrouping::Ungrouped ==> (r.files matches Some(v) && v@ == sums)
            &&& grouping == ListGrouping::Ungrouped ==> r.groups is None
            &&& grouping != ListGrouping::Ungrouped ==> r.files is None
            &&& grouping != ListGrouping::Ungrouped ==> (r.groups matches Some(gs) && summary_groups_ok(gs@, sums, grouping))
        }),
{
    let ghost fv = files@;
    let mut rest = files;
    let n = rest.len();
    let mut sums: Vec<FileSummary> = Vec::new();
    let mut i: usize = 0;
    while i < n
        invariant
            n == fv.len(),
            i <= n,
            rest@ == fv.skip(i as int),
            sums@ == summaries_of(fv).take(i as int),
        decreases n - i,
    {
        let file = rest.remove(0);
        assert(rest@ == fv.skip(i + 1));
        let hunk_count = file.hunks.len();
        let ghost f = file;
        let FileEntry { path, status, rename, hunks, binary, truncated } = file;
        sums.push(FileSummary { path, status, rename, hunk_count, binary, truncated });
        assert(sums@ =~= summaries_of(fv).take(i + 1));
        i += 1;
    }
    assert(summaries_of(fv).take(n as int) == summaries_of(fv));
    if grouping == ListGrouping::Ungrouped {
        ListSummaryOutput { files: Some(sums), groups: None }
    } else {
        let groups = group_summaries(sums, grouping);
        ListSummaryOutput { files: None, groups: Some(groups) }
    }
}

/// What a spec template says about one file.
#[derive(Debug)]
pub enum SpecTemplateEntry {
    Ids { ids: Vec<String> },
    Action { action: String },
}

/// A spec that keeps every listed hunk, by id, and resets all else.
#[derive(Debug)]
pub struct SpecTemplateOutput {
    /// Per file, in listing order.
    pub files: Vec<(String, SpecTemplateEntry)>,
    pub default: String,
}

pub open spec fn hunk_id_list(hunks: Seq<Hunk>) -> Seq<Seq<char>> {
    hunks.map_values(|h: Hunk| h.id@)
}

/// The template entry for one file: its hunk ids, or `keep` for a binary
/// file without hunks; none for another file without hunks.
pub open spec fn template_entry_ok(f: FileEntry, e: (String, SpecTemplateEntry)) -> bool {
    &&& e.0@ == f.path@
    &&& if f.hunks@.len() == 0 {
        e.1 matches SpecTemplateEntry::Action { action } && action@ == "keep"@
    } else {
        e.1 matches SpecTemplateEntry::Ids { ids } && strings_view(ids@) == hunk_id_list(f.hunks@)
    }
}

pub open spec fn in_template(f: FileEntry) -> bool {
    f.hunks@.len() > 0 || f.binary == Some(true)
}

/// The files that get a template entry, in order.
pub open spec fn template_files(files: Seq<FileEntry>) -> Seq<FileEntry> {
    files.filter(|f: FileEntry| in_template(f))
}

/// A spec template, read back as a spec, keeps the hunks it lists: the ids
/// of a file's entry, once read (each normalized), select every hunk of the
/// file whose id is already in normal form.
pub proof fn law_template_keeps_listed_hunks(f: FileEntry, e: (String, SpecTemplateEntry), read: Seq<String>,
    sel: HunkSelection, h: int)
    requires
        template_entry_ok(f, e),
        e.1 matches SpecTemplateEntry::Ids { ids } && read.len() == ids@.len() && forall|i: int|
            0 <= i < read.len() ==> normalized_hunk_id(trim((#[trigger] ids@[i])@)) == Some(read[i]@),
        sel.ids@ == selector_ids(Seq::empty(), read),
        0 <= h < f.hunks@.len(),
        normalized_hunk_id(trim(f.hunks@[h].id@)) == Some(f.hunks@[h].id@),
    ensures
        keeps(sel, f.hunks@[h]),
{
    if let SpecTemplateEntry::Ids { ids } = e.1 {
        assert(f.hunks@.len() > 0);
        assert(strings_view(ids@) == hunk_id_list(f.hunks@));
        assert(strings_view(ids@).len() == ids@.len());
        assert(strings_view(ids@)[h] == ids@[h]@);
        assert(hunk_id_list(f.hunks@)[h] == f.hunks@[h].id@);
        assert(read[h]@ == f.hunks@[h].id@);
    }
}

fn hunk_ids_of(hunks: &Vec<Hunk>) -> (r: Vec<String>)
    ensures
        strings_view(r@) == hunk_id_list(hunks@),
{
    let mut r: Vec<String> = Vec::new();
    let n = hunks.len();
    let mut i: usize = 0;
    while i < n
        invariant
            n == hunks@.len(),
            i <= n,
            strings_view(r@) == hunk_id_list(hunks@).take(i as int),
        decreases n - i,
    {
        let ghost old_r = r@;
        let id = hunks[i].id.clone();
        let ghost idv = id@;
        r.push(id);
        assert(strings_view(r@) =~= strings_view(old_r).push(idv));
        assert(hunk_id_list(hunks@).take(i + 1) =~= hunk_id_list(hunks@).take(i as int).push(hunk_id_list(hunks@)[i as int]));
        i += 1;
    }
    assert(hunk_id_list(hunks@).take(n as int) == hunk_id_list(hunks@));
    r
}

/// The paths of the files, in order.
pub open spec fn file_paths(fs: Seq<FileEntry>) -> Seq<Seq<char>> {
    fs.map_values(|f: FileEntry| f.path@)
}

proof fn lemma_with_key_paths(items: Seq<FileEntry>, name: Seq<char>)
    ensures
        forall|j: int| 0 <= j < with_key(items, file_paths(items), name).len()
            ==> (#[trigger] with_key(items, file_paths(items), name)[j]).path@ == name,
    decreases items.len(),
{
    if items.len() > 0 {
        assert(file_paths(items).drop_last() =~= file_paths(items.drop_last()));
        lemma_with_key_paths(items.drop_last(), name);
    }
}

proof fn lemma_with_key_present<T>(items: Seq<T>, keys: Seq<Seq<char>>, name: Seq<char>)
    requires
        items.len() == keys.len(),
        keys.contains(name),
    ensures
        with_key(items, keys, name).len() > 0,
    decreases items.len(),
{
    if keys.last() != name {
        let i = choose|i: int| 0 <= i < keys.len() && keys[i] == name;
        assert(i != keys.len() - 1);
        assert(keys.drop_last()[i] == name);
        lemma_with_key_present(items.drop_last(), keys.drop_last(), name);
    }
}

proof fn lemma_with_key_entries(tf: Seq<FileEntry>, es: Seq<(String, SpecTemplateEntry)>, ks: Seq<Seq<char>>,
    name: Seq<char>)
    requires
        tf.len() == es.len(),
        tf.len() == ks.len(),
        forall|k: int| 0 <= k < tf.len() ==> template_entry_ok(#[trigger] tf[k], es[k]),
    ensures
        with_key(es, ks, name).len() == with_key(tf, ks, name).len(),
        forall|j: int| 0 <= j < with_key(tf, ks, name).len() ==> template_entry_ok(
            #[trigger] with_key(tf, ks, name)[j],
            with_key(es, ks, name)[j],
        ),
    decreases tf.len(),
{
    if tf.len() > 0 {
        assert forall|k: int| 0 <= k < tf.drop_last().len() implies template_entry_ok(
            #[trigger] tf.drop_last()[k],
            es.drop_last()[k],
        ) by {
            assert(tf.drop_last()[k] == tf[k]);
        }
        lemma_with_key_entries(tf.drop_last(), es.drop_last(), ks.drop_last(), name);
        assert(template_entry_ok(tf[tf.len() - 1], es[es.len() - 1]));
    }
}

/// A spec that keeps every listed hunk, by id, and resets all else: one
/// entry per path, in order of first listing, from the last listed file with
/// that path.
pub fn build_spec_template(files: Vec<FileEntry>) -> (r: SpecTemplateOutput)
    ensures
        ({
            let tf = template_files(files@);
            let names = distinct_keys(file_paths(tf));
            &&& r.default@ == "reset"@
            &&& r.files@.len() == names.len()
            &&& forall|g: int| 0 <= g < r.files@.len() ==> (#[trigger] r.files@[g]).0@ == names[g]
                && template_entry_ok(with_key(tf, file_paths(tf), names[g]).last(), r.files@[g])
        }),
{
    let ghost fv = files@;
    let ghost pred = |f: FileEntry| in_template(f);
    let mut rest = files;
    let n = rest.len();
    let mut entries: Vec<(String, SpecTemplateEntry)> = Vec::new();
    let mut keys: Vec<String> = Vec::new();
    let mut i: usize = 0;
    while i < n
        invariant
            n == fv.len(),
            i <= n,
            rest@ == fv.skip(i as int),
            pred == (|f: FileEntry| in_template(f)),
            entries@.len() == fv.take(i as int).filter(pred).len(),
            strings_view(keys@) == file_paths(fv.take(i as int).filter(pred)),
            forall|k: int| 0 <= k < entries@.len() ==> template_entry_ok(fv.take(i as int).filter(pred)[k], #[trigger] entries@[k]),
        decreases n - i,
    {
        let file = rest.remove(0);
        let ghost f = file;
        assert(rest@ == fv.skip(i + 1));
        assert(fv.take(i + 1) == fv.take(i as int).push(f));
        proof {
            fv.take(i as int).lemma_filter_push(f, pred);
        }
        let ghost before = fv.take(i as int).filter(pred);
        let ghost old_keys = keys@;
        if file.hunks.len() == 0 {
            if file.binary == Some(true) {
                let key = file.path.clone();
                let ghost kv = key@;
                keys.push(key);
                assert(strings_view(keys@) =~= strings_view(old_keys).push(kv));
                assert(file_paths(before.push(f)) =~= file_paths(before).push(f.path@));
                entries.push((file.path, SpecTemplateEntry::Action { action: string_of("keep") }));
                assert(fv.take(i + 1).filter(pred) == before.push(f));
            }
        } else {
            let ids = hunk_ids_of(&file.hunks);
            let key = file.path.clone();
            let ghost kv = key@;
            keys.push(key);
            assert(strings_view(keys@) =~= strings_view(old_keys).push(kv));
            assert(file_paths(before.push(f)) =~= file_paths(before).push(f.path@));
            entries.push((file.path, SpecTemplateEntry::Ids { ids }));
            assert(fv.take(i + 1).filter(pred) == before.push(f));
        }
        i += 1;
    }
    assert(fv.take(n as int) == fv);
    let ghost tf = template_files(fv);
    let ghost ev = entries@;
    let ghost names = distinct_keys(file_paths(tf));
    let mut groups = group_by_key(entries, &keys);
    let ghost gv = groups@;
    let m = groups.len();
    let mut out: Vec<(String, SpecTemplateEntry)> = Vec::new();
    let mut j: usize = 0;
    while j < m
        invariant
            m == gv.len(),
            j <= m,
            groups@ == gv.skip(j as int),
            tf == template_files(fv),
            names == distinct_keys(file_paths(tf)),
            gv.len() == names.len(),
            forall|g: int| 0 <= g < gv.len() ==> (#[trigger] gv[g]).0@ == names[g] && gv[g].1@ == with_key(ev,
                file_paths(tf), gv[g].0@),
            tf.len() == ev.len(),
            forall|k: int| 0 <= k < tf.len() ==> template_entry_ok(#[trigger] tf[k], ev[k]),
            out@.len() == j,
            forall|g: int| 0 <= g < j ==> (#[trigger] out@[g]).0@ == names[g]
                && template_entry_ok(with_key(tf, file_paths(tf), names[g]).last(), out@[g]),
        decreases m - j,
    {
        let (name, mut members) = groups.remove(0);
        assert(groups@ == gv.skip(j + 1));
        let ghost nm = names[j as int];
        proof {
            assert(gv[j as int].0@ == nm);
            lemma_distinct_keys_contains(file_paths(tf), nm);
            assert(names.contains(nm)) by {
                assert(names[j as int] == nm);
            }
            assert(file_paths(tf).len() == tf.len());
            lemma_with_key_present(tf, file_paths(tf), nm);
            lemma_with_key_entries(tf, ev, file_paths(tf), nm);
            lemma_with_key_paths(tf, nm);
        }
        let last = members.pop();
        match last {
            Some((_, entry)) => {
                proof {
                    let w = with_key(tf, file_paths(tf), nm);
                    assert(template_entry_ok(w[w.len() - 1], with_key(ev, file_paths(tf), nm)[w.len() - 1]));
                    assert(w[w.len() - 1].path@ == nm);
                }
                out.push((name, entry));
            },
            None => {
                proof {
                    assert(false);
                }
            },
        }
        j += 1;
    }
    SpecTemplateOutput { files: out, default: string_of("reset") }
}

// ---------------------------------------------------------------------------
// Text rendering
// ---------------------------------------------------------------------------

pub open spec fn strip_cr(x: Seq<char>) -> Seq<char> {
    if x.len() > 0 && x.last() == '\r' {
        x.drop_last()
    } else {
        x
    }
}

/// `str::lines` from `s` on, with `cur` the line read so far.
pub open spec fn lines_from(s: Seq<char>, cur: Seq<char>) -> Seq<Seq<char>>
    decreases s.len(),
{
    if s.len() == 0 {
        if cur.len() > 0 {
            seq![cur]
        } else {
            Seq::empty()
        }
    } else if s[0] == '\n' {
        seq![strip_cr(cur)] + lines_from(s.drop_first(), Seq::empty())
    } else {
        lines_from(s.drop_first(), cur.push(s[0]))
    }
}

/// `str::lines`: the lines of `s` without their line endings.
pub open spec fn text_lines(s: Seq<char>) -> Seq<Seq<char>> {
    lines_from(s, Seq::empty())
}

/// Each line with `prefix` in front.
pub open spec fn prefixed(lines: Seq<Seq<char>>, prefix: Seq<char>) -> Seq<Seq<char>> {
    lines.map_values(|l: Seq<char>| prefix + l)
}

pub open spec fn hunk_line(h: Hunk) -> Seq<char> {
    "  hunk "@ + decimal(h.index as nat) + " "@ + h.hunk_type@ + " "@ + h.id@ + " (before "@
        + decimal(h.before_range.start as nat) + "+"@ + decimal(h.before_range.length as nat)
        + " after "@ + decimal(h.after_range.start as nat) + "+"@ + decimal(
        h.after_range.length as nat,
    ) + ")"@
}

/// A hunk as text: its header line, then its removed and added lines.
pub open spec fn hunk_lines(h: Hunk) -> Seq<Seq<char>> {
    seq![hunk_line(h)] + prefixed(text_lines(h.removed@), "    - "@) + prefixed(
        text_lines(h.added@),
        "    + "@,
    )
}

pub open spec fn hunks_lines(hs: Seq<Hunk>) -> Seq<Seq<char>>
    decreases hs.len(),
{
    if hs.len() == 0 {
        Seq::empty()
    } else {
        hunks_lines(hs.drop_last()) + hunk_lines(hs.last())
    }
}

/// The marks after a file's path: its rename, then `[binary]` and
/// `[truncated]` when they apply.
pub open spec fn file_marks(rename: Option<RenameInfo>, binary: Option<bool>, truncated: Option<bool>) -> Seq<char> {
    let r = match rename {
        Some(info) => " ("@ + info.from@ + " -> "@ + info.to@ + ")"@,
        None => Seq::empty(),
    };
    let b = if binary == Some(true) { " [binary]"@ } else { Seq::empty() };
    let t = if truncated == Some(true) { " [truncated]"@ } else { Seq::empty() };
    r + b + t
}

pub open spec fn file_header(f: FileEntry) -> Seq<char> {
    status_letter(f.status@) + " "@ + f.path@ + file_marks(f.rename, f.binary, f.truncated)
}

pub open spec fn file_lines(f: FileEntry) -> Seq<Seq<char>> {
    seq![file_header(f)] + hunks_lines(f.hunks@)
}

pub open spec fn files_lines(fs: Seq<FileEntry>) -> Seq<Seq<char>>
    decreases fs.len(),
{
    if fs.len() == 0 {
        Seq::empty()
    } else {
        files_lines(fs.drop_last()) + file_lines(fs.last())
    }
}

pub open spec fn summary_line(f: FileSummary) -> Seq<char> {
    status_letter(f.status@) + " "@ + f.path@ + " ("@ + decimal(f.hunk_count as nat) + " hunks)"@
        + file_marks(f.rename, f.binary, f.truncated)
}

pub open spec fn summaries_lines(fs: Seq<FileSummary>) -> Seq<Seq<char>> {
    fs.map_values(|f: FileSummary| summary_line(f))
}

/// How a group is titled: `<root>` for the top directory or an empty name.
pub open spec fn group_title(name: Seq<char>) -> Seq<char> {
    if name == "."@ || name.len() == 0 {
        "<root>"@ + ":"@
    } else {
        name + ":"@
    }
}

/// The groups as lines: each group's title and files, groups separated by
/// an empty line.
pub open spec fn groups_lines(gs: Seq<ListGroup>) -> Seq<Seq<char>>
    decreases gs.len(),
{
    if gs.len() == 0 {
        Seq::empty()
    } else {
        let block = seq![group_title(gs.last().name@)] + files_lines(gs.last().files@);
        if gs.len() == 1 {
            block
        } else {
            groups_lines(gs.drop_last()) + seq![Seq::empty()] + block
        }
    }
}

pub open spec fn summary_groups_lines(gs: Seq<ListSummaryGroup>) -> Seq<Seq<char>>
    decreases gs.len(),
{
    if gs.len() == 0 {
        Seq::empty()
    } else {
        let block = seq![group_title(gs.last().name@)] + summaries_lines(gs.last().files@);
        if gs.len() == 1 {
            block
        } else {
            summary_groups_lines(gs.drop_last()) + seq![Seq::empty()] + block
        }
    }
}

/// The lines, each followed by a newline.
pub open spec fn joined_lines(ls: Seq<Seq<char>>) -> Seq<char>
    decreases ls.len(),
{
    if ls.len() == 0 {
        Seq::empty()
    } else {
        joined_lines(ls.drop_last()) + ls.last() + "\n"@
    }
}

pub open spec fn output_lines(o: ListOutput) -> Seq<Seq<char>> {
    match o.groups {
        Some(gs) => groups_lines(gs@),
        None => match o.files {
            Some(fs) => files_lines(fs@),
            None => Seq::empty(),
        },
    }
}

pub open spec fn summary_output_lines(o: ListSummaryOutput) -> Seq<Seq<char>> {
    match o.groups {
        Some(gs) => summary_groups_lines(gs@),
        None => match o.files {
            Some(fs) => summaries_lines(fs@),
            None => Seq::empty(),
        },
    }
}

proof fn lemma_lines_from_step(s: Seq<char>, cur: Seq<char>)
    requires
        s.len() > 0,
    ensures
        lines_from(s, cur) == if s[0] == '\n' {
            seq![strip_cr(cur)] + lines_from(s.drop_first(), Seq::empty())
        } else {
            lines_from(s.drop_first(), cur.push(s[0]))
        },
{
}

/// Append the lines of `text` to `out`, each after `prefix`.
fn push_text_lines(out: &mut Vec<String>, text: &str, prefix: &str)
    ensures
        strings_view(final(out)@) == strings_view(old(out)@) + prefixed(text_lines(text@), prefix@),
{
    let v = chars_of(text);
    let n = v.len();
    let mut cur: Vec<char> = Vec::new();
    let mut i: usize = 0;
    assert(v@.skip(0) == v@);
    while i < n
        invariant
            n == v@.len(),
            i <= n,
            strings_view(out@) + prefixed(lines_from(v@.skip(i as int), cur@), prefix@) == strings_view(old(out)@)
                + prefixed(text_lines(text@), prefix@),
            v@ == text@,
        decreases n - i,
    {
        let ghost rest = v@.skip(i as int);
        proof {
            lemma_lines_from_step(rest, cur@);
            assert(rest.drop_first() == v@.skip(i + 1));
            assert(rest[0] == v[i as int]);
        }
        if v[i] == '\n' {
            let ghost before = strings_view(out@);
            let ghost line = strip_cr(cur@);
            let mut end = cur.len();
            if end > 0 && cur[end - 1] == '\r' {
                end -= 1;
            }
            let body = string_from_chars(cur.as_slice(), 0, end);
            assert(body@ == line) by {
                if cur@.len() > 0 && cur@.last() == '\r' {
                    assert(cur@.subrange(0, end as int) == cur@.drop_last());
                } else {
                    assert(cur@.subrange(0, end as int) == cur@);
                }
            }
            let mut l = string_of(prefix);
            push_str(&mut l, body.as_str());
            out.push(l);
            proof {
                let tail = lines_from(v@.skip(i + 1), Seq::empty());
                assert(strings_view(out@) =~= before.push(prefix@ + line));
                assert(prefixed(seq![line] + tail, prefix@) =~= seq![prefix@ + line] + prefixed(tail, prefix@));
                assert(before.push(prefix@ + line) + prefixed(tail, prefix@) =~= before + (seq![prefix@ + line] + prefixed(tail, prefix@)));
            }
            cur = Vec::new();
        } else {
            cur.push(v[i]);
        }
        i += 1;
    }
    assert(v@.skip(n as int) =~= Seq::<char>::empty());
    if cur.len() > 0 {
        let ghost before = strings_view(out@);
        let ghost line = cur@;
        let body = string_from_chars(cur.as_slice(), 0, cur.len());
        assert(cur@.subrange(0, cur@.len() as int) == cur@);
        let mut l = string_of(prefix);
        push_str(&mut l, body.as_str());
        out.push(l);
        assert(strings_view(out@) =~= before.push(prefix@ + line));
        assert(prefixed(seq![line], prefix@) =~= seq![prefix@ + line]);
        assert(before + seq![prefix@ + line] =~= before.push(prefix@ + line));
    } else {
        assert(prefixed(Seq::<Seq<char>>::empty(), prefix@) =~= Seq::<Seq<char>>::empty());
        assert(strings_view(out@) + Seq::<Seq<char>>::empty() =~= strings_view(out@));
    }
}

fn push_decimal(s: &mut String, n: usize)
    ensures
        final(s)@ == old(s)@ + decimal(n as nat),
{
    let d = decimal_string(n);
    push_str(s, d.as_str());
}

fn hunk_header(h: &Hunk) -> (r: String)
    ensures
        r@ == hunk_line(*h),
{
    let mut r = string_of("  hunk ");
    push_decimal(&mut r, h.index);
    push_str(&mut r, " ");
    push_str(&mut r, h.hunk_type.as_str());
    push_str(&mut r, " ");
    push_str(&mut r, h.id.as_str());
    push_str(&mut r, " (before ");
    push_decimal(&mut r, h.before_range.start);
    push_str(&mut r, "+");
    push_decimal(&mut r, h.before_range.length);
    push_str(&mut r, " after ");
    push_decimal(&mut r, h.after_range.start);
    push_str(&mut r, "+");
    push_decimal(&mut r, h.after_range.length);
    push_str(&mut r, ")");
    r
}

fn push_marks(s: &mut String, rename: &Option<RenameInfo>, binary: Option<bool>, truncated: Option<bool>)
    ensures
        final(s)@ == old(s)@ + file_marks(*rename, binary, truncated),
{
    match rename {
        Some(info) => {
            push_str(s, " (");
            push_str(s, info.from.as_str());
            push_str(s, " -> ");
            push_str(s, info.to.as_str());
            push_str(s, ")");
        },
        None => {},
    }
    if binary == Some(true) {
        push_str(s, " [binary]");
    }
    if truncated == Some(true) {
        push_str(s, " [truncated]");
    }
}

pub fn format_file_header(file: &FileEntry) -> (r: String)
    ensures
        r@ == file_header(*file),
{
    let mut r = string_of(status_char(file.status.as_str()));
    push_str(&mut r, " ");
    push_str(&mut r, file.path.as_str());
    push_marks(&mut r, &file.rename, file.binary, file.truncated);
    r
}

/// Append the lines of the files: each file's header, then its hunks.
pub fn format_files_text(lines: &mut Vec<String>, files: &[FileEntry])
    ensures
        strings_view(final(lines)@) == strings_view(old(lines)@) + files_lines(files@),
{
    let n = files.len();
    let mut i: usize = 0;
    while i < n
        invariant
            n == files@.len(),
            i <= n,
            strings_view(lines@) == strings_view(old(lines)@) + files_lines(files@.take(i as int)),
        decreases n - i,
    {
        let file = &files[i];
        let ghost before = strings_view(lines@);
        lines.push(format_file_header(file));
        assert(strings_view(lines@) =~= before + seq![file_header(*file)]);
        let m = file.hunks.len();
        let mut k: usize = 0;
        while k < m
            invariant
                m == file.hunks@.len(),
                k <= m,
                strings_view(lines@) == before + seq![file_header(*file)] + hunks_lines(file.hunks@.take(k as int)),
            decreases m - k,
        {
            let h = &file.hunks[k];
            let ghost mid = strings_view(lines@);
            lines.push(hunk_header(h));
            assert(strings_view(lines@) =~= mid + seq![hunk_line(*h)]);
            push_text_lines(lines, h.removed.as_str(), "    - ");
            push_text_lines(lines, h.added.as_str(), "    + ");
            assert(file.hunks@.take(k + 1).drop_last() == file.hunks@.take(k as int));
            assert(strings_view(lines@) =~= mid + hunk_lines(*h));
            k += 1;
        }
        assert(file.hunks@.take(m as int) == file.hunks@);
        assert(files@.take(i + 1).drop_last() == files@.take(i as int));
        assert(strings_view(lines@) =~= strings_view(old(lines)@) + files_lines(files@.take(i + 1)));
        i += 1;
    }
    assert(files@.take(n as int) == files@);
}

fn summary_text(file: &FileSummary) -> (r: String)
    ensures
        r@ == summary_line(*file),
{
    let mut r = string_of(status_char(file.status.as_str()));
    push_str(&mut r, " ");
    push_str(&mut r, file.path.as_str());
    push_str(&mut r, " (");
    push_decimal(&mut r, file.hunk_count);
    push_str(&mut r, " hunks)");
    push_marks(&mut r, &file.rename, file.binary, file.truncated);
    r
}

/// Append one line per file summary.
pub fn format_summary_text(lines: &mut Vec<String>, files: &[FileSummary])
    ensures
        strings_view(final(lines)@) == strings_view(old(lines)@) + summaries_lines(files@),
{
    let n = files.len();
    let mut i: usize = 0;
    while i < n
        invariant
            n == files@.len(),
            i <= n,
            strings_view(lines@) == strings_view(old(lines)@) + summaries_lines(files@.take(i as int)),
        decreases n - i,
    {
        let ghost before = strings_view(lines@);
        lines.push(summary_text(&files[i]));
        assert(strings_view(lines@) =~= before.push(summary_line(files@[i as int])));
        assert(summaries_lines(files@.take(i + 1)) =~= summaries_lines(files@.take(i as int)).push(summary_line(files@[i as int])));
        i += 1;
    }
    assert(files@.take(n as int) == files@);
}

fn push_group_title(lines: &mut Vec<String>, name: &str)
    ensures
        strings_view(final(lines)@) == strings_view(old(lines)@).push(group_title(name@)),
{
    let mut t = if str_eq(name, ".") || name.is_empty() {
        string_of("<root>")
    } else {
        string_of(name)
    };
    push_str(&mut t, ":");
    let ghost before = strings_view(lines@);
    lines.push(t);
    assert(strings_view(lines@) =~= before.push(group_title(name@)));
}

/// Every line followed by a newline.
fn join_lines(lines: &Vec<String>) -> (r: String)
    ensures
        r@ == joined_lines(strings_view(lines@)),
{
    let mut r = String::new();
    let n = lines.len();
    let mut i: usize = 0;
    while i < n
        invariant
            n == lines@.len(),
            i <= n,
            r@ == joined_lines(strings_view(lines@).take(i as int)),
        decreases n - i,
    {
        push_str(&mut r, lines[i].as_str());
        push_str(&mut r, "\n");
        assert(strings_view(lines@).take(i + 1).drop_last() == strings_view(lines@).take(i as int));
        i += 1;
    }
    assert(strings_view(lines@).take(n as int) == strings_view(lines@));
    r
}

/// A listing as text: files with their hunks, or titled groups of them
/// separated by empty lines; every line ends with a newline.
pub fn render_text_output(output: &ListOutput) -> (r: String)
    ensures
        r@ == joined_lines(output_lines(*output)),
{
    let mut lines: Vec<String> = Vec::new();
    match &output.groups {
        Some(groups) => {
            let n = groups.len();
            let mut i: usize = 0;
            while i < n
                invariant
                    n == groups@.len(),
                    i <= n,
                    strings_view(lines@) == groups_lines(groups@.take(i as int)),
                decreases n - i,
            {
                let group = &groups[i];
                let ghost before = strings_view(lines@);
                if i > 0 {
                    lines.push(String::new());
                }
                push_group_title(&mut lines, group.name.as_str());
                format_files_text(&mut lines, group.files.as_slice());
                proof {
                    let t = groups@.take(i + 1);
                    assert(t.drop_last() == groups@.take(i as int));
                    assert(t.last() == *group);
                    let block = seq![group_title(group.name@)] + files_lines(group.files@);
                    if i == 0 {
                        assert(before == Seq::<Seq<char>>::empty());
                        assert(strings_view(lines@) =~= block);
                    } else {
                        assert(strings_view(lines@) =~= before + seq![Seq::<char>::empty()] + block);
                    }
                }
                i += 1;
            }
            assert(groups@.take(n as int) == groups@);
        },
        None => match &output.files {
            Some(files) => {
                format_files_text(&mut lines, files.as_slice());
                assert(strings_view(lines@) =~= files_lines(files@));
            },
            None => {
                assert(strings_view(lines@) =~= Seq::<Seq<char>>::empty());
            },
        },
    }
    join_lines(&lines)
}

/// A listing of file summaries as text, laid out as `render_text_output`
/// lays out files.
pub fn render_text_summary_output(output: &ListSummaryOutput) -> (r: String)
    ensures
        r@ == joined_lines(summary_output_lines(*output)),
{
    let mut lines: Vec<String> = Vec::new();
    match &output.groups {
        Some(groups) => {
            let n = groups.len();
            let mut i: usize = 0;
            while i < n
                invariant
                    n == groups@.len(),
                    i <= n,
                    strings_view(lines@) == summary_groups_lines(groups@.take(i as int)),
                decreases n - i,
            {
                let group = &groups[i];
                let ghost before = strings_view(lines@);
                if i > 0 {
                    lines.push(String::new());
                }
                push_group_title(&mut lines, group.name.as_str());
                format_summary_text(&mut lines, group.files.as_slice());
                proof {
                    let t = groups@.take(i + 1);
                    assert(t.drop_last() == groups@.take(i as int));
                    assert(t.last() == *group);
                    let block = seq![group_title(group.name@)] + summaries_lines(group.files@);
                    if i == 0 {
                        assert(before == Seq::<Seq<char>>::empty());
                        assert(strings_view(lines@) =~= block);
                    } else {
                        assert(strings_view(lines@) =~= before + seq![Seq::<char>::empty()] + block);
                    }
                }
                i += 1;
            }
            assert(groups@.take(n as int) == groups@);
        },
        None => match &output.files {
            Some(files) => {
                format_summary_text(&mut lines, files.as_slice());
                assert(strings_view(lines@) =~= summaries_lines(files@));
            },
            None => {
                assert(strings_view(lines@) =~= Seq::<Seq<char>>::empty());
            },
        },
    }
    join_lines(&lines)
}

// ---------------------------------------------------------------------------
// File contents
// ---------------------------------------------------------------------------

/// Calls `std::str::from_utf8`; the contract claims that it succeeds exactly
/// on the byte sequences that are valid UTF-8.
#[verifier::external_body]
fn is_valid_utf8(bytes: &[u8]) -> (b: bool)
    ensures
        b == valid_utf8(bytes@),
{
    std::str::from_utf8(bytes).is_ok()
}

/// Content counts as binary when it holds a NUL byte or is not valid UTF-8.
pub open spec fn is_binary_spec(bytes: Seq<u8>) -> bool {
    bytes.len() > 0 && (bytes.contains(0u8) || !valid_utf8(bytes))
}

pub fn is_binary_data(bytes: &[u8]) -> (b: bool)
    ensures
        b == is_binary_spec(bytes@),
{
    if bytes.len() == 0 {
        return false;
    }
    let n = bytes.len();
    let mut i: usize = 0;
    while i < n
        invariant
            n == bytes@.len(),
            i <= n,
            forall|k: int| 0 <= k < i ==> bytes@[k] != 0u8,
        decreases n - i,
    {
        if bytes[i] == 0 {
            assert(bytes@.contains(0u8)) by {
                assert(bytes@[i as int] == 0u8);
            }
            return true;
        }
        i += 1;
    }
    assert(!bytes@.contains(0u8));
    !is_valid_utf8(bytes)
}

/// The number of bytes `c` takes in UTF-8.
pub open spec fn utf8_width(c: char) -> nat {
    if (c as u32) <= 0x7F {
        1
    } else if (c as u32) <= 0x7FF {
        2
    } else if (c as u32) <= 0xFFFF {
        3
    } else {
        4
    }
}

/// The number of bytes `s` takes in UTF-8.
pub open spec fn utf8_len(s: Seq<char>) -> nat
    decreases s.len(),
{
    if s.len() == 0 {
        0
    } else {
        utf8_len(s.drop_last()) + utf8_width(s.last())
    }
}

/// The number of leading characters of `s` (from `i`) that fit in `budget`
/// bytes, counted from the start.
pub open spec fn fitting_from(s: Seq<char>, i: int, budget: int) -> int
    decreases s.len() - i,
{
    if i < 0 || i >= s.len() || utf8_width(s[i]) > budget {
        i
    } else {
        fitting_from(s, i + 1, budget - utf8_width(s[i]))
    }
}

/// Index just past the `m`-th newline of `s` at or after `i`, if there is one.
pub open spec fn line_cut(s: Seq<char>, i: int, m: nat) -> Option<int>
    decreases s.len() - i,
{
    if i < 0 || i >= s.len() || m == 0 {
        None
    } else if s[i] == '\n' {
        if m == 1 {
            Some(i + 1)
        } else {
            line_cut(s, i + 1, (m - 1) as nat)
        }
    } else {
        line_cut(s, i + 1, m)
    }
}

/// The text kept by the line limit, and whether it cut anything: at most
/// `max_lines` lines, each with its newline.
pub open spec fn limit_lines(s: Seq<char>, max_lines: Option<usize>) -> (Seq<char>, bool) {
    match max_lines {
        None => (s, false),
        Some(m) => if m == 0 {
            (Seq::empty(), s.len() > 0)
        } else {
            match line_cut(s, 0, m as nat) {
                Some(k) => if k < s.len() {
                    (s.take(k), true)
                } else {
                    (s, false)
                },
                None => (s, false),
            }
        },
    }
}

/// The text kept by the byte limit: the longest run of whole leading
/// characters within `max_bytes` bytes, when the text is longer than that.
pub open spec fn limit_bytes(s: Seq<char>, max_bytes: Option<usize>) -> (Seq<char>, bool) {
    match max_bytes {
        None => (s, false),
        Some(b) => if utf8_len(s) > b {
            (s.take(fitting_from(s, 0, b as int)), true)
        } else {
            (s, false)
        },
    }
}

/// What `truncate_text` gives: the line limit first, then the byte limit.
pub open spec fn truncated_text(s: Seq<char>, max_bytes: Option<usize>, max_lines: Option<usize>) -> (Seq<char>, bool) {
    let (a, t1) = limit_lines(s, max_lines);
    let (b, t2) = limit_bytes(a, max_bytes);
    (b, t1 || t2)
}

proof fn lemma_utf8_len_step(s: Seq<char>, k: int)
    requires
        0 <= k < s.len(),
    ensures
        utf8_len(s.take(k + 1)) == utf8_len(s.take(k)) + utf8_width(s[k]),
{
    assert(s.take(k + 1).drop_last() == s.take(k));
}

proof fn lemma_fitting_from(s: Seq<char>, i: int, budget: int)
    requires
        0 <= i <= s.len(),
        budget >= 0,
    ensures
        i <= fitting_from(s, i, budget) <= s.len(),
        utf8_len(s.take(fitting_from(s, i, budget))) <= utf8_len(s.take(i)) + budget,
        fitting_from(s, i, budget) < s.len() ==> utf8_len(s.take(fitting_from(s, i, budget))) + utf8_width(
            s[fitting_from(s, i, budget)],
        ) > utf8_len(s.take(i)) + budget,
    decreases s.len() - i,
{
    if i < s.len() && utf8_width(s[i]) <= budget {
        lemma_utf8_len_step(s, i);
        lemma_fitting_from(s, i + 1, budget - utf8_width(s[i]));
    }
}

proof fn lemma_line_cut(s: Seq<char>, i: int, m: nat)
    requires
        0 <= i,
    ensures
        line_cut(s, i, m) matches Some(k) ==> i < k <= s.len(),
    decreases s.len() - i,
{
    if i < s.len() && m > 0 {
        if s[i] == '\n' {
            if m > 1 {
                lemma_line_cut(s, i + 1, (m - 1) as nat);
            }
        } else {
            lemma_line_cut(s, i + 1, m);
        }
    }
}

/// Truncation keeps a prefix of the text, within the byte limit, and says it
/// truncated exactly when it dropped something.
pub proof fn law_truncation_keeps_a_prefix(s: Seq<char>, max_bytes: Option<usize>, max_lines: Option<usize>)
    ensures
        ({
            let (r, t) = truncated_text(s, max_bytes, max_lines);
            &&& r.len() <= s.len()
            &&& r == s.take(r.len() as int)
            &&& (t <==> r.len() < s.len())
            &&& (max_bytes matches Some(b) ==> utf8_len(r) <= b)
        }),
{
    let (a, t1) = limit_lines(s, max_lines);
    if let Some(m) = max_lines {
        if m > 0 {
            lemma_line_cut(s, 0, m as nat);
        }
    }
    assert(a.len() <= s.len() && a == s.take(a.len() as int) && (t1 <==> a.len() < s.len()));
    let (b, t2) = limit_bytes(a, max_bytes);
    if let Some(mb) = max_bytes {
        lemma_fitting_from(a, 0, mb as int);
        assert(a.take(0) =~= Seq::<char>::empty());
        if utf8_len(a) > mb {
            let f = fitting_from(a, 0, mb as int);
            if f == a.len() {
                assert(a.take(f) =~= a);
            }
        }
    }
    assert(b.len() <= a.len() && b == a.take(b.len() as int) && (t2 <==> b.len() < a.len()));
    assert(b =~= s.take(b.len() as int));
}

fn utf8_width_exec(c: char) -> (w: usize)
    ensures
        w == utf8_width(c),
{
    let v = c as u32;
    if v <= 0x7F {
        1
    } else if v <= 0x7FF {
        2
    } else if v <= 0xFFFF {
        3
    } else {
        4
    }
}

proof fn lemma_fitting_bounds(s: Seq<char>, i: int, budget: int)
    requires
        0 <= i <= s.len(),
    ensures
        i <= fitting_from(s, i, budget) <= s.len(),
    decreases s.len() - i,
{
    if i < s.len() && utf8_width(s[i]) <= budget {
        lemma_fitting_bounds(s, i + 1, budget - utf8_width(s[i]));
    }
}

/// Where the line limit cuts `v`: just past its `m`-th newline.
fn find_line_cut(v: &Vec<char>, m: usize) -> (r: Option<usize>)
    requires
        m >= 1,
    ensures
        match line_cut(v@, 0, m as nat) {
            Some(k) => r == Some(k as usize) && 0 <= k <= v@.len(),
            None => r is None,
        },
{
    let n = v.len();
    let mut i: usize = 0;
    let mut left: usize = m;
    while i < n
        invariant
            n == v@.len(),
            i <= n,
            1 <= left <= m,
            line_cut(v@, 0, m as nat) == line_cut(v@, i as int, left as nat),
        decreases n - i,
    {
        if v[i] == '\n' {
            if left == 1 {
                return Some(i + 1);
            }
            left -= 1;
        }
        i += 1;
    }
    None
}

/// Whether the first `keep` characters of `v` take more than `b` bytes.
fn exceeds_bytes(v: &Vec<char>, keep: usize, b: usize) -> (r: bool)
    requires
        keep <= v@.len(),
    ensures
        r == (utf8_len(v@.take(keep as int)) > b),
{
    let ghost a = v@.take(keep as int);
    let mut total: usize = 0;
    let mut j: usize = 0;
    while j < keep
        invariant
            keep <= v@.len(),
            a == v@.take(keep as int),
            j <= keep,
            total == utf8_len(a.take(j as int)),
            total <= b,
        decreases keep - j,
    {
        let w = utf8_width_exec(v[j]);
        assert(a.take(j + 1).drop_last() == a.take(j as int));
        assert(a.take(j + 1).last() == v@[j as int]);
        if w > b - total {
            proof {
                lemma_utf8_len_prefix(a, j + 1);
            }
            return true;
        }
        total = total + w;
        j += 1;
    }
    assert(a.take(keep as int) == a);
    false
}

/// How many leading characters of the first `keep` of `v` fit in `b` bytes.
fn fitting_count(v: &Vec<char>, keep: usize, b: usize) -> (r: usize)
    requires
        keep <= v@.len(),
    ensures
        r == fitting_from(v@.take(keep as int), 0, b as int),
        r <= keep,
{
    let ghost a = v@.take(keep as int);
    proof {
        lemma_fitting_bounds(a, 0, b as int);
    }
    let mut fit: usize = 0;
    let mut budget: usize = b;
    while fit < keep && utf8_width_exec(v[fit]) <= budget
        invariant
            keep <= v@.len(),
            a == v@.take(keep as int),
            fit <= keep,
            fitting_from(a, 0, b as int) == fitting_from(a, fit as int, budget as int),
        decreases keep - fit,
    {
        budget = budget - utf8_width_exec(v[fit]);
        fit += 1;
    }
    fit
}

/// Keep at most `max_lines` lines, then at most `max_bytes` bytes (whole
/// characters only); the flag tells whether anything was cut.
pub fn truncate_text(content: &str, max_bytes: Option<usize>, max_lines: Option<usize>) -> (r: (String, bool))
    ensures
        (r.0@, r.1) == truncated_text(content@, max_bytes, max_lines),
{
    let v = chars_of(content);
    let n = v.len();
    let ghost s = v@;
    // The line limit: the first `keep` characters survive it.
    let mut keep: usize = n;
    let mut truncated = false;
    match max_lines {
        None => {},
        Some(m) => {
            if m == 0 {
                keep = 0;
                truncated = n > 0;
            } else {
                match find_line_cut(&v, m) {
                    Some(k) => {
                        if k < n {
                            keep = k;
                            truncated = true;
                        }
                    },
                    None => {},
                }
            }
        },
    }
    assert(limit_lines(s, max_lines) == (s.take(keep as int), truncated)) by {
        if keep == n {
            assert(s.take(n as int) == s);
        }
        if keep == 0 {
            assert(s.take(0) =~= Seq::<char>::empty());
        }
    }
    let ghost a = s.take(keep as int);
    // The byte limit.
    match max_bytes {
        None => {},
        Some(b) => {
            if exceeds_bytes(&v, keep, b) {
                let fit = fitting_count(&v, keep, b);
                assert(a.take(fit as int) == s.take(fit as int));
                keep = fit;
                truncated = true;
            }
        },
    }
    (string_from_chars(v.as_slice(), 0, keep), truncated)
}

proof fn lemma_utf8_len_prefix(s: Seq<char>, k: int)
    requires
        0 <= k <= s.len(),
    ensures
        utf8_len(s.take(k)) <= utf8_len(s),
    decreases s.len() - k,
{
    if k < s.len() {
        lemma_utf8_len_prefix(s, k + 1);
        assert(s.take(k + 1).drop_last() == s.take(k));
    } else {
        assert(s.take(k) == s);
    }
}

// ---------------------------------------------------------------------------
// Running jj with a selection
// ---------------------------------------------------------------------------

pub open spec fn hex_digit(d: u32) -> char {
    if d < 10 {
        (('0' as u32) + d) as char
    } else {
        (('a' as u32) + d - 10) as char
    }
}

/// How a JSON string writes the character `c`.
pub open spec fn json_escape(c: char) -> Seq<char> {
    if c == '"' {
        seq!['\\', '"']
    } else if c == '\\' {
        seq!['\\', '\\']
    } else if c == '\u{8}' {
        seq!['\\', 'b']
    } else if c == '\t' {
        seq!['\\', 't']
    } else if c == '\n' {
        seq!['\\', 'n']
    } else if c == '\u{c}' {
        seq!['\\', 'f']
    } else if c == '\r' {
        seq!['\\', 'r']
    } else if (c as u32) < 0x20 {
        seq!['\\', 'u', '0', '0', hex_digit((c as u32) / 16), hex_digit((c as u32) % 16)]
    } else {
        seq![c]
    }
}

pub open spec fn json_body(s: Seq<char>) -> Seq<char>
    decreases s.len(),
{
    if s.len() == 0 {
        Seq::empty()
    } else {
        json_body(s.drop_last()) + json_escape(s.last())
    }
}

/// `s` as a JSON string (which TOML also reads as a basic string).
pub open spec fn json_quoted(s: Seq<char>) -> Seq<char> {
    seq!['"'] + json_body(s) + seq!['"']
}

/// Calls `serde_json::to_string` on a string. The contract claims that it
/// succeeds and quotes the string, escaping `"`, `\` and the control
/// characters below U+0020 as serde_json's escape table does.
#[verifier::external_body]
fn toml_string(value: &str) -> (r: String)
    ensures
        r@ == json_quoted(value@),
{
    serde_json::to_string(value).expect("string serialization should not fail")
}

/// The `--config` arguments that point `jj` at this tool: the program (when
/// `program` names it because `jj` has none configured), and the edit
/// arguments unless `jj` has them configured.
pub fn tool_config_args(program: Option<&str>, edit_args_configured: bool) -> (r: Vec<String>)
    ensures
        strings_view(r@) == (match program {
            Some(p) => seq!["--config"@, "merge-tools.jj-hunk.program="@ + json_quoted(p@)],
            None => Seq::empty(),
        }) + (if edit_args_configured {
            Seq::empty()
        } else {
            seq!["--config"@, "merge-tools.jj-hunk.edit-args=[\"select\", \"$left\", \"$right\"]"@]
        }),
{
    let mut args: Vec<String> = Vec::new();
    match program {
        Some(p) => {
            args.push(string_of("--config"));
            let mut a = string_of("merge-tools.jj-hunk.program=");
            let q = toml_string(p);
            push_str(&mut a, q.as_str());
            args.push(a);
        },
        None => {},
    }
    let ghost first = strings_view(args@);
    if !edit_args_configured {
        args.push(string_of("--config"));
        args.push(string_of("merge-tools.jj-hunk.edit-args=[\"select\", \"$left\", \"$right\"]"));
    }
    assert(strings_view(args@) =~= first + (if edit_args_configured {
        Seq::<Seq<char>>::empty()
    } else {
        seq!["--config"@, "merge-tools.jj-hunk.edit-args=[\"select\", \"$left\", \"$right\"]"@]
    }));
    args
}

/// Where a selection spec is read from.
#[derive(Debug)]
pub enum SpecSource {
    File(String),
    Stdin,
    Inline(String),
}

/// Where a spec is read from, as a mathematical value.
pub enum SourceV {
    File(Seq<char>),
    Stdin,
    Inline(Seq<char>),
}

impl View for SpecSource {
    type V = SourceV;

    open spec fn view(&self) -> SourceV {
        match self {
            SpecSource::File(p) => SourceV::File(p@),
            SpecSource::Stdin => SourceV::Stdin,
            SpecSource::Inline(t) => SourceV::Inline(t@),
        }
    }
}

/// Where the spec comes from: the spec file when one is named (an empty
/// name is an error), else standard input for `-`, else the text itself;
/// with neither, it is an error.
pub open spec fn source_of(spec: Option<Seq<char>>, spec_file: Option<Seq<char>>) -> Result<SourceV, Seq<char>> {
    match spec_file {
        Some(path) => if path.len() == 0 {
            Err("Spec file path is empty"@)
        } else {
            Ok(SourceV::File(path))
        },
        None => match spec {
            None => Err("Spec is required (or use --spec-file)"@),
            Some(s) => if s == "-"@ {
                Ok(SourceV::Stdin)
            } else {
                Ok(SourceV::Inline(s))
            },
        },
    }
}

/// Where the spec comes from, or why it cannot be read.
pub fn spec_source(spec: Option<&str>, spec_file: Option<&str>) -> (r: Result<SpecSource, String>)
    ensures
        match source_of(opt_str_view(spec), opt_str_view(spec_file)) {
            Ok(v) => r matches Ok(x) && x@ == v,
            Err(m) => r matches Err(e) && e@ == m,
        },
{
    match spec_file {
        Some(path) => {
            if path.is_empty() {
                Err(string_of("Spec file path is empty"))
            } else {
                Ok(SpecSource::File(string_of(path)))
            }
        },
        None => match spec {
            None => Err(string_of("Spec is required (or use --spec-file)")),
            Some(s) => {
                if str_eq(s, "-") {
                    Ok(SpecSource::Stdin)
                } else {
                    Ok(SpecSource::Inline(string_of(s)))
                }
            },
        },
    }
}

/// A `jj` run that applies a selection: its arguments, where the selection
/// is read from, and the revision it is evaluated against.
#[derive(Debug)]
pub struct SelectionCommand {
    pub args: Vec<String>,
    pub source: SpecSource,
    pub rev: Option<String>,
}

/// Whether `c` is the run with arguments `args` and revision `rev`, reading
/// the spec from where `source_of` says; when it says the spec cannot be
/// read, `r` is that error.
pub open spec fn selection_ok(r: Result<SelectionCommand, String>, spec: Option<&str>, spec_file: Option<&str>,
    args: Seq<Seq<char>>, rev: Option<Seq<char>>) -> bool {
    match source_of(opt_str_view(spec), opt_str_view(spec_file)) {
        Err(m) => r matches Err(e) && e@ == m,
        Ok(v) => r matches Ok(c) && strings_view(c.args@) == args && c.source@ == v && opt_view(c.rev) == rev,
    }
}

fn opt_string(o: Option<&str>) -> (r: Option<String>)
    ensures
        opt_view(r) == opt_str_view(o),
{
    match o {
        Some(s) => Some(string_of(s)),
        None => None,
    }
}

fn strings_of(parts: &[&str]) -> (r: Vec<String>)
    ensures
        strings_view(r@) == parts@.map_values(|p: &str| p@),
{
    let mut r: Vec<String> = Vec::new();
    let n = parts.len();
    let mut i: usize = 0;
    while i < n
        invariant
            n == parts@.len(),
            i <= n,
            strings_view(r@) == parts@.map_values(|p: &str| p@).take(i as int),
        decreases n - i,
    {
        let ghost before = strings_view(r@);
        r.push(string_of(parts[i]));
        assert(strings_view(r@) =~= before.push(parts@[i as int]@));
        assert(parts@.map_values(|p: &str| p@).take(i + 1) =~= parts@.map_values(|p: &str| p@).take(i as int).push(parts@[i as int]@));
        i += 1;
    }
    assert(parts@.map_values(|p: &str| p@).take(n as int) == parts@.map_values(|p: &str| p@));
    r
}

pub open spec fn rev_args(rev: Option<&str>) -> Seq<Seq<char>> {
    match rev {
        Some(r) => seq!["-r"@, r@],
        None => Seq::empty(),
    }
}

fn push_rev(args: &mut Vec<String>, rev: Option<&str>)
    ensures
        strings_view(final(args)@) == strings_view(old(args)@) + rev_args(rev),
{
    let ghost before = strings_view(args@);
    match rev {
        Some(r) => {
            args.push(string_of("-r"));
            args.push(string_of(r));
        },
        None => {},
    }
    assert(strings_view(args@) =~= before + rev_args(rev));
}

/// `jj split` with the selection: the selected hunks go into the first
/// commit. Fails, before any run, when the spec cannot be read.
pub fn split(spec: Option<&str>, spec_file: Option<&str>, message: &str, rev: Option<&str>) -> (r: Result<SelectionCommand, String>)
    ensures
        selection_ok(r, spec, spec_file, seq!["split"@, "--tool=jj-hunk"@, "-m"@, message@] + rev_args(rev),
            opt_str_view(rev)),
{
    let source = spec_source(spec, spec_file)?;
    let mut args = strings_of(&["split", JJ_HUNK_TOOL_ARG, "-m", message]);
    assert(strings_view(args@) == seq!["split"@, "--tool=jj-hunk"@, "-m"@, message@]);
    push_rev(&mut args, rev);
    Ok(SelectionCommand { args, source, rev: opt_string(rev) })
}

/// `jj commit -i` with the selection; it always works on the working copy.
/// Fails, before any run, when the spec cannot be read.
pub fn commit(spec: Option<&str>, spec_file: Option<&str>, message: &str) -> (r: Result<SelectionCommand, String>)
    ensures
        selection_ok(r, spec, spec_file, seq!["commit"@, "-i"@, "--tool=jj-hunk"@, "-m"@, message@], None),
{
    let source = spec_source(spec, spec_file)?;
    let args = strings_of(&["commit", "-i", JJ_HUNK_TOOL_ARG, "-m", message]);
    assert(strings_view(args@) == seq!["commit"@, "-i"@, "--tool=jj-hunk"@, "-m"@, message@]);
    Ok(SelectionCommand { args, source, rev: None })
}

/// `jj squash -i` with the selection: the selected hunks move into the
/// parent. Fails, before any run, when the spec cannot be read.
pub fn squash(spec: Option<&str>, spec_file: Option<&str>, rev: Option<&str>) -> (r: Result<SelectionCommand, String>)
    ensures
        selection_ok(r, spec, spec_file, seq!["squash"@, "-i"@, "--tool=jj-hunk"@] + rev_args(rev), opt_str_view(rev)),
{
    let source = spec_source(spec, spec_file)?;
    let mut args = strings_of(&["squash", "-i", JJ_HUNK_TOOL_ARG]);
    assert(strings_view(args@) == seq!["squash"@, "-i"@, "--tool=jj-hunk"@]);
    push_rev(&mut args, rev);
    Ok(SelectionCommand { args, source, rev: opt_string(rev) })
}

/// A spec read from standard input must hold more than whitespace.
pub fn check_stdin_spec(buffer: String) -> (r: Result<String, String>)
    ensures
        trim(buffer@).len() == 0 ==> (r matches Err(m) && m@ == "Spec from stdin is empty"@),
        trim(buffer@).len() > 0 ==> (r matches Ok(s) && s@ == buffer@),
{
    let v = chars_of(buffer.as_str());
    let (lo, hi) = trim_bounds(v.as_slice());
    if lo == hi {
        Err(string_of("Spec from stdin is empty"))
    } else {
        Ok(buffer)
    }
}

// ---------------------------------------------------------------------------
// Hunkset evaluation over a diff
// ---------------------------------------------------------------------------

pub open spec fn enriched_view(e: EnrichedHunk) -> (Seq<char>, Seq<char>, Hunk) {
    (e.file_path@, e.file_status@, *e.hunk)
}

/// Each hunk of a file with the file's path and status.
pub open spec fn file_hunk_views(f: (String, String, Vec<Hunk>)) -> Seq<(Seq<char>, Seq<char>, Hunk)> {
    f.2@.map_values(|h: Hunk| (f.0@, f.1@, h))
}

/// The hunks of all files, in order, each with its file's path and status.
pub open spec fn all_hunk_views(fs: Seq<(String, String, Vec<Hunk>)>) -> Seq<(Seq<char>, Seq<char>, Hunk)>
    decreases fs.len(),
{
    if fs.len() == 0 {
        Seq::empty()
    } else {
        all_hunk_views(fs.drop_last()) + file_hunk_views(fs.last())
    }
}

/// The hunks of every file, each with its file's path and status and no
/// semantic context, in order.
pub fn enrich_hunks<'a>(file_hunks: &'a [(String, String, Vec<Hunk>)]) -> (r: Vec<EnrichedHunk<'a>>)
    ensures
        r@.map_values(|e: EnrichedHunk| enriched_view(e)) == all_hunk_views(file_hunks@),
        forall|i: int| 0 <= i < r@.len() ==> (#[trigger] r@[i]).enclosing_function is None && r@[i].enclosing_scope is None,
{
    let mut r: Vec<EnrichedHunk<'a>> = Vec::new();
    let n = file_hunks.len();
    let mut i: usize = 0;
    while i < n
        invariant
            n == file_hunks@.len(),
            i <= n,
            r@.map_values(|e: EnrichedHunk| enriched_view(e)) == all_hunk_views(file_hunks@.take(i as int)),
            forall|k: int| 0 <= k < r@.len() ==> (#[trigger] r@[k]).enclosing_function is None && r@[k].enclosing_scope is None,
        decreases n - i,
    {
        let f = &file_hunks[i];
        let ghost before = r@.map_values(|e: EnrichedHunk| enriched_view(e));
        let m = f.2.len();
        let mut k: usize = 0;
        while k < m
            invariant
                m == f.2@.len(),
                k <= m,
                r@.map_values(|e: EnrichedHunk| enriched_view(e)) == before + file_hunk_views(*f).take(k as int),
                forall|j: int| 0 <= j < r@.len() ==> (#[trigger] r@[j]).enclosing_function is None && r@[j].enclosing_scope is None,
            decreases m - k,
        {
            let ghost old_r = r@;
            r.push(EnrichedHunk {
                file_path: f.0.as_str(),
                file_status: f.1.as_str(),
                hunk: &f.2[k],
                enclosing_function: None,
                enclosing_scope: None,
            });
            assert(r@.map_values(|e: EnrichedHunk| enriched_view(e)) =~= old_r.map_values(|e: EnrichedHunk| enriched_view(e)).push((f.0@, f.1@, f.2@[k as int])));
            assert(file_hunk_views(*f).take(k + 1) =~= file_hunk_views(*f).take(k as int).push((f.0@, f.1@, f.2@[k as int])));
            k += 1;
        }
        assert(file_hunk_views(*f).take(m as int) == file_hunk_views(*f));
        assert(file_hunks@.take(i + 1).drop_last() == file_hunks@.take(i as int));
        i += 1;
    }
    assert(file_hunks@.take(n as int) == file_hunks@);
    r
}


// ---------------------------------------------------------------------------
// Steps of a listing
// ---------------------------------------------------------------------------

/// A summary entry that a listing goes on with: the file's path, what the
/// spec keeps of it, and where to read it.
#[derive(Debug)]
pub struct EntryPlan {
    pub path: String,
    pub decision: SpecDecision,
    pub paths: FilePaths,
}

/// Where to read a summary entry's file, unless it has no path.
pub fn read_plan(entry: &DiffSummaryEntry) -> (r: Option<(String, FilePaths)>)
    ensures
        match r {
            None => primary_path_spec(*entry).len() == 0,
            Some((path, paths)) => primary_path_spec(*entry).len() > 0 && path@ == primary_path_spec(*entry)
                && (opt_view(paths.before), opt_view(paths.after)) == entry_file_paths(*entry, path@),
        },
{
    let path = primary_path(entry);
    if path.as_str().is_empty() {
        return None;
    }
    let paths = file_paths_for_entry(entry, path.as_str());
    Some((path, paths))
}

/// What a listing does with a summary entry before reading its files: it
/// drops entries without a path, those the (normalized) include and exclude
/// patterns leave out, and those the spec skips.
pub fn plan_list_entry(entry: &DiffSummaryEntry, includes: &[String], excludes: &[String], spec: Option<&Spec>) -> (r: Option<EntryPlan>)
    ensures
        match r {
            None => primary_path_spec(*entry).len() == 0
                || !included(*entry, strings_view(includes@), strings_view(excludes@))
                || decision_ok(spec, primary_path_spec(*entry), SpecDecision::Skip),
            Some(p) => {
                &&& primary_path_spec(*entry).len() > 0
                &&& included(*entry, strings_view(includes@), strings_view(excludes@))
                &&& p.path@ == primary_path_spec(*entry)
                &&& decision_ok(spec, p.path@, p.decision)
                &&& !(p.decision is Skip)
                &&& (opt_view(p.paths.before), opt_view(p.paths.after)) == entry_file_paths(*entry, p.path@)
            },
        },
{
    let (path, paths) = match read_plan(entry) {
        Some(x) => x,
        None => {
            return None;
        },
    };
    if !should_include_entry(entry, includes, excludes) {
        return None;
    }
    let decision = spec_decision(spec, path.as_str());
    match decision {
        SpecDecision::Skip => None,
        _ => Some(EntryPlan { path, decision, paths }),
    }
}

/// What a listing does with a file once its content is read.
#[derive(Debug, PartialEq, Eq, Structural)]
pub enum DiffPlan {
    /// Leave the file out.
    Skip,
    /// List the binary file without diffing it.
    Mark,
    /// Diff the file; `binary` tells whether it is marked binary.
    Diff { binary: bool },
}

/// Binary files are left out, marked, or diffed as text, as `mode` says.
pub fn plan_diff(before: &[u8], after: &[u8], mode: BinaryMode) -> (r: DiffPlan)
    ensures
        ({
            let binary = is_binary_spec(before@) || is_binary_spec(after@);
            r == (if binary && mode == BinaryMode::Skip {
                DiffPlan::Skip
            } else if binary && mode == BinaryMode::Mark {
                DiffPlan::Mark
            } else {
                DiffPlan::Diff { binary }
            })
        }),
{
    let binary = is_binary_data(before) || is_binary_data(after);
    if binary && mode == BinaryMode::Skip {
        DiffPlan::Skip
    } else if binary && mode == BinaryMode::Mark {
        DiffPlan::Mark
    } else {
        DiffPlan::Diff { binary }
    }
}

/// The hunks a decision keeps.
pub open spec fn kept_hunks(d: SpecDecision, hunks: Seq<Hunk>) -> Seq<Hunk> {
    match d {
        SpecDecision::KeepSelection(sel) => hunks.filter(|h: Hunk| keeps(sel, h)),
        _ => hunks,
    }
}

/// `Some(true)` for a set flag, else nothing.
pub open spec fn flag(b: bool) -> Option<bool> {
    if b {
        Some(true)
    } else {
        None
    }
}

/// The listed file for an entry, from its diffed hunks: those the decision
/// keeps; a text file with no hunk left is not listed.
pub fn finish_list_entry(entry: &DiffSummaryEntry, plan: EntryPlan, hunks: Vec<Hunk>, binary: bool, truncated: bool) -> (r: Option<FileEntry>)
    ensures
        ({
            let kept = kept_hunks(plan.decision, hunks@);
            &&& (kept.len() == 0 && !binary) ==> r is None
            &&& !(kept.len() == 0 && !binary) ==> (r matches Some(f) && f.path == plan.path && f.status@ == entry.status@
                && rename_view(f.rename) == rename_spec(*entry) && f.hunks@ == kept && f.binary == flag(binary)
                && f.truncated == flag(truncated))
        }),
{
    let EntryPlan { path, decision, paths } = plan;
    let ghost d = decision;
    let kept = match decision {
        SpecDecision::KeepSelection(selection) => filter_hunks(hunks, &selection),
        _ => hunks,
    };
    assert(kept@ == kept_hunks(d, hunks@));
    if kept.len() == 0 && !binary {
        return None;
    }
    Some(FileEntry {
        path,
        status: entry.status.clone(),
        rename: rename_info(entry),
        hunks: kept,
        binary: if binary { Some(true) } else { None },
        truncated: if truncated { Some(true) } else { None },
    })
}

/// A full listing: the files as they are, or grouped unless the grouping is
/// `Ungrouped`.
pub fn build_list_output(files: Vec<FileEntry>, grouping: ListGrouping) -> (r: ListOutput)
    ensures
        grouping == ListGrouping::Ungrouped ==> (r.files matches Some(v) && v@ == files@) && r.groups is None,
        grouping != ListGrouping::Ungrouped ==> r.files is None && (r.groups matches Some(gs)
            && gs@.len() == distinct_keys(file_keys(files@, grouping)).len()
            && forall|g: int| 0 <= g < gs@.len() ==> (#[trigger] gs@[g]).name@ == distinct_keys(file_keys(files@, grouping))[g]
                && gs@[g].files@ == with_key(files@, file_keys(files@, grouping), gs@[g].name@)),
{
    if grouping == ListGrouping::Ungrouped {
        ListOutput { files: Some(files), groups: None }
    } else {
        let groups = group_files(files, grouping);
        ListOutput { files: None, groups: Some(groups) }
    }
}

/// A spec template is written as JSON or YAML only.
pub fn check_template_format(format: ListFormat) -> (r: Result<(), String>)
    ensures
        format == ListFormat::Text ==> (r matches Err(m) && m@ == "--spec-template does not support text output (use json or yaml)"@),
        format != ListFormat::Text ==> r is Ok,
{
    if format == ListFormat::Text {
        Err(string_of("--spec-template does not support text output (use json or yaml)"))
    } else {
        Ok(())
    }
}

// ---------------------------------------------------------------------------
// Selecting hunks in jj's diff editor
// ---------------------------------------------------------------------------

/// What the diff editor does with one file.
#[derive(Debug)]
pub enum FileAction {
    /// Leave the file as it is after the change.
    Keep,
    /// Put the file back as it was before the change.
    Reset,
    /// Keep only the selected hunks.
    Apply(HunkSelection),
}

/// What `file_action` decides, with the selection given by its views.
pub open spec fn action_ok(spec: &Spec, path: Seq<char>, a: FileAction) -> bool {
    if spec.files@.dom().contains(path) {
        match spec.files@[path] {
            FileSpec::Action { action: Action::Keep } => a is Keep,
            FileSpec::Action { action: Action::Reset } => a is Reset,
            FileSpec::Selection(hs) => a matches FileAction::Apply(sel) && sel.indices@ == selector_indices(hs.hunks@)
                && sel.ids@ == selector_ids(hs.hunks@, hs.ids@),
        }
    } else if spec.default == DefaultAction::Reset {
        a is Reset
    } else {
        a is Keep
    }
}

/// What the spec says to do with the file `path`: its own entry, else the
/// default.
pub fn file_action(spec: &Spec, path: &str) -> (a: FileAction)
    ensures
        action_ok(spec, path@, a),
{
    match spec.files.get(path) {
        Some(file_spec) => match file_spec {
            FileSpec::Action { action: Action::Keep } => FileAction::Keep,
            FileSpec::Action { action: Action::Reset } => FileAction::Reset,
            FileSpec::Selection(selection) => FileAction::Apply(selection.to_selection()),
        },
        None => match spec.default {
            DefaultAction::Reset => FileAction::Reset,
            DefaultAction::Keep => FileAction::Keep,
        },
    }
}

/// A listing filtered by a spec previews what the diff editor does with the
/// same spec: a file the listing shows whole is kept whole, a file it leaves
/// out is reset or keeps no hunk, and a file it shows in part gets the same
/// selection of hunks.
pub proof fn law_listing_previews_selection(spec: Spec, path: Seq<char>, d: SpecDecision, a: FileAction)
    requires
        decision_ok(Some(&spec), path, d),
        action_ok(&spec, path, a),
    ensures
        d is KeepAll <==> a is Keep,
        d is Skip <==> (a is Reset || (a matches FileAction::Apply(sel) && sel.indices@.is_empty()
            && sel.ids@ == Set::<Seq<char>>::empty())),
        d matches SpecDecision::KeepSelection(s) ==> (a matches FileAction::Apply(t) && s.indices@ == t.indices@
            && s.ids@ == t.ids@),
{
}

/// The file jj leaves in the diff editor's directories for the user; it is
/// never selected from.
pub fn is_instructions_file(name: &str) -> (b: bool)
    ensures
        b == (name@ == "JJ-INSTRUCTIONS"@),
{
    str_eq(name, "JJ-INSTRUCTIONS")
}

// ---------------------------------------------------------------------------
// Command-line arguments
// ---------------------------------------------------------------------------

/// `command` followed by `text`.
pub open spec fn with_command(command: Seq<char>, text: Seq<char>) -> Seq<char> {
    command + text
}

fn command_message(command: &str, text: &str) -> (r: String)
    ensures
        r@ == with_command(command@, text@),
{
    let mut m = string_of(command);
    push_str(&mut m, text);
    m
}

/// The spec and commit message of `split` and `commit`. With a spec file,
/// the one positional argument is the message; a spec beside the file is an
/// error. Without one, both are required.
pub fn normalize_spec_message(spec: Option<String>, message: Option<String>, spec_file: &Option<String>, command: &str)
    -> (r: Result<(Option<String>, String), String>)
    ensures
        ({
            let (s, m) = if spec_file is Some && message is None {
                (None::<String>, spec)
            } else {
                (spec, message)
            };
            match m {
                None => r matches Err(e) && e@ == with_command(command@, " requires a commit message"@),
                Some(msg) => if spec_file is Some {
                    if s is Some {
                        r matches Err(e) && e@ == with_command(command@, ": omit <spec> when using --spec-file"@)
                    } else {
                        r matches Ok((rs, rm)) && rs is None && rm@ == msg@
                    }
                } else {
                    match s {
                        None => r matches Err(e) && e@ == with_command(command@, " requires a spec (or use --spec-file)"@),
                        Some(sv) => r matches Ok((rs, rm)) && opt_view(rs) == Some(sv@) && rm@ == msg@,
                    }
                },
            }
        }),
{
    let (spec, message) = if spec_file.is_some() && message.is_none() {
        (None, spec)
    } else {
        (spec, message)
    };
    let message = match message {
        Some(m) => m,
        None => {
            return Err(command_message(command, " requires a commit message"));
        },
    };
    if spec_file.is_some() {
        if spec.is_some() {
            return Err(command_message(command, ": omit <spec> when using --spec-file"));
        }
        return Ok((None, message));
    }
    match spec {
        Some(s) => Ok((Some(s), message)),
        None => Err(command_message(command, " requires a spec (or use --spec-file)")),
    }
}

/// The spec of `squash`: none with a spec file (a spec beside it is an
/// error), else it is required.
pub fn normalize_spec_only(spec: Option<String>, spec_file: &Option<String>, command: &str) -> (r: Result<Option<String>, String>)
    ensures
        spec_file is Some && spec is Some ==> (r matches Err(e) && e@ == with_command(command@, ": omit <spec> when using --spec-file"@)),
        spec_file is Some && spec is None ==> (r matches Ok(x) && x is None),
        spec_file is None && spec is None ==> (r matches Err(e) && e@ == with_command(command@, " requires a spec (or use --spec-file)"@)),
        spec_file is None && spec is Some ==> (r matches Ok(x) && opt_view(x) == opt_view(spec)),
{
    if spec_file.is_some() {
        if spec.is_some() {
            return Err(command_message(command, ": omit <spec> when using --spec-file"));
        }
        return Ok(None);
    }
    match spec {
        Some(s) => Ok(Some(s)),
        None => Err(command_message(command, " requires a spec (or use --spec-file)")),
    }
}

} // verus!
