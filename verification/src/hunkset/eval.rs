//! Evaluation of hunkset expressions against a list of hunks.
use vstd::prelude::*;
use std::collections::HashSet;
use crate::diff::{normalize_hunk_id, normalized_hunk_id, Hunk, LineRange};
use crate::glob::glob_spec;
use crate::hunkset::ast::{args_view, Arg, ArgV, Expr, ExprV, PatternKind, PatternV, StringPattern};
use crate::hunkset::error::HunksetError;
use crate::hunkset::pattern::{compile_patterns, compiled_view, first_uncompilable,
    pattern_compiles, pattern_matches, patterns_view, CompiledPattern};
use crate::semantic::{extension_from_path, extension_or_empty};
use crate::spec::{selector_ids, selector_indices, selects_id, DefaultAction, FileMap, FileSpec,
    HunkSelector, HunkSpec, Spec};
use crate::spec::{parse_usize, parse_usize_exec};
use crate::text::{chars_of, chars_start_with, starts_with, str_eq, string_of};

verus! {

broadcast use vstd::std_specs::hash::group_hash_axioms;

/// A hunk with its file-level context, used during evaluation.
#[derive(Debug)]
pub struct EnrichedHunk<'a> {
    pub file_path: &'a str,
    pub file_status: &'a str,
    pub hunk: &'a Hunk,
}

// ---------------------------------------------------------------------------
// Specification
// ---------------------------------------------------------------------------

/// An evaluation error: an unknown function name, or a regex that does not
/// compile.
pub enum EvalErr {
    UnknownFunction(Seq<char>),
    InvalidRegex(Seq<char>),
}

/// The pattern arguments, in order.
pub open spec fn arg_patterns(args: Seq<ArgV>) -> Seq<PatternV>
    decreases args.len(),
{
    if args.len() == 0 {
        Seq::empty()
    } else {
        let rest = arg_patterns(args.drop_last());
        match args.last() {
            ArgV::Pattern(p) => rest.push(p),
            ArgV::Range(_, _) => rest,
        }
    }
}

/// The range arguments, in order.
pub open spec fn arg_ranges(args: Seq<ArgV>) -> Seq<(usize, usize)>
    decreases args.len(),
{
    if args.len() == 0 {
        Seq::empty()
    } else {
        let rest = arg_ranges(args.drop_last());
        match args.last() {
            ArgV::Pattern(_) => rest,
            ArgV::Range(a, b) => rest.push((a, b)),
        }
    }
}

/// A substring pattern read as an exact one (for values such as a status).
pub open spec fn exactly(p: PatternV) -> PatternV {
    if p.kind == PatternKind::Substring {
        PatternV { kind: PatternKind::Exact, value: p.value }
    } else {
        p
    }
}

pub open spec fn exact_patterns(ps: Seq<PatternV>) -> Seq<PatternV> {
    ps.map_values(|p: PatternV| exactly(p))
}

pub open spec fn glob_patterns(ps: Seq<PatternV>) -> Seq<PatternV> {
    ps.map_values(|p: PatternV| PatternV { kind: PatternKind::Glob, value: p.value })
}

pub open spec fn any_matches(ps: Seq<PatternV>, h: Seq<char>) -> bool {
    exists|k: int| 0 <= k < ps.len() && pattern_matches(#[trigger] ps[k], h)
}

/// The canonical ids among the pattern values, in order.
pub open spec fn normalized_ids(ps: Seq<PatternV>) -> Seq<Seq<char>>
    decreases ps.len(),
{
    if ps.len() == 0 {
        Seq::empty()
    } else {
        let rest = normalized_ids(ps.drop_last());
        match normalized_hunk_id(ps.last().value) {
            Some(id) => rest.push(id),
            None => rest,
        }
    }
}

/// The pattern values that read as a `usize`, in order.
pub open spec fn depth_values(ps: Seq<PatternV>) -> Seq<usize>
    decreases ps.len(),
{
    if ps.len() == 0 {
        Seq::empty()
    } else {
        let rest = depth_values(ps.drop_last());
        match parse_usize(ps.last().value) {
            Some(n) => rest.push(n),
            None => rest,
        }
    }
}

/// Whether a hunk side of `len` lines from `start` touches the line range
/// `lo..=hi`; an empty side touches it when its position lies in it.
pub open spec fn touches(start: usize, len: usize, lo: usize, hi: usize) -> bool {
    if len == 0 {
        lo <= start <= hi
    } else {
        start <= hi && start + len - 1 >= lo
    }
}

/// Which side of a hunk a line predicate looks at.
#[derive(Clone, Copy)]
pub enum LineSide {
    Before,
    After,
    Either,
}

pub open spec fn side_touches(h: Hunk, lo: usize, hi: usize, side: LineSide) -> bool {
    let before = touches(h.before_range.start, h.before_range.length, lo, hi);
    let after = touches(h.after_range.start, h.after_range.length, lo, hi);
    match side {
        LineSide::Before => before,
        LineSide::After => after,
        LineSide::Either => before || after,
    }
}

/// The predicates the evaluator knows.
#[derive(Clone, Copy)]
pub enum Func {
    File,
    Glob,
    Extension,
    Status,
    Type,
    Lines(LineSide),
    Content,
    Added,
    Removed,
    Id,
    Function,
    Scope,
    Annotation,
    Doc,
    Import,
    Toplevel,
    Depth,
}

pub open spec fn func_named(name: Seq<char>) -> Option<Func> {
    if name == "file"@ {
        Some(Func::File)
    } else if name == "glob"@ {
        Some(Func::Glob)
    } else if name == "extension"@ {
        Some(Func::Extension)
    } else if name == "status"@ {
        Some(Func::Status)
    } else if name == "type"@ {
        Some(Func::Type)
    } else if name == "lines"@ {
        Some(Func::Lines(LineSide::Either))
    } else if name == "before_line"@ {
        Some(Func::Lines(LineSide::Before))
    } else if name == "after_line"@ {
        Some(Func::Lines(LineSide::After))
    } else if name == "content"@ {
        Some(Func::Content)
    } else if name == "added"@ {
        Some(Func::Added)
    } else if name == "removed"@ {
        Some(Func::Removed)
    } else if name == "id"@ {
        Some(Func::Id)
    } else if name == "function"@ {
        Some(Func::Function)
    } else if name == "scope"@ {
        Some(Func::Scope)
    } else if name == "annotation"@ || name == "decorator"@ {
        Some(Func::Annotation)
    } else if name == "doc"@ {
        Some(Func::Doc)
    } else if name == "import"@ {
        Some(Func::Import)
    } else if name == "toplevel"@ {
        Some(Func::Toplevel)
    } else if name == "depth"@ {
        Some(Func::Depth)
    } else {
        None
    }
}

pub open spec fn opt_matches(ps: Seq<PatternV>, v: Option<String>) -> bool {
    match v {
        Some(s) => any_matches(ps, s@),
        None => false,
    }
}

/// Whether the predicate `f` with arguments `args` selects the hunk `h`.
pub open spec fn func_selects(f: Func, args: Seq<ArgV>, h: EnrichedHunk) -> bool {
    let ps = arg_patterns(args);
    let sem = h.hunk.semantic;
    match f {
        Func::File => any_matches(exact_patterns(ps), h.file_path@),
        Func::Glob => any_matches(glob_patterns(ps), h.file_path@),
        Func::Extension => any_matches(exact_patterns(ps), extension_or_empty(h.file_path@)),
        Func::Status => any_matches(exact_patterns(ps), h.file_status@),
        Func::Type => any_matches(exact_patterns(ps), h.hunk.hunk_type@),
        Func::Lines(side) => exists|k: int|
            0 <= k < arg_ranges(args).len() && side_touches(
                *h.hunk,
                (#[trigger] arg_ranges(args)[k]).0,
                arg_ranges(args)[k].1,
                side,
            ),
        Func::Content => any_matches(ps, h.hunk.added@) || any_matches(ps, h.hunk.removed@),
        Func::Added => any_matches(ps, h.hunk.added@),
        Func::Removed => any_matches(ps, h.hunk.removed@),
        Func::Id => exists|k: int|
            0 <= k < normalized_ids(ps).len() && starts_with(
                h.hunk.id@,
                #[trigger] normalized_ids(ps)[k],
            ),
        Func::Function => opt_matches(ps, sem.enclosing_function),
        Func::Scope => opt_matches(ps, sem.enclosing_scope),
        Func::Annotation => if ps.len() == 0 {
            sem.annotations@.len() > 0
        } else {
            exists|a: int| 0 <= a < sem.annotations@.len() && any_matches(ps, (#[trigger] sem.annotations@[a])@)
        },
        Func::Doc => sem.is_doc_comment,
        Func::Import => sem.is_import,
        Func::Toplevel => sem.is_toplevel,
        Func::Depth => {
            let d = sem.nesting_depth;
            depth_values(ps).contains(d) || exists|k: int|
                0 <= k < arg_ranges(args).len() && (#[trigger] arg_ranges(args)[k]).0 <= d
                    <= arg_ranges(args)[k].1
        },
    }
}

/// The error a call of `name` with `args` reports, if any: regexes are
/// checked before the name.
pub open spec fn function_error(name: Seq<char>, args: Seq<ArgV>) -> Option<EvalErr> {
    let ps = arg_patterns(args);
    match first_uncompilable(ps) {
        Some(k) => Some(EvalErr::InvalidRegex(ps[k].value)),
        None => if func_named(name) is Some {
            None
        } else {
            Some(EvalErr::UnknownFunction(name))
        },
    }
}

/// The first error that evaluating `e` reports, left operand first.
pub open spec fn eval_error(e: ExprV) -> Option<EvalErr>
    decreases e,
{
    match e {
        ExprV::All => None,
        ExprV::Empty => None,
        ExprV::Function(name, args) => function_error(name, args),
        ExprV::Union(l, r) => if eval_error(*l) is Some { eval_error(*l) } else { eval_error(*r) },
        ExprV::Intersection(l, r) => if eval_error(*l) is Some { eval_error(*l) } else { eval_error(*r) },
        ExprV::Difference(l, r) => if eval_error(*l) is Some { eval_error(*l) } else { eval_error(*r) },
        ExprV::Negation(inner) => eval_error(*inner),
    }
}

/// Whether `e` selects the hunk `h`.
pub open spec fn selects(e: ExprV, h: EnrichedHunk) -> bool
    decreases e,
{
    match e {
        ExprV::All => true,
        ExprV::Empty => false,
        ExprV::Function(name, args) => match func_named(name) {
            Some(f) => func_selects(f, args, h),
            None => false,
        },
        ExprV::Union(l, r) => selects(*l, h) || selects(*r, h),
        ExprV::Intersection(l, r) => selects(*l, h) && selects(*r, h),
        ExprV::Difference(l, r) => selects(*l, h) && !selects(*r, h),
        ExprV::Negation(inner) => !selects(*inner, h),
    }
}

/// The indices of the hunks `e` selects.
pub open spec fn selected_set(e: ExprV, hs: Seq<EnrichedHunk>) -> Set<usize> {
    Set::new(|i: usize| i < hs.len() && selects(e, hs[i as int]))
}

/// What evaluating `e` against `hs` gives.
pub open spec fn eval_spec(e: ExprV, hs: Seq<EnrichedHunk>) -> Result<Set<usize>, EvalErr> {
    match eval_error(e) {
        Some(err) => Err(err),
        None => Ok(selected_set(e, hs)),
    }
}

/// `err` is the error `e` reports.
pub open spec fn reports(e: HunksetError, err: EvalErr) -> bool {
    match err {
        EvalErr::UnknownFunction(n) => e matches HunksetError::UnknownFunction { name } && name@ == n,
        EvalErr::InvalidRegex(p) => e matches HunksetError::InvalidRegex { pattern, .. } && pattern@ == p,
    }
}

// ---------------------------------------------------------------------------
// Evaluation
// ---------------------------------------------------------------------------

pub open spec fn strings_view(v: Seq<String>) -> Seq<Seq<char>> {
    v.map_values(|s: String| s@)
}

pub(crate) proof fn lemma_take_push<A>(s: Seq<A>, i: int)
    requires
        0 <= i < s.len(),
    ensures
        s.take(i + 1).drop_last() == s.take(i),
        s.take(i + 1).last() == s[i],
{
    assert(s.take(i + 1).drop_last() =~= s.take(i));
}

pub(crate) fn extract_patterns(args: &[Arg]) -> (r: Vec<StringPattern>)
    ensures
        patterns_view(r@) == arg_patterns(args_view(args@)),
{
    let mut r: Vec<StringPattern> = Vec::new();
    let n = args.len();
    let mut i: usize = 0;
    while i < n
        invariant
            n == args@.len(),
            i <= n,
            patterns_view(r@) == arg_patterns(args_view(args@).take(i as int)),
        decreases n - i,
    {
        let ghost before = r@;
        proof {
            lemma_take_push(args_view(args@), i as int);
        }
        match &args[i] {
            Arg::Pattern(p) => {
                r.push(StringPattern { kind: p.kind, value: p.value.clone() });
                assert(patterns_view(r@) =~= patterns_view(before).push(p@));
            },
            Arg::Range(_, _) => {},
        }
        i += 1;
    }
    assert(args_view(args@).take(n as int) =~= args_view(args@));
    r
}

pub(crate) fn extract_ranges(args: &[Arg]) -> (r: Vec<(usize, usize)>)
    ensures
        r@ == arg_ranges(args_view(args@)),
{
    let mut r: Vec<(usize, usize)> = Vec::new();
    let n = args.len();
    let mut i: usize = 0;
    while i < n
        invariant
            n == args@.len(),
            i <= n,
            r@ == arg_ranges(args_view(args@).take(i as int)),
        decreases n - i,
    {
        proof {
            lemma_take_push(args_view(args@), i as int);
        }
        match &args[i] {
            Arg::Pattern(_) => {},
            Arg::Range(a, b) => {
                r.push((*a, *b));
            },
        }
        i += 1;
    }
    assert(args_view(args@).take(n as int) =~= args_view(args@));
    r
}

/// The patterns with substring ones read as exact.
pub(crate) fn to_exact(ps: &Vec<StringPattern>) -> (r: Vec<StringPattern>)
    ensures
        patterns_view(r@) == exact_patterns(patterns_view(ps@)),
{
    let mut r: Vec<StringPattern> = Vec::new();
    let n = ps.len();
    let mut i: usize = 0;
    while i < n
        invariant
            n == ps@.len(),
            i <= n,
            patterns_view(r@) == exact_patterns(patterns_view(ps@)).take(i as int),
        decreases n - i,
    {
        let ghost before = r@;
        let kind = if ps[i].kind == PatternKind::Substring {
            PatternKind::Exact
        } else {
            ps[i].kind
        };
        r.push(StringPattern { kind, value: ps[i].value.clone() });
        assert(patterns_view(r@) =~= patterns_view(before).push(exactly(ps@[i as int]@)));
        assert(exact_patterns(patterns_view(ps@)).take(i + 1) =~= exact_patterns(patterns_view(ps@)).take(i as int).push(exactly(ps@[i as int]@)));
        i += 1;
    }
    assert(exact_patterns(patterns_view(ps@)).take(n as int) =~= exact_patterns(patterns_view(ps@)));
    r
}

/// The patterns read as globs.
pub(crate) fn to_glob(ps: &Vec<StringPattern>) -> (r: Vec<StringPattern>)
    ensures
        patterns_view(r@) == glob_patterns(patterns_view(ps@)),
{
    let mut r: Vec<StringPattern> = Vec::new();
    let n = ps.len();
    let mut i: usize = 0;
    while i < n
        invariant
            n == ps@.len(),
            i <= n,
            patterns_view(r@) == glob_patterns(patterns_view(ps@)).take(i as int),
        decreases n - i,
    {
        let ghost before = r@;
        r.push(StringPattern { kind: PatternKind::Glob, value: ps[i].value.clone() });
        let ghost g = PatternV { kind: PatternKind::Glob, value: ps@[i as int]@.value };
        assert(patterns_view(r@) =~= patterns_view(before).push(g));
        assert(glob_patterns(patterns_view(ps@)).take(i + 1) =~= glob_patterns(patterns_view(ps@)).take(i as int).push(g));
        i += 1;
    }
    assert(glob_patterns(patterns_view(ps@)).take(n as int) =~= glob_patterns(patterns_view(ps@)));
    r
}

/// Whether any of the patterns matches `h`.
fn any_match(ps: &Vec<CompiledPattern>, h: &str) -> (b: bool)
    ensures
        b == any_matches(compiled_view(ps@), h@),
{
    let n = ps.len();
    let mut i: usize = 0;
    while i < n
        invariant
            n == ps@.len(),
            i <= n,
            forall|k: int| 0 <= k < i ==> !pattern_matches(#[trigger] compiled_view(ps@)[k], h@),
        decreases n - i,
    {
        if ps[i].matches(h) {
            assert(pattern_matches(compiled_view(ps@)[i as int], h@));
            return true;
        }
        i += 1;
    }
    false
}

fn any_match_opt(ps: &Vec<CompiledPattern>, v: &Option<String>) -> (b: bool)
    ensures
        b == opt_matches(compiled_view(ps@), *v),
{
    match v {
        Some(s) => any_match(ps, s.as_str()),
        None => false,
    }
}

/// The canonical ids among the pattern values.
fn id_list(ps: &Vec<CompiledPattern>) -> (r: Vec<String>)
    ensures
        strings_view(r@) == normalized_ids(compiled_view(ps@)),
{
    let mut r: Vec<String> = Vec::new();
    let n = ps.len();
    let mut i: usize = 0;
    while i < n
        invariant
            n == ps@.len(),
            i <= n,
            strings_view(r@) == normalized_ids(compiled_view(ps@).take(i as int)),
        decreases n - i,
    {
        let ghost before = r@;
        proof {
            lemma_take_push(compiled_view(ps@), i as int);
        }
        match normalize_hunk_id(ps[i].value()) {
            Some(id) => {
                let ghost v = id@;
                r.push(id);
                assert(strings_view(r@) =~= strings_view(before).push(v));
            },
            None => {},
        }
        i += 1;
    }
    assert(compiled_view(ps@).take(n as int) =~= compiled_view(ps@));
    r
}

/// The pattern values that read as a `usize`.
fn depth_list(ps: &Vec<StringPattern>) -> (r: Vec<usize>)
    ensures
        r@ == depth_values(patterns_view(ps@)),
{
    let mut r: Vec<usize> = Vec::new();
    let n = ps.len();
    let mut i: usize = 0;
    while i < n
        invariant
            n == ps@.len(),
            i <= n,
            r@ == depth_values(patterns_view(ps@).take(i as int)),
        decreases n - i,
    {
        proof {
            lemma_take_push(patterns_view(ps@), i as int);
        }
        let v = chars_of(ps[i].value.as_str());
        match parse_usize_exec(v.as_slice()) {
            Some(d) => {
                r.push(d);
            },
            None => {},
        }
        i += 1;
    }
    assert(patterns_view(ps@).take(n as int) =~= patterns_view(ps@));
    r
}

pub(crate) fn touches_exec(start: usize, len: usize, lo: usize, hi: usize) -> (b: bool)
    ensures
        b == touches(start, len, lo, hi),
{
    if len == 0 {
        return start >= lo && start <= hi;
    }
    start <= hi && (start >= lo || len - 1 >= lo - start)
}

pub(crate) fn side_touches_exec(h: &Hunk, lo: usize, hi: usize, side: LineSide) -> (b: bool)
    ensures
        b == side_touches(*h, lo, hi, side),
{
    let before = touches_exec(h.before_range.start, h.before_range.length, lo, hi);
    let after = touches_exec(h.after_range.start, h.after_range.length, lo, hi);
    match side {
        LineSide::Before => before,
        LineSide::After => after,
        LineSide::Either => before || after,
    }
}

pub(crate) fn lookup_func(name: &str) -> (r: Option<Func>)
    ensures
        r == func_named(name@),
{
    if str_eq(name, "file") {
        Some(Func::File)
    } else if str_eq(name, "glob") {
        Some(Func::Glob)
    } else if str_eq(name, "extension") {
        Some(Func::Extension)
    } else if str_eq(name, "status") {
        Some(Func::Status)
    } else if str_eq(name, "type") {
        Some(Func::Type)
    } else if str_eq(name, "lines") {
        Some(Func::Lines(LineSide::Either))
    } else if str_eq(name, "before_line") {
        Some(Func::Lines(LineSide::Before))
    } else if str_eq(name, "after_line") {
        Some(Func::Lines(LineSide::After))
    } else if str_eq(name, "content") {
        Some(Func::Content)
    } else if str_eq(name, "added") {
        Some(Func::Added)
    } else if str_eq(name, "removed") {
        Some(Func::Removed)
    } else if str_eq(name, "id") {
        Some(Func::Id)
    } else if str_eq(name, "function") {
        Some(Func::Function)
    } else if str_eq(name, "scope") {
        Some(Func::Scope)
    } else if str_eq(name, "annotation") || str_eq(name, "decorator") {
        Some(Func::Annotation)
    } else if str_eq(name, "doc") {
        Some(Func::Doc)
    } else if str_eq(name, "import") {
        Some(Func::Import)
    } else if str_eq(name, "toplevel") {
        Some(Func::Toplevel)
    } else if str_eq(name, "depth") {
        Some(Func::Depth)
    } else {
        None
    }
}

/// What a function call works with, computed once from its arguments.
struct Prepared {
    compiled: Vec<CompiledPattern>,
    exact: Vec<CompiledPattern>,
    globs: Vec<CompiledPattern>,
    ranges: Vec<(usize, usize)>,
    ids: Vec<String>,
    depths: Vec<usize>,
}

impl Prepared {
    spec fn for_args(&self, args: Seq<ArgV>) -> bool {
        let ps = arg_patterns(args);
        &&& compiled_view(self.compiled@) == ps
        &&& compiled_view(self.exact@) == exact_patterns(ps)
        &&& compiled_view(self.globs@) == glob_patterns(ps)
        &&& self.ranges@ == arg_ranges(args)
        &&& strings_view(self.ids@) == normalized_ids(ps)
        &&& self.depths@ == depth_values(ps)
    }
}

proof fn lemma_exact_compiles(ps: Seq<PatternV>)
    requires
        forall|k: int| 0 <= k < ps.len() ==> pattern_compiles(#[trigger] ps[k]),
    ensures
        forall|k: int| 0 <= k < ps.len() ==> pattern_compiles(#[trigger] exact_patterns(ps)[k]),
        forall|k: int| 0 <= k < ps.len() ==> pattern_compiles(#[trigger] glob_patterns(ps)[k]),
{
    assert forall|k: int| 0 <= k < ps.len() implies pattern_compiles(#[trigger] exact_patterns(ps)[k]) by {
        assert(pattern_compiles(ps[k]));
    }
}

/// Whether `f` selects `h`, given what was computed from its arguments.
#[verifier::loop_isolation(false)]
fn func_selects_exec(f: Func, p: &Prepared, h: &EnrichedHunk, Ghost(args): Ghost<Seq<ArgV>>) -> (b: bool)
    requires
        p.for_args(args),
    ensures
        b == func_selects(f, args, *h),
{
    let ghost ps = arg_patterns(args);
    let sem = &h.hunk.semantic;
    match f {
        Func::File => any_match(&p.exact, h.file_path),
        Func::Glob => any_match(&p.globs, h.file_path),
        Func::Extension => any_match(&p.exact, extension_from_path(h.file_path)),
        Func::Status => any_match(&p.exact, h.file_status),
        Func::Type => any_match(&p.exact, h.hunk.hunk_type.as_str()),
        Func::Lines(side) => {
            let n = p.ranges.len();
            let mut k: usize = 0;
            while k < n
                invariant
                    p.for_args(args),
                    n == p.ranges@.len(),
                    p.ranges@ == arg_ranges(args),
                    k <= n,
                    forall|j: int| 0 <= j < k ==> !side_touches(*h.hunk, (#[trigger] p.ranges@[j]).0, p.ranges@[j].1, side),
                decreases n - k,
            {
                let (lo, hi) = p.ranges[k];
                if side_touches_exec(h.hunk, lo, hi, side) {
                    assert(side_touches(*h.hunk, arg_ranges(args)[k as int].0, arg_ranges(args)[k as int].1, side));
                    return true;
                }
                k += 1;
            }
            false
        },
        Func::Content => any_match(&p.compiled, h.hunk.added.as_str()) || any_match(&p.compiled, h.hunk.removed.as_str()),
        Func::Added => any_match(&p.compiled, h.hunk.added.as_str()),
        Func::Removed => any_match(&p.compiled, h.hunk.removed.as_str()),
        Func::Id => {
            let hid = chars_of(h.hunk.id.as_str());
            let n = p.ids.len();
            let mut k: usize = 0;
            while k < n
                invariant
                    p.for_args(args),
                    ps == arg_patterns(args),
                    n == p.ids@.len(),
                    strings_view(p.ids@) == normalized_ids(ps),
                    hid@ == h.hunk.id@,
                    k <= n,
                    forall|j: int| 0 <= j < k ==> !starts_with(h.hunk.id@, #[trigger] normalized_ids(ps)[j]),
                decreases n - k,
            {
                let id = chars_of(p.ids[k].as_str());
                assert(id@ == normalized_ids(ps)[k as int]);
                if chars_start_with(hid.as_slice(), id.as_slice()) {
                    return true;
                }
                k += 1;
            }
            false
        },
        Func::Function => any_match_opt(&p.compiled, &sem.enclosing_function),
        Func::Scope => any_match_opt(&p.compiled, &sem.enclosing_scope),
        Func::Annotation => {
            if p.compiled.len() == 0 {
                return sem.annotations.len() > 0;
            }
            let n = sem.annotations.len();
            let mut a: usize = 0;
            while a < n
                invariant
                    p.for_args(args),
                    ps == arg_patterns(args),
                    sem == &h.hunk.semantic,
                    n == sem.annotations@.len(),
                    compiled_view(p.compiled@) == ps,
                    a <= n,
                    forall|j: int| 0 <= j < a ==> !any_matches(ps, (#[trigger] sem.annotations@[j])@),
                decreases n - a,
            {
                if any_match(&p.compiled, sem.annotations[a].as_str()) {
                    return true;
                }
                a += 1;
            }
            false
        },
        Func::Doc => sem.is_doc_comment,
        Func::Import => sem.is_import,
        Func::Toplevel => sem.is_toplevel,
        Func::Depth => {
            let d = sem.nesting_depth;
            let n = p.depths.len();
            let mut k: usize = 0;
            while k < n
                invariant
                    p.for_args(args),
                    n == p.depths@.len(),
                    k <= n,
                    forall|j: int| 0 <= j < k ==> #[trigger] p.depths@[j] != d,
                decreases n - k,
            {
                if p.depths[k] == d {
                    assert(p.depths@.contains(d));
                    return true;
                }
                k += 1;
            }
            assert(!p.depths@.contains(d));
            let m = p.ranges.len();
            let mut k: usize = 0;
            while k < m
                invariant
                    p.for_args(args),
                    m == p.ranges@.len(),
                    p.ranges@ == arg_ranges(args),
                    k <= m,
                    forall|j: int| 0 <= j < k ==> !((#[trigger] p.ranges@[j]).0 <= d <= p.ranges@[j].1),
                decreases m - k,
            {
                let (lo, hi) = p.ranges[k];
                if lo <= d && d <= hi {
                    assert(arg_ranges(args)[k as int].0 <= d <= arg_ranges(args)[k as int].1);
                    return true;
                }
                k += 1;
            }
            false
        },
    }
}

proof fn lemma_first_uncompilable(ps: Seq<PatternV>, k: int)
    requires
        0 <= k < ps.len(),
        !pattern_compiles(ps[k]),
        forall|j: int| 0 <= j < k ==> pattern_compiles(#[trigger] ps[j]),
    ensures
        first_uncompilable(ps) == Some(k),
{
    let k2 = choose|k2: int|
        0 <= k2 < ps.len() && !pattern_compiles(#[trigger] ps[k2]) && forall|j: int|
            0 <= j < k2 ==> pattern_compiles(#[trigger] ps[j]);
    assert(0 <= k2 < ps.len() && !pattern_compiles(ps[k2]));
    if k2 < k {
        assert(pattern_compiles(ps[k2]));
    }
    if k < k2 {
        assert(pattern_compiles(ps[k]));
    }
}

/// `m` marks exactly the hunks of `hs` that `e` selects.
pub open spec fn mask_of(m: Seq<bool>, e: ExprV, hs: Seq<EnrichedHunk>) -> bool {
    &&& m.len() == hs.len()
    &&& forall|i: int| 0 <= i < hs.len() ==> #[trigger] m[i] == selects(e, hs[i])
}

/// The hunks a call of `name` with `args` selects, as a mask over `hunks`.
fn eval_function(name: &str, args: &[Arg], hunks: &[EnrichedHunk]) -> (r: Result<Vec<bool>, HunksetError>)
    ensures
        match function_error(name@, args_view(args@)) {
            Some(err) => r matches Err(e) && reports(e, err),
            None => r matches Ok(m) && mask_of(m@, ExprV::Function(name@, args_view(args@)), hunks@),
        },
{
    let ghost av = args_view(args@);
    let ghost ps = arg_patterns(av);
    let patterns = extract_patterns(args);
    let exact_src = to_exact(&patterns);
    let glob_src = to_glob(&patterns);
    let depths = depth_list(&patterns);
    let ghost pv = patterns@;
    let compiled = match compile_patterns(patterns) {
        Ok(c) => c,
        Err(e) => {
            proof {
                let k = choose|k: int|
                    0 <= k < pv.len() && !pattern_compiles(#[trigger] pv[k]@) && (forall|j: int|
                        0 <= j < k ==> pattern_compiles(#[trigger] pv[j]@)) && (e matches HunksetError::InvalidRegex {
                        pattern: p,
                        ..
                    } && p@ == pv[k].value@);
                assert forall|j: int| 0 <= j < k implies pattern_compiles(#[trigger] ps[j]) by {
                    assert(ps[j] == pv[j]@);
                }
                assert(ps[k] == pv[k]@);
                lemma_first_uncompilable(ps, k);
            }
            return Err(e);
        },
    };
    proof {
        assert forall|k: int| 0 <= k < ps.len() implies pattern_compiles(#[trigger] ps[k]) by {
            assert(ps[k] == pv[k]@);
        }
        lemma_exact_compiles(ps);
    }
    assert(first_uncompilable(ps) is None);
    let f = match lookup_func(name) {
        Some(f) => f,
        None => {
            return Err(HunksetError::UnknownFunction { name: string_of(name) });
        },
    };
    let ghost ev = exact_src@;
    let exact = match compile_patterns(exact_src) {
        Ok(c) => c,
        Err(e) => {
            proof {
                assert forall|k: int| 0 <= k < ev.len() implies pattern_compiles(#[trigger] ev[k]@) by {
                    assert(patterns_view(ev)[k] == ev[k]@);
                    assert(patterns_view(ev).len() == ps.len());
                    assert(ev[k]@ == exact_patterns(ps)[k]);
                }
            }
            return Err(e);
        },
    };
    let ghost gv = glob_src@;
    let globs = match compile_patterns(glob_src) {
        Ok(c) => c,
        Err(e) => {
            proof {
                assert forall|k: int| 0 <= k < gv.len() implies pattern_compiles(#[trigger] gv[k]@) by {
                    assert(patterns_view(gv)[k] == gv[k]@);
                    assert(patterns_view(gv).len() == ps.len());
                    assert(gv[k]@ == glob_patterns(ps)[k]);
                }
            }
            return Err(e);
        },
    };
    let ids = id_list(&compiled);
    let ranges = extract_ranges(args);
    let prep = Prepared { compiled, exact, globs, ranges, ids, depths };
    assert(prep.for_args(av));
    let n = hunks.len();
    let mut m: Vec<bool> = Vec::new();
    let mut i: usize = 0;
    while i < n
        invariant
            n == hunks@.len(),
            i <= n,
            prep.for_args(av),
            func_named(name@) == Some(f),
            m@.len() == i,
            forall|j: int| 0 <= j < i ==> #[trigger] m@[j] == func_selects(f, av, hunks@[j]),
        decreases n - i,
    {
        let b = func_selects_exec(f, &prep, &hunks[i], Ghost(av));
        m.push(b);
        i += 1;
    }
    Ok(m)
}

/// How two masks combine.
#[derive(Clone, Copy)]
pub(crate) enum MaskOp {
    Or,
    And,
    AndNot,
}

pub(crate) open spec fn mask_op(op: MaskOp, a: bool, b: bool) -> bool {
    match op {
        MaskOp::Or => a || b,
        MaskOp::And => a && b,
        MaskOp::AndNot => a && !b,
    }
}

pub(crate) fn combine(a: &Vec<bool>, b: &Vec<bool>, op: MaskOp) -> (r: Vec<bool>)
    requires
        a@.len() == b@.len(),
    ensures
        r@.len() == a@.len(),
        forall|i: int| 0 <= i < a@.len() ==> #[trigger] r@[i] == mask_op(op, a@[i], b@[i]),
{
    let n = a.len();
    let mut r: Vec<bool> = Vec::new();
    let mut i: usize = 0;
    while i < n
        invariant
            n == a@.len(),
            a@.len() == b@.len(),
            i <= n,
            r@.len() == i,
            forall|j: int| 0 <= j < i ==> #[trigger] r@[j] == mask_op(op, a@[j], b@[j]),
        decreases n - i,
    {
        let v = match op {
            MaskOp::Or => a[i] || b[i],
            MaskOp::And => a[i] && b[i],
            MaskOp::AndNot => a[i] && !b[i],
        };
        r.push(v);
        i += 1;
    }
    r
}

pub(crate) fn negate(a: &Vec<bool>) -> (r: Vec<bool>)
    ensures
        r@.len() == a@.len(),
        forall|i: int| 0 <= i < a@.len() ==> #[trigger] r@[i] == !a@[i],
{
    let n = a.len();
    let mut r: Vec<bool> = Vec::new();
    let mut i: usize = 0;
    while i < n
        invariant
            n == a@.len(),
            i <= n,
            r@.len() == i,
            forall|j: int| 0 <= j < i ==> #[trigger] r@[j] == !a@[j],
        decreases n - i,
    {
        r.push(!a[i]);
        i += 1;
    }
    r
}

pub(crate) fn filled(n: usize, v: bool) -> (r: Vec<bool>)
    ensures
        r@.len() == n,
        forall|i: int| 0 <= i < n ==> #[trigger] r@[i] == v,
{
    let mut r: Vec<bool> = Vec::new();
    let mut i: usize = 0;
    while i < n
        invariant
            i <= n,
            r@.len() == i,
            forall|j: int| 0 <= j < i ==> #[trigger] r@[j] == v,
        decreases n - i,
    {
        r.push(v);
        i += 1;
    }
    r
}

/// The hunks `expr` selects, as a mask over `hunks`.
fn eval_mask(expr: &Expr, hunks: &[EnrichedHunk]) -> (r: Result<Vec<bool>, HunksetError>)
    ensures
        match eval_error(expr@) {
            Some(err) => r matches Err(e) && reports(e, err),
            None => r matches Ok(m) && mask_of(m@, expr@, hunks@),
        },
    decreases expr,
{
    match expr {
        Expr::All => Ok(filled(hunks.len(), true)),
        Expr::Empty => Ok(filled(hunks.len(), false)),
        Expr::Function(name, args) => eval_function(name.as_str(), args.as_slice(), hunks),
        Expr::Negation(inner) => match eval_mask(inner, hunks) {
            Ok(a) => Ok(negate(&a)),
            Err(e) => Err(e),
        },
        Expr::Union(l, r) => {
            let a = match eval_mask(l, hunks) {
                Ok(a) => a,
                Err(e) => {
                    return Err(e);
                },
            };
            let b = match eval_mask(r, hunks) {
                Ok(b) => b,
                Err(e) => {
                    return Err(e);
                },
            };
            Ok(combine(&a, &b, MaskOp::Or))
        },
        Expr::Intersection(l, r) => {
            let a = match eval_mask(l, hunks) {
                Ok(a) => a,
                Err(e) => {
                    return Err(e);
                },
            };
            let b = match eval_mask(r, hunks) {
                Ok(b) => b,
                Err(e) => {
                    return Err(e);
                },
            };
            Ok(combine(&a, &b, MaskOp::And))
        },
        Expr::Difference(l, r) => {
            let a = match eval_mask(l, hunks) {
                Ok(a) => a,
                Err(e) => {
                    return Err(e);
                },
            };
            let b = match eval_mask(r, hunks) {
                Ok(b) => b,
                Err(e) => {
                    return Err(e);
                },
            };
            Ok(combine(&a, &b, MaskOp::AndNot))
        },
    }
}

/// The set of positions the mask marks.
pub(crate) fn set_of_mask(m: &Vec<bool>) -> (r: HashSet<usize>)
    ensures
        r@ == Set::new(|i: usize| i < m@.len() && m@[i as int]),
{
    let mut r: HashSet<usize> = HashSet::new();
    let n = m.len();
    let mut i: usize = 0;
    while i < n
        invariant
            n == m@.len(),
            i <= n,
            r@ == Set::new(|j: usize| j < i && m@[j as int]),
        decreases n - i,
    {
        if m[i] {
            r.insert(i);
        }
        i += 1;
        assert(r@ =~= Set::new(|j: usize| j < i && m@[j as int]));
    }
    assert(r@ =~= Set::new(|j: usize| j < m@.len() && m@[j as int]));
    r
}

/// Evaluate a hunkset expression against a list of enriched hunks.
/// Returns the set of indices into `hunks` that match.
pub fn evaluate(expr: &Expr, hunks: &[EnrichedHunk]) -> (r: Result<HashSet<usize>, HunksetError>)
    ensures
        match eval_spec(expr@, hunks@) {
            Ok(s) => r matches Ok(x) && x@ == s,
            Err(err) => r matches Err(e) && reports(e, err),
        },
{
    match eval_mask(expr, hunks) {
        Ok(m) => {
            let r = set_of_mask(&m);
            assert(r@ =~= selected_set(expr@, hunks@));
            Ok(r)
        },
        Err(e) => Err(e),
    }
}

// ---------------------------------------------------------------------------
// Hunkset -> Spec conversion
// ---------------------------------------------------------------------------

pub open spec fn strs_view(v: Seq<&str>) -> Seq<Seq<char>> {
    v.map_values(|s: &str| s@)
}

/// Whether a selected hunk among the first `i`, whose files are `paths`,
/// belongs to the file `p`.
pub open spec fn seen(sel: Set<usize>, paths: Seq<Seq<char>>, p: Seq<char>, i: int) -> bool {
    exists|j: int| 0 <= j < i && sel.contains(j as usize) && #[trigger] paths[j] == p
}

/// Whether some selected hunk (in range) belongs to the file `p`.
pub open spec fn has_selected(sel: Set<usize>, paths: Seq<Seq<char>>, p: Seq<char>) -> bool {
    seen(sel, paths, p, paths.len() as int)
}

/// The ids of the selected hunks of the file `p` among the first `k`
/// hunks, in hunk order.
pub open spec fn file_ids(sel: Set<usize>, paths: Seq<Seq<char>>, ids: Seq<Seq<char>>, p: Seq<char>, k: int) -> Seq<Seq<char>>
    decreases k,
{
    if k <= 0 {
        Seq::empty()
    } else {
        let rest = file_ids(sel, paths, ids, p, k - 1);
        if sel.contains((k - 1) as usize) && paths[k - 1] == p {
            rest.push(ids[k - 1])
        } else {
            rest
        }
    }
}

/// `f` keeps exactly the hunks with the given ids: in its `ids` list, or
/// (`as_selectors`) as id selectors.
pub open spec fn keeps_ids(f: FileSpec, ids: Seq<Seq<char>>, as_selectors: bool) -> bool {
    &&& f matches FileSpec::Selection(hs)
    &&& if as_selectors {
        &&& hs.ids@.len() == 0
        &&& hs.hunks@.len() == ids.len()
        &&& forall|k: int| 0 <= k < ids.len() ==> (#[trigger] hs.hunks@[k] matches HunkSelector::Id(s) && s@ == ids[k])
    } else {
        &&& hs.hunks@.len() == 0
        &&& strings_view(hs.ids@) == ids
    }
}

/// What a selection of hunks becomes: each file with a selected hunk keeps
/// those hunks, by id and in hunk order.
pub open spec fn selection_files(m: Map<Seq<char>, FileSpec>, sel: Set<usize>, paths: Seq<Seq<char>>, ids: Seq<Seq<char>>, as_selectors: bool) -> bool {
    &&& forall|p: Seq<char>| #[trigger] m.dom().contains(p) <==> has_selected(sel, paths, p)
    &&& forall|p: Seq<char>| #[trigger] m.dom().contains(p) ==> keeps_ids(
        m[p],
        file_ids(sel, paths, ids, p, paths.len() as int),
        as_selectors,
    )
}

pub open spec fn in_paths(paths: Seq<String>, p: Seq<char>) -> bool {
    exists|q: int| 0 <= q < paths.len() && (#[trigger] paths[q])@ == p
}

pub(crate) proof fn lemma_in_paths_push(paths: Seq<String>, x: String, p: Seq<char>)
    ensures
        in_paths(paths.push(x), p) == (in_paths(paths, p) || x@ == p),
{
    if in_paths(paths.push(x), p) {
        let q = choose|q: int| 0 <= q < paths.push(x).len() && (#[trigger] paths.push(x)[q])@ == p;
        if q < paths.len() {
            assert(paths[q] == paths.push(x)[q]);
        }
    }
    if in_paths(paths, p) {
        let q = choose|q: int| 0 <= q < paths.len() && (#[trigger] paths[q])@ == p;
        assert(paths.push(x)[q] == paths[q]);
    }
    if x@ == p {
        assert(paths.push(x)[paths.len() as int] == x);
    }
}

pub(crate) proof fn lemma_seen_step(sel: Set<usize>, paths: Seq<Seq<char>>, p: Seq<char>, i: int)
    requires
        0 <= i < paths.len(),
    ensures
        seen(sel, paths, p, i + 1) == (seen(sel, paths, p, i) || (sel.contains(i as usize) && paths[i] == p)),
{
    if seen(sel, paths, p, i + 1) {
        let j = choose|j: int| 0 <= j < i + 1 && sel.contains(j as usize) && #[trigger] paths[j] == p;
        if j < i {
            assert(seen(sel, paths, p, i));
        }
    }
}

pub(crate) fn contains_path(paths: &Vec<String>, p: &str) -> (b: bool)
    ensures
        b == in_paths(paths@, p@),
{
    let n = paths.len();
    let mut q: usize = 0;
    while q < n
        invariant
            n == paths@.len(),
            q <= n,
            forall|j: int| 0 <= j < q ==> (#[trigger] paths@[j])@ != p@,
        decreases n - q,
    {
        if str_eq(paths[q].as_str(), p) {
            return true;
        }
        q += 1;
    }
    false
}

/// The ids of the selected hunks of file `p`, in hunk order.
fn ids_in_file(selected: &HashSet<usize>, paths: &Vec<&str>, ids: &Vec<&str>, p: &str) -> (r: Vec<String>)
    requires
        paths@.len() == ids@.len(),
    ensures
        strings_view(r@) == file_ids(selected@, strs_view(paths@), strs_view(ids@), p@, paths@.len() as int),
{
    let n = paths.len();
    let mut r: Vec<String> = Vec::new();
    let mut i: usize = 0;
    while i < n
        invariant
            n == paths@.len(),
            n == ids@.len(),
            i <= n,
            strings_view(r@) == file_ids(selected@, strs_view(paths@), strs_view(ids@), p@, i as int),
        decreases n - i,
    {
        let ghost before = r@;
        if selected.contains(&i) && str_eq(paths[i], p) {
            r.push(string_of(ids[i]));
            assert(strings_view(r@) =~= strings_view(before).push(ids@[i as int]@));
        }
        i += 1;
    }
    r
}

fn id_selectors(ids: Vec<String>) -> (r: Vec<HunkSelector>)
    ensures
        r@.len() == ids@.len(),
        forall|k: int| 0 <= k < ids@.len() ==> (#[trigger] r@[k] matches HunkSelector::Id(s) && s@ == ids@[k]@),
{
    let mut r: Vec<HunkSelector> = Vec::new();
    let mut ids = ids;
    let ghost orig = ids@;
    let mut k: usize = 0;
    let n = ids.len();
    let mut rest: Vec<String> = Vec::new();
    while k < n
        invariant
            n == orig.len(),
            k <= n,
            r@.len() == k,
            forall|j: int| 0 <= j < k ==> (#[trigger] r@[j] matches HunkSelector::Id(s) && s@ == orig[j]@),
            ids@ == orig,
        decreases n - k,
    {
        r.push(HunkSelector::Id(ids[k].clone()));
        k += 1;
    }
    r
}

/// Group the selected hunks (whose files are `paths` and ids `ids`) by file.
pub(crate) fn group_selection(selected: &HashSet<usize>, paths: &Vec<&str>, ids: &Vec<&str>, as_selectors: bool) -> (r: FileMap)
    requires
        paths@.len() == ids@.len(),
    ensures
        selection_files(r@, selected@, strs_view(paths@), strs_view(ids@), as_selectors),
{
    let ghost pv = strs_view(paths@);
    let n = paths.len();
    let mut distinct: Vec<String> = Vec::new();
    let mut i: usize = 0;
    while i < n
        invariant
            n == paths@.len(),
            pv == strs_view(paths@),
            i <= n,
            forall|p: Seq<char>| #[trigger] in_paths(distinct@, p) == seen(selected@, pv, p, i as int),
        decreases n - i,
    {
        let ghost old_distinct = distinct@;
        let path = paths[i];
        if selected.contains(&i) && !contains_path(&distinct, path) {
            distinct.push(string_of(path));
        }
        proof {
            assert forall|p: Seq<char>| #[trigger] in_paths(distinct@, p) == seen(selected@, pv, p, i + 1) by {
                lemma_seen_step(selected@, pv, p, i as int);
                if distinct@.len() > old_distinct.len() {
                    lemma_in_paths_push(old_distinct, distinct@.last(), p);
                    assert(distinct@ == old_distinct.push(distinct@.last()));
                } else {
                    assert(distinct@ == old_distinct);
                    if selected@.contains(i) && path@ == p {
                        assert(in_paths(old_distinct, path@));
                    }
                }
            }
        }
        i += 1;
    }
    let mut files = FileMap::new();
    let m = distinct.len();
    let mut k: usize = 0;
    while k < m
        invariant
            m == distinct@.len(),
            k <= m,
            n == paths@.len(),
            n == ids@.len(),
            pv == strs_view(paths@),
            forall|p: Seq<char>| #[trigger] in_paths(distinct@, p) == seen(selected@, pv, p, n as int),
            forall|p: Seq<char>| #[trigger] files@.dom().contains(p) == in_paths(distinct@.take(k as int), p),
            forall|p: Seq<char>| #[trigger] files@.dom().contains(p) ==> keeps_ids(
                files@[p],
                file_ids(selected@, pv, strs_view(ids@), p, n as int),
                as_selectors,
            ),
        decreases m - k,
    {
        let kept = ids_in_file(selected, paths, ids, distinct[k].as_str());
        let spec = if as_selectors {
            FileSpec::Selection(HunkSpec { hunks: id_selectors(kept), ids: Vec::new() })
        } else {
            FileSpec::Selection(HunkSpec { hunks: Vec::new(), ids: kept })
        };
        let key = distinct[k].clone();
        proof {
            assert(distinct@.take(k + 1) == distinct@.take(k as int).push(distinct@[k as int]));
        }
        files.insert(key, spec);
        proof {
            assert forall|p: Seq<char>| #[trigger] files@.dom().contains(p) == in_paths(distinct@.take(k + 1), p) by {
                lemma_in_paths_push(distinct@.take(k as int), distinct@[k as int], p);
            }
        }
        k += 1;
    }
    proof {
        assert(distinct@.take(m as int) == distinct@);
        assert forall|p: Seq<char>| #[trigger] files@.dom().contains(p) <==> has_selected(selected@, pv, p) by {
            assert(in_paths(distinct@, p) == seen(selected@, pv, p, n as int));
        }
    }
    files
}

pub open spec fn hunk_paths(hs: Seq<EnrichedHunk>) -> Seq<Seq<char>> {
    hs.map_values(|h: EnrichedHunk| h.file_path@)
}

pub open spec fn hunk_ids(hs: Seq<EnrichedHunk>) -> Seq<Seq<char>> {
    hs.map_values(|h: EnrichedHunk| h.hunk.id@)
}

/// Convert a set of matched hunks into a Spec for split/commit/squash: each
/// file with a selected hunk keeps those hunks, listed by id in hunk order;
/// every other file is reset. Indices past the end of `hunks` are ignored.
pub fn to_spec(selected: &HashSet<usize>, hunks: &[EnrichedHunk]) -> (r: Spec)
    ensures
        r.default == DefaultAction::Reset,
        selection_files(r.files@, selected@, hunk_paths(hunks@), hunk_ids(hunks@), false),
{
    let n = hunks.len();
    let mut paths: Vec<&str> = Vec::new();
    let mut ids: Vec<&str> = Vec::new();
    let mut i: usize = 0;
    while i < n
        invariant
            n == hunks@.len(),
            i <= n,
            strs_view(paths@) == hunk_paths(hunks@).take(i as int),
            strs_view(ids@) == hunk_ids(hunks@).take(i as int),
        decreases n - i,
    {
        let ghost old_paths = paths@;
        let ghost old_ids = ids@;
        let h = &hunks[i];
        paths.push(h.file_path);
        ids.push(h.hunk.id.as_str());
        assert(paths@ == old_paths.push(h.file_path));
        assert(strs_view(paths@) =~= strs_view(old_paths).push(h.file_path@));
        assert(strs_view(ids@) =~= strs_view(old_ids).push(h.hunk.id@));
        assert(hunk_paths(hunks@).take(i + 1) =~= hunk_paths(hunks@).take(i as int).push(h.file_path@));
        assert(hunk_ids(hunks@).take(i + 1) =~= hunk_ids(hunks@).take(i as int).push(h.hunk.id@));
        i += 1;
    }
    assert(hunk_paths(hunks@).take(n as int) =~= hunk_paths(hunks@));
    assert(hunk_ids(hunks@).take(n as int) =~= hunk_ids(hunks@));
    Spec { files: group_selection(selected, &paths, &ids, false), default: DefaultAction::Reset }
}

// ---------------------------------------------------------------------------
// Laws
// ---------------------------------------------------------------------------

/// Every index `evaluate` returns is a position in the hunk list.
pub proof fn law_selected_in_range(e: ExprV, hs: Seq<EnrichedHunk>, i: usize)
    requires
        selected_set(e, hs).contains(i),
    ensures
        i < hs.len(),
{
}

/// Whether line `l` belongs to a hunk side: one of its `length` lines from
/// `start`, or, for an empty side, the position it stands at.
pub open spec fn side_has_line(r: LineRange, l: int) -> bool {
    if r.length == 0 {
        l == r.start
    } else {
        r.start <= l < r.start + r.length
    }
}

/// Whether the range `lo..=hi` and a hunk side share a line.
pub open spec fn shares_line(r: LineRange, lo: usize, hi: usize) -> bool {
    exists|l: int| lo <= l <= hi && #[trigger] side_has_line(r, l)
}

proof fn lemma_touches_shares_line(r: LineRange, lo: usize, hi: usize)
    requires
        lo <= hi,
    ensures
        touches(r.start, r.length, lo, hi) <==> shares_line(r, lo, hi),
{
    if touches(r.start, r.length, lo, hi) {
        let l: int = if r.start >= lo { r.start as int } else { lo as int };
        assert(side_has_line(r, l));
    }
    if shares_line(r, lo, hi) {
        let l = choose|l: int| lo <= l <= hi && #[trigger] side_has_line(r, l);
        assert(side_has_line(r, l));
    }
}

/// `lines(lo..hi)` selects a hunk exactly when its old or new side shares a
/// line with `lo..=hi`: a hunk that only overlaps the range is selected too,
/// not only one lying wholly inside it. (A reversed range, `lo > hi`, holds
/// no line and is left out.)
pub proof fn law_lines_select_overlapping_hunks(h: EnrichedHunk, lo: usize, hi: usize)
    requires
        lo <= hi,
    ensures
        selects(ExprV::Function("lines"@, seq![ArgV::Range(lo, hi)]), h) <==> (shares_line(h.hunk.before_range,
            lo, hi) || shares_line(h.hunk.after_range, lo, hi)),
        side_touches(*h.hunk, lo, hi, LineSide::Before) <==> shares_line(h.hunk.before_range, lo, hi),
        side_touches(*h.hunk, lo, hi, LineSide::After) <==> shares_line(h.hunk.after_range, lo, hi),
{
    lemma_touches_shares_line(h.hunk.before_range, lo, hi);
    lemma_touches_shares_line(h.hunk.after_range, lo, hi);
    let args = seq![ArgV::Range(lo, hi)];
    reveal_strlit("lines");
    reveal_strlit("file");
    reveal_strlit("glob");
    reveal_strlit("extension");
    reveal_strlit("status");
    reveal_strlit("type");
    assert(args.drop_last() =~= Seq::<ArgV>::empty());
    assert(arg_ranges(Seq::<ArgV>::empty()) =~= Seq::<(usize, usize)>::empty());
    assert(arg_ranges(args) =~= seq![(lo, hi)]);
    assert("lines"@.len() == 5 && "file"@.len() == 4 && "glob"@.len() == 4 && "type"@.len() == 4);
    assert("extension"@.len() == 9 && "status"@.len() == 6);
    assert(func_named("lines"@) == Some(Func::Lines(LineSide::Either)));
    if side_touches(*h.hunk, lo, hi, LineSide::Either) {
        assert(side_touches(*h.hunk, arg_ranges(args)[0].0, arg_ranges(args)[0].1, LineSide::Either));
    }
}

/// `all()` selects every hunk and `none()` none.
pub proof fn law_all_none(hs: Seq<EnrichedHunk>)
    ensures
        eval_spec(ExprV::All, hs) == Ok::<Set<usize>, EvalErr>(Set::new(|i: usize| i < hs.len())),
        eval_spec(ExprV::Empty, hs) == Ok::<Set<usize>, EvalErr>(Set::<usize>::empty()),
{
    assert(selected_set(ExprV::All, hs) =~= Set::new(|i: usize| i < hs.len()));
    assert(selected_set(ExprV::Empty, hs) =~= Set::<usize>::empty());
}

/// Union, intersection and difference of expressions are union,
/// intersection and difference of the selected sets; negation is the
/// complement within the hunk list.
pub proof fn law_set_algebra(a: ExprV, b: ExprV, hs: Seq<EnrichedHunk>)
    ensures
        selected_set(ExprV::Union(Box::new(a), Box::new(b)), hs) == selected_set(a, hs).union(selected_set(b, hs)),
        selected_set(ExprV::Intersection(Box::new(a), Box::new(b)), hs) == selected_set(a, hs).intersect(
            selected_set(b, hs),
        ),
        selected_set(ExprV::Difference(Box::new(a), Box::new(b)), hs) == selected_set(a, hs).difference(
            selected_set(b, hs),
        ),
        selected_set(ExprV::Negation(Box::new(a)), hs) == Set::new(|i: usize| i < hs.len()).difference(
            selected_set(a, hs),
        ),
{
    assert(selected_set(ExprV::Union(Box::new(a), Box::new(b)), hs) =~= selected_set(a, hs).union(selected_set(b, hs)));
    assert(selected_set(ExprV::Intersection(Box::new(a), Box::new(b)), hs) =~= selected_set(a, hs).intersect(selected_set(b, hs)));
    assert(selected_set(ExprV::Difference(Box::new(a), Box::new(b)), hs) =~= selected_set(a, hs).difference(selected_set(b, hs)));
    assert(selected_set(ExprV::Negation(Box::new(a)), hs) =~= Set::new(|i: usize| i < hs.len()).difference(selected_set(a, hs)));
}

/// A double negation `~~x` evaluates as `x` does, errors included.
pub proof fn law_double_negation(x: ExprV, hs: Seq<EnrichedHunk>)
    ensures
        eval_spec(ExprV::Negation(Box::new(ExprV::Negation(Box::new(x)))), hs) == eval_spec(x, hs),
{
    reveal_with_fuel(selects, 2);
    reveal_with_fuel(eval_error, 2);
    assert(selected_set(ExprV::Negation(Box::new(ExprV::Negation(Box::new(x)))), hs) =~= selected_set(x, hs));
}

/// `a ~ b` evaluates as `a & ~b` does.
pub proof fn law_difference_is_intersection_with_complement(a: ExprV, b: ExprV, hs: Seq<EnrichedHunk>)
    ensures
        eval_spec(ExprV::Difference(Box::new(a), Box::new(b)), hs) == eval_spec(
            ExprV::Intersection(Box::new(a), Box::new(ExprV::Negation(Box::new(b)))),
            hs,
        ),
{
    reveal_with_fuel(selects, 2);
    reveal_with_fuel(eval_error, 2);
    assert(selected_set(ExprV::Difference(Box::new(a), Box::new(b)), hs) =~= selected_set(
        ExprV::Intersection(Box::new(a), Box::new(ExprV::Negation(Box::new(b)))),
        hs,
    ));
}

/// An error anywhere in an expression is reported whatever the hunks are,
/// and a call with a regex that does not compile reports that regex even
/// when the function name is unknown.
pub proof fn law_errors_ignore_hunks(e: ExprV, hs1: Seq<EnrichedHunk>, hs2: Seq<EnrichedHunk>)
    ensures
        eval_spec(e, hs1) is Err <==> eval_spec(e, hs2) is Err,
{
}

/// The ids of the selected hunks of file `p` among the first `k`.
pub open spec fn selected_ids_of(sel: Set<usize>, paths: Seq<Seq<char>>, ids: Seq<Seq<char>>, p: Seq<char>, k: int) -> Set<Seq<char>> {
    Set::new(|id: Seq<char>| exists|i: int| 0 <= i < k && sel.contains(i as usize) && paths[i] == p && #[trigger] ids[i] == id)
}

proof fn lemma_file_ids_elements(sel: Set<usize>, paths: Seq<Seq<char>>, ids: Seq<Seq<char>>, p: Seq<char>, k: int)
    requires
        0 <= k <= paths.len(),
        paths.len() == ids.len(),
    ensures
        forall|id: Seq<char>| #[trigger] file_ids(sel, paths, ids, p, k).contains(id) <==> selected_ids_of(sel, paths, ids, p, k).contains(id),
    decreases k,
{
    if k > 0 {
        lemma_file_ids_elements(sel, paths, ids, p, k - 1);
        let rest = file_ids(sel, paths, ids, p, k - 1);
        let f = file_ids(sel, paths, ids, p, k);
        assert forall|id: Seq<char>| #[trigger] f.contains(id) <==> selected_ids_of(sel, paths, ids, p, k).contains(id) by {
            if f.contains(id) {
                let j = choose|j: int| 0 <= j < f.len() && f[j] == id;
                if j < rest.len() {
                    assert(rest[j] == id);
                    assert(rest.contains(id));
                    let i = choose|i: int| 0 <= i < k - 1 && sel.contains(i as usize) && paths[i] == p && #[trigger] ids[i] == id;
                    assert(0 <= i < k && sel.contains(i as usize) && paths[i] == p && ids[i] == id);
                } else {
                    assert(ids[k - 1] == id);
                }
            }
            if selected_ids_of(sel, paths, ids, p, k).contains(id) {
                let i = choose|i: int| 0 <= i < k && sel.contains(i as usize) && paths[i] == p && #[trigger] ids[i] == id;
                if i < k - 1 {
                    assert(selected_ids_of(sel, paths, ids, p, k - 1).contains(id));
                    assert(rest.contains(id));
                    let j = choose|j: int| 0 <= j < rest.len() && rest[j] == id;
                    assert(f[j] == id);
                } else {
                    assert(f[f.len() - 1] == id);
                }
            }
        }
    }
}

/// The spec built from a selection keeps, in each listed file, exactly the
/// ids of the selected hunks of that file and no positions; a file is listed
/// exactly when one of its hunks is selected (the others fall to the
/// default, which resets them).
pub proof fn law_selection_round_trip(
    m: Map<Seq<char>, FileSpec>,
    sel: Set<usize>,
    paths: Seq<Seq<char>>,
    ids: Seq<Seq<char>>,
    as_selectors: bool,
    p: Seq<char>,
)
    requires
        selection_files(m, sel, paths, ids, as_selectors),
        paths.len() == ids.len(),
    ensures
        m.dom().contains(p) <==> has_selected(sel, paths, p),
        m.dom().contains(p) ==> (m[p] matches FileSpec::Selection(hs) && selector_indices(hs.hunks@)
            == Set::<usize>::empty() && selector_ids(hs.hunks@, hs.ids@) == selected_ids_of(
            sel,
            paths,
            ids,
            p,
            paths.len() as int,
        )),
{
    if m.dom().contains(p) {
        let k = paths.len() as int;
        lemma_file_ids_elements(sel, paths, ids, p, k);
        let fid = file_ids(sel, paths, ids, p, k);
        assert(fid.to_set() =~= selected_ids_of(sel, paths, ids, p, k));
        assert(keeps_ids(m[p], fid, as_selectors));
        if let FileSpec::Selection(hs) = m[p] {
            assert(selector_indices(hs.hunks@) =~= Set::<usize>::empty()) by {
                assert forall|i: usize| !selector_indices(hs.hunks@).contains(i) by {
                    if selector_indices(hs.hunks@).contains(i) {
                        let j = choose|j: int| 0 <= j < hs.hunks@.len() && #[trigger] hs.hunks@[j] == HunkSelector::Index(i);
                        if as_selectors {
                            assert(hs.hunks@[j] matches HunkSelector::Id(_));
                        }
                    }
                }
            }
            assert(selector_ids(hs.hunks@, hs.ids@) =~= fid.to_set()) by {
                assert forall|s: Seq<char>| #[trigger] selector_ids(hs.hunks@, hs.ids@).contains(s) <==> fid.to_set().contains(s) by {
                    if as_selectors {
                        if selector_ids(hs.hunks@, hs.ids@).contains(s) {
                            let j = choose|j: int| 0 <= j < hs.hunks@.len() && selects_id(#[trigger] hs.hunks@[j], s);
                            assert(fid[j] == s);
                        }
                        if fid.to_set().contains(s) {
                            let j = choose|j: int| 0 <= j < fid.len() && fid[j] == s;
                            assert(selects_id(hs.hunks@[j], s));
                        }
                    } else {
                        if selector_ids(hs.hunks@, hs.ids@).contains(s) {
                            let j = choose|j: int| 0 <= j < hs.ids@.len() && (#[trigger] hs.ids@[j])@ == s;
                            assert(strings_view(hs.ids@)[j] == s);
                        }
                        if fid.to_set().contains(s) {
                            let j = choose|j: int| 0 <= j < fid.len() && fid[j] == s;
                            assert(strings_view(hs.ids@)[j] == s);
                            assert(hs.ids@[j]@ == s);
                        }
                    }
                }
            }
        }
    }
}

} // verus!
