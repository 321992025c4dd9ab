//! Hunkset: an algebraic query language for selecting hunks.
//!
//! This module holds the first-generation interface: a parser whose errors
//! are plain messages, an evaluator that never fails (an unknown function
//! selects nothing), and a spec conversion that names hunks by id selectors.
//! The submodules hold the current parser and evaluator.
use vstd::prelude::*;
use std::collections::HashSet;
use crate::diff::{normalize_hunk_id, normalized_hunk_id, Hunk};
use crate::glob::{glob_match, glob_spec};
use crate::semantic::{extension_from_path, extension_or_empty};
use crate::spec::{DefaultAction, FileMap, FileSpec, HunkSelector, HunkSpec, Spec};
use crate::text::{chars_of, is_ascii_alpha, starts_with, str_eq, string_of, trim, trim_string};
use self::ast::{args_view, ArgV, ExprV, PatternV};
use self::eval::{arg_patterns, arg_ranges, combine, extract_patterns, extract_ranges, filled,
    func_named, glob_patterns, group_selection, lemma_take_push, lookup_func, negate,
    exact_patterns, normalized_ids, selection_files, set_of_mask, side_touches, side_touches_exec,
    strings_view, strs_view, to_exact, to_glob, Func, MaskOp};
use self::lexer::{ident_end, is_ident_char, lex, lex_checked, LexV, Tokenizer};
use self::parser::{legacy_parse_spec, parse_tokens};
use self::pattern::{pattern_compiles, pattern_matches, patterns_view, CompiledPattern};

pub mod ast;
pub mod error;
pub mod eval;
pub mod lexer;
pub mod parser;
pub mod pattern;

pub use self::ast::{Arg, Expr, PatternKind, StringPattern};

verus! {

broadcast use vstd::std_specs::hash::group_hash_axioms;

// ---------------------------------------------------------------------------
// Patterns
// ---------------------------------------------------------------------------

/// Whether `haystack` matches `p`; a regex that the regex crate refuses
/// matches nothing.
pub open spec fn legacy_matches(p: PatternV, haystack: Seq<char>) -> bool {
    pattern_compiles(p) && pattern_matches(p, haystack)
}

impl StringPattern {
    /// Whether `haystack` matches; a regex that the regex crate refuses
    /// matches nothing.
    pub fn matches(&self, haystack: &str) -> (b: bool)
        ensures
            b == legacy_matches(self@, haystack@),
    {
        match CompiledPattern::compile(self) {
            Ok(c) => c.matches(haystack),
            Err(_) => false,
        }
    }
}

// ---------------------------------------------------------------------------
// Parsing
// ---------------------------------------------------------------------------

/// Parse a hunkset expression string into an AST. A number literal too large
/// for `usize` is outside what this parser reads.
pub fn parse(input: &str) -> (r: Result<Expr, String>)
    requires
        !(lex(input@) is TooLarge),
    ensures
        match legacy_parse_spec(input@) {
            Ok(e) => r matches Ok(x) && x@ == e,
            Err(m) => r matches Err(x) && x@ == m,
        },
{
    let mut tokenizer = Tokenizer::new(input);
    let tokens = match tokenizer.tokenize() {
        Ok(t) => t,
        Err(e) => {
            return Err(e);
        },
    };
    if tokens.len() == 0 {
        return Err(string_of("empty hunkset expression"));
    }
    match parse_tokens(tokens, 0, true) {
        Ok(e) => Ok(e),
        Err(f) => Err(f.message),
    }
}

// ---------------------------------------------------------------------------
// Evaluation
// ---------------------------------------------------------------------------

/// A hunk with its file-level context, used during evaluation.
#[derive(Debug)]
pub struct EnrichedHunk<'a> {
    pub file_path: &'a str,
    pub file_status: &'a str,
    pub hunk: &'a Hunk,
    pub enclosing_function: Option<&'a str>,
    pub enclosing_scope: Option<&'a str>,
}

pub open spec fn any_legacy(ps: Seq<PatternV>, h: Seq<char>) -> bool {
    exists|k: int| 0 <= k < ps.len() && legacy_matches(#[trigger] ps[k], h)
}

pub open spec fn opt_legacy(ps: Seq<PatternV>, v: Option<&str>) -> bool {
    match v {
        Some(s) => any_legacy(ps, s@),
        None => false,
    }
}

/// The functions this evaluator knows.
pub open spec fn legacy_func_named(name: Seq<char>) -> Option<Func> {
    match func_named(name) {
        Some(Func::Annotation) => None,
        Some(Func::Doc) => None,
        Some(Func::Import) => None,
        Some(Func::Toplevel) => None,
        Some(Func::Depth) => None,
        other => other,
    }
}

/// Whether the function `f` with arguments `args` selects `h`.
pub open spec fn legacy_func_selects(f: Func, args: Seq<ArgV>, h: EnrichedHunk) -> bool {
    let ps = arg_patterns(args);
    match f {
        Func::File => any_legacy(exact_patterns(ps), h.file_path@),
        Func::Glob => any_legacy(glob_patterns(ps), h.file_path@),
        Func::Extension => any_legacy(ps, extension_or_empty(h.file_path@)),
        Func::Status => any_legacy(ps, h.file_status@),
        Func::Type => any_legacy(ps, h.hunk.hunk_type@),
        Func::Lines(side) => exists|k: int|
            0 <= k < arg_ranges(args).len() && side_touches(
                *h.hunk,
                (#[trigger] arg_ranges(args)[k]).0,
                arg_ranges(args)[k].1,
                side,
            ),
        Func::Content => exists|k: int|
            0 <= k < ps.len() && (legacy_matches(#[trigger] ps[k], h.hunk.added@) || legacy_matches(
                ps[k],
                h.hunk.removed@,
            )),
        Func::Added => any_legacy(ps, h.hunk.added@),
        Func::Removed => any_legacy(ps, h.hunk.removed@),
        Func::Id => normalized_ids(ps).contains(h.hunk.id@),
        Func::Function => opt_legacy(ps, h.enclosing_function),
        Func::Scope => opt_legacy(ps, h.enclosing_scope),
        _ => false,
    }
}

/// Whether `e` selects `h`.
pub open spec fn legacy_selects(e: ExprV, h: EnrichedHunk) -> bool
    decreases e,
{
    match e {
        ExprV::All => true,
        ExprV::Empty => false,
        ExprV::Function(name, args) => match legacy_func_named(name) {
            Some(f) => legacy_func_selects(f, args, h),
            None => false,
        },
        ExprV::Union(l, r) => legacy_selects(*l, h) || legacy_selects(*r, h),
        ExprV::Intersection(l, r) => legacy_selects(*l, h) && legacy_selects(*r, h),
        ExprV::Difference(l, r) => legacy_selects(*l, h) && !legacy_selects(*r, h),
        ExprV::Negation(inner) => !legacy_selects(*inner, h),
    }
}

/// The indices of the hunks `e` selects.
pub open spec fn legacy_selected_set(e: ExprV, hs: Seq<EnrichedHunk>) -> Set<usize> {
    Set::new(|i: usize| i < hs.len() && legacy_selects(e, hs[i as int]))
}

fn any_legacy_exec(ps: &Vec<StringPattern>, h: &str) -> (b: bool)
    ensures
        b == any_legacy(patterns_view(ps@), h@),
{
    let n = ps.len();
    let mut i: usize = 0;
    while i < n
        invariant
            n == ps@.len(),
            i <= n,
            forall|k: int| 0 <= k < i ==> !legacy_matches(#[trigger] patterns_view(ps@)[k], h@),
        decreases n - i,
    {
        if ps[i].matches(h) {
            assert(legacy_matches(patterns_view(ps@)[i as int], h@));
            return true;
        }
        i += 1;
    }
    false
}

fn opt_legacy_exec(ps: &Vec<StringPattern>, v: Option<&str>) -> (b: bool)
    ensures
        b == opt_legacy(patterns_view(ps@), v),
{
    match v {
        Some(s) => any_legacy_exec(ps, s),
        None => false,
    }
}

/// The canonical ids among the pattern values.
fn legacy_id_list(ps: &Vec<StringPattern>) -> (r: Vec<String>)
    ensures
        strings_view(r@) == normalized_ids(patterns_view(ps@)),
{
    let mut r: Vec<String> = Vec::new();
    let n = ps.len();
    let mut i: usize = 0;
    while i < n
        invariant
            n == ps@.len(),
            i <= n,
            strings_view(r@) == normalized_ids(patterns_view(ps@).take(i as int)),
        decreases n - i,
    {
        let ghost before = r@;
        proof {
            lemma_take_push(patterns_view(ps@), i as int);
        }
        match normalize_hunk_id(ps[i].value.as_str()) {
            Some(id) => {
                let ghost v = id@;
                r.push(id);
                assert(strings_view(r@) =~= strings_view(before).push(v));
            },
            None => {},
        }
        i += 1;
    }
    assert(patterns_view(ps@).take(n as int) =~= patterns_view(ps@));
    r
}

/// Whether `f` selects `h`, given the patterns, globs, ranges and ids
/// computed from its arguments.
#[verifier::loop_isolation(false)]
fn legacy_func_selects_exec(
    f: Func,
    ps: &Vec<StringPattern>,
    exacts: &Vec<StringPattern>,
    globs: &Vec<StringPattern>,
    ranges: &Vec<(usize, usize)>,
    ids: &Vec<String>,
    h: &EnrichedHunk,
    Ghost(args): Ghost<Seq<ArgV>>,
) -> (b: bool)
    requires
        patterns_view(ps@) == arg_patterns(args),
        patterns_view(exacts@) == exact_patterns(arg_patterns(args)),
        patterns_view(globs@) == glob_patterns(arg_patterns(args)),
        ranges@ == arg_ranges(args),
        strings_view(ids@) == normalized_ids(arg_patterns(args)),
    ensures
        b == legacy_func_selects(f, args, *h),
{
    match f {
        Func::File => any_legacy_exec(exacts, h.file_path),
        Func::Glob => any_legacy_exec(globs, h.file_path),
        Func::Extension => any_legacy_exec(ps, extension_from_path(h.file_path)),
        Func::Status => any_legacy_exec(ps, h.file_status),
        Func::Type => any_legacy_exec(ps, h.hunk.hunk_type.as_str()),
        Func::Lines(side) => {
            let n = ranges.len();
            let mut k: usize = 0;
            while k < n
                invariant
                    n == ranges@.len(),
                    k <= n,
                    forall|j: int| 0 <= j < k ==> !side_touches(*h.hunk, (#[trigger] ranges@[j]).0, ranges@[j].1, side),
                decreases n - k,
            {
                let (lo, hi) = ranges[k];
                if side_touches_exec(h.hunk, lo, hi, side) {
                    assert(side_touches(*h.hunk, arg_ranges(args)[k as int].0, arg_ranges(args)[k as int].1, side));
                    return true;
                }
                k += 1;
            }
            false
        },
        Func::Content => {
            let n = ps.len();
            let mut k: usize = 0;
            while k < n
                invariant
                    n == ps@.len(),
                    k <= n,
                    forall|j: int| 0 <= j < k ==> !(legacy_matches(#[trigger] patterns_view(ps@)[j], h.hunk.added@) || legacy_matches(patterns_view(ps@)[j], h.hunk.removed@)),
                decreases n - k,
            {
                if ps[k].matches(h.hunk.added.as_str()) || ps[k].matches(h.hunk.removed.as_str()) {
                    assert(legacy_matches(patterns_view(ps@)[k as int], h.hunk.added@) || legacy_matches(patterns_view(ps@)[k as int], h.hunk.removed@));
                    return true;
                }
                k += 1;
            }
            false
        },
        Func::Added => any_legacy_exec(ps, h.hunk.added.as_str()),
        Func::Removed => any_legacy_exec(ps, h.hunk.removed.as_str()),
        Func::Id => {
            let n = ids.len();
            let mut k: usize = 0;
            while k < n
                invariant
                    n == ids@.len(),
                    k <= n,
                    forall|j: int| 0 <= j < k ==> #[trigger] strings_view(ids@)[j] != h.hunk.id@,
                decreases n - k,
            {
                if str_eq(ids[k].as_str(), h.hunk.id.as_str()) {
                    assert(strings_view(ids@)[k as int] == h.hunk.id@);
                    return true;
                }
                k += 1;
            }
            assert(!strings_view(ids@).contains(h.hunk.id@));
            false
        },
        Func::Function => opt_legacy_exec(ps, h.enclosing_function),
        Func::Scope => opt_legacy_exec(ps, h.enclosing_scope),
        _ => false,
    }
}

fn legacy_lookup(name: &str) -> (r: Option<Func>)
    ensures
        r == legacy_func_named(name@),
{
    match lookup_func(name) {
        Some(Func::Annotation) => None,
        Some(Func::Doc) => None,
        Some(Func::Import) => None,
        Some(Func::Toplevel) => None,
        Some(Func::Depth) => None,
        other => other,
    }
}

fn legacy_function_mask(name: &str, args: &[Arg], hunks: &[EnrichedHunk]) -> (r: Vec<bool>)
    ensures
        r@.len() == hunks@.len(),
        forall|i: int| 0 <= i < hunks@.len() ==> #[trigger] r@[i] == legacy_selects(ExprV::Function(name@, args_view(args@)), hunks@[i]),
{
    let ghost av = args_view(args@);
    let n = hunks.len();
    let f = match legacy_lookup(name) {
        Some(f) => f,
        None => {
            return filled(n, false);
        },
    };
    let ps = extract_patterns(args);
    let exacts = to_exact(&ps);
    let globs = to_glob(&ps);
    let ranges = extract_ranges(args);
    let ids = legacy_id_list(&ps);
    let mut m: Vec<bool> = Vec::new();
    let mut i: usize = 0;
    while i < n
        invariant
            n == hunks@.len(),
            i <= n,
            patterns_view(ps@) == arg_patterns(av),
            patterns_view(exacts@) == exact_patterns(arg_patterns(av)),
            patterns_view(globs@) == glob_patterns(arg_patterns(av)),
            ranges@ == arg_ranges(av),
            strings_view(ids@) == normalized_ids(arg_patterns(av)),
            legacy_func_named(name@) == Some(f),
            m@.len() == i,
            forall|j: int| 0 <= j < i ==> #[trigger] m@[j] == legacy_func_selects(f, av, hunks@[j]),
        decreases n - i,
    {
        let b = legacy_func_selects_exec(f, &ps, &exacts, &globs, &ranges, &ids, &hunks[i], Ghost(av));
        m.push(b);
        i += 1;
    }
    m
}

fn legacy_mask(expr: &Expr, hunks: &[EnrichedHunk]) -> (r: Vec<bool>)
    ensures
        r@.len() == hunks@.len(),
        forall|i: int| 0 <= i < hunks@.len() ==> #[trigger] r@[i] == legacy_selects(expr@, hunks@[i]),
    decreases expr,
{
    match expr {
        Expr::All => filled(hunks.len(), true),
        Expr::Empty => filled(hunks.len(), false),
        Expr::Function(name, args) => legacy_function_mask(name.as_str(), args.as_slice(), hunks),
        Expr::Negation(inner) => negate(&legacy_mask(inner, hunks)),
        Expr::Union(l, r) => combine(&legacy_mask(l, hunks), &legacy_mask(r, hunks), MaskOp::Or),
        Expr::Intersection(l, r) => combine(&legacy_mask(l, hunks), &legacy_mask(r, hunks), MaskOp::And),
        Expr::Difference(l, r) => combine(&legacy_mask(l, hunks), &legacy_mask(r, hunks), MaskOp::AndNot),
    }
}

/// Evaluate a hunkset expression against a list of enriched hunks.
/// Returns a set of indices into the input slice that match; an unknown
/// function selects nothing.
pub fn evaluate(expr: &Expr, hunks: &[EnrichedHunk]) -> (r: HashSet<usize>)
    ensures
        r@ == legacy_selected_set(expr@, hunks@),
{
    let m = legacy_mask(expr, hunks);
    let r = set_of_mask(&m);
    assert(r@ =~= legacy_selected_set(expr@, hunks@));
    r
}

// ---------------------------------------------------------------------------
// Hunkset -> Spec conversion
// ---------------------------------------------------------------------------

pub open spec fn legacy_paths(hs: Seq<EnrichedHunk>) -> Seq<Seq<char>> {
    hs.map_values(|h: EnrichedHunk| h.file_path@)
}

pub open spec fn legacy_ids(hs: Seq<EnrichedHunk>) -> Seq<Seq<char>> {
    hs.map_values(|h: EnrichedHunk| h.hunk.id@)
}

/// Convert a set of matched hunks into a Spec for split/commit/squash: each
/// file with a selected hunk keeps those hunks, as id selectors in hunk
/// order; every other file is reset. Every index in `selected` must be a
/// position in `hunks`.
pub fn to_spec(selected: &HashSet<usize>, hunks: &[EnrichedHunk]) -> (r: Spec)
    requires
        forall|i: usize| selected@.contains(i) ==> i < hunks@.len(),
    ensures
        r.default == DefaultAction::Reset,
        selection_files(r.files@, selected@, legacy_paths(hunks@), legacy_ids(hunks@), true),
{
    let n = hunks.len();
    let mut paths: Vec<&str> = Vec::new();
    let mut ids: Vec<&str> = Vec::new();
    let mut i: usize = 0;
    while i < n
        invariant
            n == hunks@.len(),
            i <= n,
            strs_view(paths@) == legacy_paths(hunks@).take(i as int),
            strs_view(ids@) == legacy_ids(hunks@).take(i as int),
        decreases n - i,
    {
        let ghost old_paths = paths@;
        let ghost old_ids = ids@;
        let h = &hunks[i];
        paths.push(h.file_path);
        ids.push(h.hunk.id.as_str());
        assert(paths@ == old_paths.push(h.file_path));
        assert(strs_view(paths@) =~= strs_view(old_paths).push(h.file_path@));
        assert(strs_view(ids@) =~= strs_view(old_ids).push(h.hunk.id@));
        assert(legacy_paths(hunks@).take(i + 1) =~= legacy_paths(hunks@).take(i as int).push(h.file_path@));
        assert(legacy_ids(hunks@).take(i + 1) =~= legacy_ids(hunks@).take(i as int).push(h.hunk.id@));
        i += 1;
    }
    assert(legacy_paths(hunks@).take(n as int) =~= legacy_paths(hunks@));
    assert(legacy_ids(hunks@).take(n as int) =~= legacy_ids(hunks@));
    Spec { files: group_selection(selected, &paths, &ids, true), default: DefaultAction::Reset }
}

// ---------------------------------------------------------------------------
// Detection: is this a hunkset expression or JSON/YAML?
// ---------------------------------------------------------------------------

/// A character that can start a hunkset expression: an identifier, `~` or `(`.
pub open spec fn starts_expression(c: char) -> bool {
    is_ascii_alpha(c) || c == '_' || c == '~' || c == '('
}

/// End of the run of spaces and tabs in `t` starting at `i`.
pub open spec fn blank_end(t: Seq<char>, i: int) -> int
    decreases t.len() - i,
{
    if 0 <= i < t.len() && (t[i] == ' ' || t[i] == '\t') {
        blank_end(t, i + 1)
    } else {
        i
    }
}

/// Whether `t` opens like a YAML mapping key: a word, then `:` (after any
/// spaces or tabs).
pub open spec fn opens_with_key(t: Seq<char>) -> bool {
    let w = ident_end(t, 0);
    let k = blank_end(t, w);
    w > 0 && 0 <= k < t.len() && t[k] == ':'
}

/// Whether the text, once trimmed, starts like a hunkset expression and not
/// like a YAML document (`---`) or mapping (`key:`).
pub open spec fn is_hunkset_spec(s: Seq<char>) -> bool {
    let t = trim(s);
    &&& t.len() > 0
    &&& starts_expression(t[0])
    &&& !starts_with(t, seq!['-', '-', '-'])
    &&& !opens_with_key(t)
}

/// Returns true if the input looks like a hunkset expression rather than
/// JSON or YAML.
pub fn is_hunkset(input: &str) -> (b: bool)
    ensures
        b == is_hunkset_spec(input@),
{
    let trimmed = trim_string(input);
    let t = chars_of(trimmed.as_str());
    let n = t.len();
    if n == 0 {
        return false;
    }
    let first = t[0];
    if !(('a' <= first && first <= 'z') || ('A' <= first && first <= 'Z') || first == '_' || first == '~'
        || first == '(') {
        return false;
    }
    assert(!starts_with(t@, seq!['-', '-', '-'])) by {
        if starts_with(t@, seq!['-', '-', '-']) {
            assert(t@.take(3)[0] == t@[0]);
        }
    }
    let mut w: usize = 0;
    while w < n && is_ident_char(t[w])
        invariant
            n == t@.len(),
            w <= n,
            ident_end(t@, 0) == ident_end(t@, w as int),
        decreases n - w,
    {
        w += 1;
    }
    let mut k: usize = w;
    while k < n && (t[k] == ' ' || t[k] == '\t')
        invariant
            n == t@.len(),
            w <= k <= n,
            blank_end(t@, w as int) == blank_end(t@, k as int),
        decreases n - k,
    {
        k += 1;
    }
    !(w > 0 && k < n && t[k] == ':')
}

/// A JSON spec, which opens with `{` or `[`, is never taken for a hunkset
/// expression.
pub proof fn law_json_is_not_hunkset(input: Seq<char>)
    requires
        trim(input).len() > 0,
        trim(input)[0] == '{' || trim(input)[0] == '[',
    ensures
        !is_hunkset_spec(input),
{
}

/// A YAML spec, which opens with a mapping key such as `default:` or with
/// `---`, is never taken for a hunkset expression.
pub proof fn law_yaml_is_not_hunkset(input: Seq<char>)
    requires
        opens_with_key(trim(input)) || starts_with(trim(input), seq!['-', '-', '-']),
    ensures
        !is_hunkset_spec(input),
{
}

} // verus!
