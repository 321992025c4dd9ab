//! Recursive-descent parser for hunkset expressions.
//!
//! Grammar, loosest binding first:
//!
//! ```text
//! union        = intersection ("|" intersection)*
//! intersection = difference ("&" difference)*
//! difference   = negation ("~" negation)?
//! negation     = "~" negation | atom        (legacy dialect: "~" atom | atom)
//! atom         = "(" union ")" | call
//! call         = IDENT ("(" (arg ("," arg)*)? ")")?
//! arg          = NUMBER (".." NUMBER)? | STRING | (IDENT ":")? (STRING | IDENT)
//! ```
//!
//! Two dialects share this grammar. The current one reports each failure
//! with the position it points at and allows `~~x`; the legacy one words its
//! messages differently (naming what was found) and lets `~` take an atom only.
use vstd::prelude::*;
use crate::hunkset::ast::{args_view, Arg, ArgV, Expr, ExprV, PatternKind, PatternV, StringPattern};
use crate::hunkset::error::HunksetError;
use crate::hunkset::lexer::{lex, lex_checked, tokens_view, LexV, TokV, Token, TokenKind, Tokenizer};
use crate::spec::{parse_usize, parse_usize_exec};
use crate::text::{chars_of, debug_str, decimal, decimal_string, occurs_at, occurs_at_exec, push_str,
    str_debug, str_eq, string_of, trim, trim_bounds};

verus! {

/// A failure: its message and the position it points at.
pub type Failure = (Seq<char>, nat);

// ---------------------------------------------------------------------------
// Specification
// ---------------------------------------------------------------------------

pub open spec fn kind_at(ts: Seq<(TokV, nat)>, i: int) -> Option<TokV> {
    if 0 <= i < ts.len() {
        Some(ts[i].0)
    } else {
        None
    }
}

/// Position of the token at `i`, or `end` past the last token.
pub open spec fn pos_at(ts: Seq<(TokV, nat)>, i: int, end: nat) -> nat {
    if 0 <= i < ts.len() {
        ts[i].1
    } else {
        end
    }
}

/// `format!("{:?}", kind)` for a token kind.
pub open spec fn tok_debug(k: TokV) -> Seq<char> {
    match k {
        TokV::LParen => "LParen"@,
        TokV::RParen => "RParen"@,
        TokV::Pipe => "Pipe"@,
        TokV::Ampersand => "Ampersand"@,
        TokV::Tilde => "Tilde"@,
        TokV::Comma => "Comma"@,
        TokV::DotDot => "DotDot"@,
        TokV::Ident(s) => "Ident("@ + str_debug(s) + ")"@,
        TokV::Str(s) => "Str("@ + str_debug(s) + ")"@,
        TokV::Number(n) => "Number("@ + decimal(n as nat) + ")"@,
        TokV::Colon => "Colon"@,
    }
}

/// `format!("{:?}", found)` for an optional token kind.
pub open spec fn opt_tok_debug(k: Option<TokV>) -> Seq<char> {
    match k {
        Some(k) => "Some("@ + tok_debug(k) + ")"@,
        None => "None"@,
    }
}

/// `msg`, followed in the legacy dialect by what was found instead.
pub open spec fn with_found(legacy: bool, msg: Seq<char>, found: Option<TokV>) -> Seq<char> {
    if legacy {
        msg + ", got "@ + opt_tok_debug(found)
    } else {
        msg
    }
}

pub open spec fn expect_message(k: TokV, found: Option<TokV>) -> Seq<char> {
    match found {
        Some(f) => "expected "@ + tok_debug(k) + ", got "@ + tok_debug(f),
        None => "expected "@ + tok_debug(k) + ", got end of input"@,
    }
}

pub open spec fn trailing_message(legacy: bool, k: TokV) -> Seq<char> {
    if legacy {
        "unexpected token "@ + tok_debug(k)
    } else {
        "unexpected "@ + tok_debug(k)
    }
}

pub open spec fn missing_paren_message(legacy: bool, name: Seq<char>) -> Seq<char> {
    if legacy {
        "expected '(' after function name '"@ + name + "'"@
    } else {
        "expected '(' after '"@ + name + "'"@
    }
}

pub open spec fn unknown_kind_message(id: Seq<char>) -> Seq<char> {
    "unknown pattern kind '"@ + id + "'"@
}

pub open spec fn missing_value_message(id: Seq<char>) -> Seq<char> {
    "expected string after '"@ + id + ":'"@
}

pub open spec fn empty_message(legacy: bool) -> Seq<char> {
    if legacy {
        "empty hunkset expression"@
    } else {
        "empty expression"@
    }
}

/// The pattern kind a prefix such as `regex:` names.
pub open spec fn pattern_kind_named(id: Seq<char>) -> Option<PatternKind> {
    if id == "exact"@ {
        Some(PatternKind::Exact)
    } else if id == "substring"@ {
        Some(PatternKind::Substring)
    } else if id == "glob"@ {
        Some(PatternKind::Glob)
    } else if id == "regex"@ {
        Some(PatternKind::Regex)
    } else {
        None
    }
}

/// Consume a token of kind `k` at `i`.
pub open spec fn p_expect(ts: Seq<(TokV, nat)>, i: int, k: TokV, end: nat) -> Result<int, Failure> {
    if kind_at(ts, i) == Some(k) {
        Ok(i + 1)
    } else {
        Err((expect_message(k, kind_at(ts, i)), pos_at(ts, i, end)))
    }
}

/// The failure reported by a branch that would consume nothing; the
/// progress lemma shows that no branch ever does.
pub open spec fn stalled() -> Failure {
    (Seq::empty(), 0)
}

/// One function argument at `i`.
pub open spec fn p_arg(ts: Seq<(TokV, nat)>, i: int, legacy: bool, end: nat) -> Result<(ArgV, int), Failure> {
    match kind_at(ts, i) {
        Some(TokV::Number(n)) => {
            if kind_at(ts, i + 1) == Some(TokV::DotDot) {
                match kind_at(ts, i + 2) {
                    Some(TokV::Number(m)) => Ok((ArgV::Range(n, m), i + 3)),
                    other => Err((with_found(legacy, "expected number after '..'"@, other), pos_at(ts, i + 3, end))),
                }
            } else {
                Ok((ArgV::Pattern(PatternV { kind: PatternKind::Exact, value: decimal(n as nat) }), i + 1))
            }
        },
        Some(TokV::Str(s)) => Ok((ArgV::Pattern(PatternV { kind: PatternKind::Substring, value: s }), i + 1)),
        Some(TokV::Ident(id)) => {
            if kind_at(ts, i + 1) == Some(TokV::Colon) {
                match pattern_kind_named(id) {
                    None => Err((unknown_kind_message(id), pos_at(ts, i + 1, end))),
                    Some(kind) => match kind_at(ts, i + 2) {
                        Some(TokV::Str(v)) => Ok((ArgV::Pattern(PatternV { kind, value: v }), i + 3)),
                        Some(TokV::Ident(v)) => Ok((ArgV::Pattern(PatternV { kind, value: v }), i + 3)),
                        other => Err((with_found(legacy, missing_value_message(id), other), pos_at(ts, i + 3, end))),
                    },
                }
            } else {
                Ok((ArgV::Pattern(PatternV { kind: PatternKind::Exact, value: id }), i + 1))
            }
        },
        other => Err((with_found(legacy, "expected argument"@, other), pos_at(ts, i, end))),
    }
}

/// Further arguments at `j`, each after a comma, appended to `acc`.
pub open spec fn p_args_rest(ts: Seq<(TokV, nat)>, j: int, acc: Seq<ArgV>, legacy: bool, end: nat) -> Result<(Seq<ArgV>, int), Failure>
    decreases ts.len() - j,
{
    if kind_at(ts, j) == Some(TokV::Comma) {
        match p_arg(ts, j + 1, legacy, end) {
            Ok((a, k)) => p_args_rest(ts, k, acc.push(a), legacy, end),
            Err(e) => Err(e),
        }
    } else {
        Ok((acc, j))
    }
}

/// The arguments from `j` on, after `acc`, then the closing parenthesis.
pub open spec fn p_call_tail(ts: Seq<(TokV, nat)>, name: Seq<char>, j: int, acc: Seq<ArgV>, legacy: bool, end: nat) -> Result<(ExprV, int), Failure> {
    match p_args_rest(ts, j, acc, legacy, end) {
        Ok((args, m)) => match p_expect(ts, m, TokV::RParen, end) {
            Ok(n) => Ok((ExprV::Function(name, args), n)),
            Err(e) => Err(e),
        },
        Err(e) => Err(e),
    }
}

/// A function call (or a bare `all` / `none`) at `i`.
pub open spec fn p_call(ts: Seq<(TokV, nat)>, i: int, legacy: bool, end: nat) -> Result<(ExprV, int), Failure> {
    match kind_at(ts, i) {
        Some(TokV::Ident(name)) => {
            if kind_at(ts, i + 1) != Some(TokV::LParen) {
                if name == "all"@ {
                    Ok((ExprV::All, i + 1))
                } else if name == "none"@ {
                    Ok((ExprV::Empty, i + 1))
                } else {
                    Err((missing_paren_message(legacy, name), pos_at(ts, i + 1, end)))
                }
            } else if name == "all"@ || name == "none"@ {
                match p_expect(ts, i + 2, TokV::RParen, end) {
                    Ok(k) => Ok((if name == "all"@ { ExprV::All } else { ExprV::Empty }, k)),
                    Err(e) => Err(e),
                }
            } else if kind_at(ts, i + 2) == Some(TokV::RParen) {
                Ok((ExprV::Function(name, Seq::empty()), i + 3))
            } else {
                match p_arg(ts, i + 2, legacy, end) {
                    Ok((a, k)) => p_call_tail(ts, name, k, seq![a], legacy, end),
                    Err(e) => Err(e),
                }
            }
        },
        other => Err((with_found(legacy, "expected function name"@, other), pos_at(ts, i + 1, end))),
    }
}

pub open spec fn p_atom(ts: Seq<(TokV, nat)>, i: int, legacy: bool, end: nat) -> Result<(ExprV, int), Failure>
    decreases ts.len() - i, 1int,
{
    match kind_at(ts, i) {
        Some(TokV::LParen) => match p_union(ts, i + 1, legacy, end) {
            Ok((e, j)) => match p_expect(ts, j, TokV::RParen, end) {
                Ok(k) => Ok((e, k)),
                Err(f) => Err(f),
            },
            Err(f) => Err(f),
        },
        Some(TokV::Ident(_)) => p_call(ts, i, legacy, end),
        other => Err((with_found(legacy, "expected function or '('"@, other), pos_at(ts, i, end))),
    }
}

pub open spec fn p_neg(ts: Seq<(TokV, nat)>, i: int, legacy: bool, end: nat) -> Result<(ExprV, int), Failure>
    decreases ts.len() - i, 2int,
{
    if kind_at(ts, i) == Some(TokV::Tilde) {
        let inner = if legacy {
            p_atom(ts, i + 1, legacy, end)
        } else {
            p_neg(ts, i + 1, legacy, end)
        };
        match inner {
            Ok((e, j)) => Ok((ExprV::Negation(Box::new(e)), j)),
            Err(f) => Err(f),
        }
    } else {
        p_atom(ts, i, legacy, end)
    }
}

/// `a ~ b` does not chain: at most one `~` follows the left operand.
pub open spec fn p_diff(ts: Seq<(TokV, nat)>, i: int, legacy: bool, end: nat) -> Result<(ExprV, int), Failure>
    decreases ts.len() - i, 3int,
{
    match p_neg(ts, i, legacy, end) {
        Ok((l, j)) => {
            if kind_at(ts, j) == Some(TokV::Tilde) {
                if i < j {
                    match p_neg(ts, j + 1, legacy, end) {
                        Ok((r, k)) => Ok((ExprV::Difference(Box::new(l), Box::new(r)), k)),
                        Err(f) => Err(f),
                    }
                } else {
                    Err(stalled())
                }
            } else {
                Ok((l, j))
            }
        },
        Err(f) => Err(f),
    }
}

/// Further `& difference` operands at `j`, folded to the left onto `left`.
pub open spec fn p_inter_rest(ts: Seq<(TokV, nat)>, j: int, left: ExprV, legacy: bool, end: nat) -> Result<(ExprV, int), Failure>
    decreases ts.len() - j, 0int,
{
    if kind_at(ts, j) == Some(TokV::Ampersand) {
        match p_diff(ts, j + 1, legacy, end) {
            Ok((r, k)) => {
                if j < k <= ts.len() {
                    p_inter_rest(ts, k, ExprV::Intersection(Box::new(left), Box::new(r)), legacy, end)
                } else {
                    Err(stalled())
                }
            },
            Err(f) => Err(f),
        }
    } else {
        Ok((left, j))
    }
}

pub open spec fn p_inter(ts: Seq<(TokV, nat)>, i: int, legacy: bool, end: nat) -> Result<(ExprV, int), Failure>
    decreases ts.len() - i, 4int,
{
    match p_diff(ts, i, legacy, end) {
        Ok((l, j)) => {
            if i < j <= ts.len() {
                p_inter_rest(ts, j, l, legacy, end)
            } else {
                Err(stalled())
            }
        },
        Err(f) => Err(f),
    }
}

/// Further `| intersection` operands at `j`, folded to the left onto `left`.
pub open spec fn p_union_rest(ts: Seq<(TokV, nat)>, j: int, left: ExprV, legacy: bool, end: nat) -> Result<(ExprV, int), Failure>
    decreases ts.len() - j, 0int,
{
    if kind_at(ts, j) == Some(TokV::Pipe) {
        match p_inter(ts, j + 1, legacy, end) {
            Ok((r, k)) => {
                if j < k <= ts.len() {
                    p_union_rest(ts, k, ExprV::Union(Box::new(left), Box::new(r)), legacy, end)
                } else {
                    Err(stalled())
                }
            },
            Err(f) => Err(f),
        }
    } else {
        Ok((left, j))
    }
}

pub open spec fn p_union(ts: Seq<(TokV, nat)>, i: int, legacy: bool, end: nat) -> Result<(ExprV, int), Failure>
    decreases ts.len() - i, 5int,
{
    match p_inter(ts, i, legacy, end) {
        Ok((l, j)) => {
            if i < j <= ts.len() {
                p_union_rest(ts, j, l, legacy, end)
            } else {
                Err(stalled())
            }
        },
        Err(f) => Err(f),
    }
}

/// A whole expression: a union that uses up every token.
pub open spec fn p_top(ts: Seq<(TokV, nat)>, legacy: bool, end: nat) -> Result<ExprV, Failure> {
    match p_union(ts, 0, legacy, end) {
        Ok((e, j)) => {
            if j < ts.len() {
                Err((trailing_message(legacy, ts[j].0), ts[j].1))
            } else {
                Ok(e)
            }
        },
        Err(f) => Err(f),
    }
}

// ---------------------------------------------------------------------------
// Every successful parse consumes at least one token
// ---------------------------------------------------------------------------

/// The prefix that names a pattern kind in an argument such as
/// `regex:"fn\\s+"`.
pub open spec fn kind_prefix(k: PatternKind) -> Seq<char> {
    match k {
        PatternKind::Exact => "exact"@,
        PatternKind::Substring => "substring"@,
        PatternKind::Glob => "glob"@,
        PatternKind::Regex => "regex"@,
    }
}

/// An argument written `k:"v"` is the pattern of the kind the prefix `k`
/// names, with the value `v`; and a call `f(k:"v")` holds just that
/// argument.
pub proof fn law_prefix_names_the_pattern_kind(ts: Seq<(TokV, nat)>, i: int, legacy: bool, end: nat, k: PatternKind,
    v: Seq<char>, f: Seq<char>)
    requires
        kind_at(ts, i) == Some(TokV::Ident(kind_prefix(k))),
        kind_at(ts, i + 1) == Some(TokV::Colon),
        kind_at(ts, i + 2) == Some(TokV::Str(v)),
    ensures
        p_arg(ts, i, legacy, end) == Ok::<(ArgV, int), Failure>((ArgV::Pattern(PatternV { kind: k, value: v }), i + 3)),
        (kind_at(ts, i - 2) == Some(TokV::Ident(f)) && f != "all"@ && f != "none"@ && kind_at(ts, i - 1) == Some(
            TokV::LParen,
        ) && kind_at(ts, i + 3) == Some(TokV::RParen)) ==> p_call(ts, i - 2, legacy, end) == Ok::<(ExprV, int), Failure>(
            (ExprV::Function(f, seq![ArgV::Pattern(PatternV { kind: k, value: v })]), i + 4),
        ),
{
    reveal_strlit("exact");
    reveal_strlit("substring");
    reveal_strlit("glob");
    reveal_strlit("regex");
    assert("exact"@[0] == 'e' && "regex"@[0] == 'r');
    assert("exact"@.len() == 5 && "substring"@.len() == 9 && "glob"@.len() == 4 && "regex"@.len() == 5);
    assert(pattern_kind_named(kind_prefix(k)) == Some(k));
    if kind_at(ts, i - 2) == Some(TokV::Ident(f)) {
        if f != "all"@ && f != "none"@ && kind_at(ts, i - 1) == Some(TokV::LParen) && kind_at(ts, i + 3) == Some(
            TokV::RParen,
        ) {
            assert(kind_at(ts, i) != Some(TokV::RParen));
            assert(p_args_rest(ts, i + 3, seq![ArgV::Pattern(PatternV { kind: k, value: v })], legacy, end)
                == Ok::<(Seq<ArgV>, int), Failure>((seq![ArgV::Pattern(PatternV { kind: k, value: v })], i + 3)));
        }
    }
}

proof fn lemma_arg_progress(ts: Seq<(TokV, nat)>, i: int, legacy: bool, end: nat)
    requires
        0 <= i,
    ensures
        p_arg(ts, i, legacy, end) matches Ok((_, k)) ==> i < k <= ts.len(),
{
}

proof fn lemma_args_rest_progress(ts: Seq<(TokV, nat)>, j: int, acc: Seq<ArgV>, legacy: bool, end: nat)
    requires
        0 <= j <= ts.len(),
    ensures
        p_args_rest(ts, j, acc, legacy, end) matches Ok((_, k)) ==> j <= k <= ts.len(),
    decreases ts.len() - j,
{
    if kind_at(ts, j) == Some(TokV::Comma) {
        lemma_arg_progress(ts, j + 1, legacy, end);
        if let Ok((a, k)) = p_arg(ts, j + 1, legacy, end) {
            lemma_args_rest_progress(ts, k, acc.push(a), legacy, end);
        }
    }
}

proof fn lemma_call_progress(ts: Seq<(TokV, nat)>, i: int, legacy: bool, end: nat)
    requires
        0 <= i,
    ensures
        p_call(ts, i, legacy, end) matches Ok((_, k)) ==> i < k <= ts.len(),
{
    lemma_arg_progress(ts, i + 2, legacy, end);
    if let Ok((a, k)) = p_arg(ts, i + 2, legacy, end) {
        lemma_args_rest_progress(ts, k, seq![a], legacy, end);
    }
}

proof fn lemma_atom_progress(ts: Seq<(TokV, nat)>, i: int, legacy: bool, end: nat)
    requires
        0 <= i <= ts.len(),
    ensures
        p_atom(ts, i, legacy, end) matches Ok((_, k)) ==> i < k <= ts.len(),
    decreases ts.len() - i, 1int,
{
    if kind_at(ts, i) == Some(TokV::LParen) {
        lemma_union_progress(ts, i + 1, legacy, end);
    } else {
        lemma_call_progress(ts, i, legacy, end);
    }
}

proof fn lemma_neg_progress(ts: Seq<(TokV, nat)>, i: int, legacy: bool, end: nat)
    requires
        0 <= i <= ts.len(),
    ensures
        p_neg(ts, i, legacy, end) matches Ok((_, k)) ==> i < k <= ts.len(),
    decreases ts.len() - i, 2int,
{
    if kind_at(ts, i) == Some(TokV::Tilde) {
        if legacy {
            lemma_atom_progress(ts, i + 1, legacy, end);
        } else {
            lemma_neg_progress(ts, i + 1, legacy, end);
        }
    } else {
        lemma_atom_progress(ts, i, legacy, end);
    }
}

proof fn lemma_diff_progress(ts: Seq<(TokV, nat)>, i: int, legacy: bool, end: nat)
    requires
        0 <= i <= ts.len(),
    ensures
        p_diff(ts, i, legacy, end) matches Ok((_, k)) ==> i < k <= ts.len(),
    decreases ts.len() - i, 3int,
{
    lemma_neg_progress(ts, i, legacy, end);
    if let Ok((l, j)) = p_neg(ts, i, legacy, end) {
        if kind_at(ts, j) == Some(TokV::Tilde) && i < j {
            lemma_neg_progress(ts, j + 1, legacy, end);
        }
    }
}

proof fn lemma_inter_rest_progress(ts: Seq<(TokV, nat)>, j: int, left: ExprV, legacy: bool, end: nat)
    requires
        0 <= j <= ts.len(),
    ensures
        p_inter_rest(ts, j, left, legacy, end) matches Ok((_, k)) ==> j <= k <= ts.len(),
    decreases ts.len() - j, 0int,
{
    if kind_at(ts, j) == Some(TokV::Ampersand) {
        lemma_diff_progress(ts, j + 1, legacy, end);
        if let Ok((r, k)) = p_diff(ts, j + 1, legacy, end) {
            lemma_inter_rest_progress(ts, k, ExprV::Intersection(Box::new(left), Box::new(r)), legacy, end);
        }
    }
}

proof fn lemma_inter_progress(ts: Seq<(TokV, nat)>, i: int, legacy: bool, end: nat)
    requires
        0 <= i <= ts.len(),
    ensures
        p_inter(ts, i, legacy, end) matches Ok((_, k)) ==> i < k <= ts.len(),
    decreases ts.len() - i, 4int,
{
    lemma_diff_progress(ts, i, legacy, end);
    if let Ok((l, j)) = p_diff(ts, i, legacy, end) {
        lemma_inter_rest_progress(ts, j, l, legacy, end);
    }
}

proof fn lemma_union_rest_progress(ts: Seq<(TokV, nat)>, j: int, left: ExprV, legacy: bool, end: nat)
    requires
        0 <= j <= ts.len(),
    ensures
        p_union_rest(ts, j, left, legacy, end) matches Ok((_, k)) ==> j <= k <= ts.len(),
    decreases ts.len() - j, 0int,
{
    if kind_at(ts, j) == Some(TokV::Pipe) {
        lemma_inter_progress(ts, j + 1, legacy, end);
        if let Ok((r, k)) = p_inter(ts, j + 1, legacy, end) {
            lemma_union_rest_progress(ts, k, ExprV::Union(Box::new(left), Box::new(r)), legacy, end);
        }
    }
}

proof fn lemma_union_progress(ts: Seq<(TokV, nat)>, i: int, legacy: bool, end: nat)
    requires
        0 <= i <= ts.len(),
    ensures
        p_union(ts, i, legacy, end) matches Ok((_, k)) ==> i < k <= ts.len(),
    decreases ts.len() - i, 5int,
{
    lemma_inter_progress(ts, i, legacy, end);
    if let Ok((l, j)) = p_inter(ts, i, legacy, end) {
        lemma_union_rest_progress(ts, j, l, legacy, end);
    }
}

// ---------------------------------------------------------------------------
// Parser
// ---------------------------------------------------------------------------

/// Why parsing failed and the position the failure points at.
pub struct ParseFailure {
    pub message: String,
    pub position: usize,
}

impl ParseFailure {
    pub open spec fn view(&self) -> Failure {
        (self.message@, self.position as nat)
    }
}

pub open spec fn opt_kind_view(k: Option<TokenKind>) -> Option<TokV> {
    match k {
        Some(k) => Some(k@),
        None => None,
    }
}

/// A kind that carries no text or number.
pub open spec fn is_plain(k: TokV) -> bool {
    !(k is Ident || k is Str || k is Number)
}

/// `r` is what the specification `s` gives, with the parser left at `pos`.
pub open spec fn expr_outcome(s: Result<(ExprV, int), Failure>, r: Result<Expr, ParseFailure>, pos: usize) -> bool {
    match s {
        Ok((e, j)) => r matches Ok(x) && x@ == e && pos == j,
        Err(f) => r matches Err(x) && x@ == f,
    }
}

pub open spec fn arg_outcome(s: Result<(ArgV, int), Failure>, r: Result<Arg, ParseFailure>, pos: usize) -> bool {
    match s {
        Ok((a, j)) => r matches Ok(x) && x@ == a && pos == j,
        Err(f) => r matches Err(x) && x@ == f,
    }
}

fn copy_kind(k: &TokenKind) -> (r: TokenKind)
    ensures
        r@ == k@,
{
    match k {
        TokenKind::LParen => TokenKind::LParen,
        TokenKind::RParen => TokenKind::RParen,
        TokenKind::Pipe => TokenKind::Pipe,
        TokenKind::Ampersand => TokenKind::Ampersand,
        TokenKind::Tilde => TokenKind::Tilde,
        TokenKind::Comma => TokenKind::Comma,
        TokenKind::DotDot => TokenKind::DotDot,
        TokenKind::Ident(s) => TokenKind::Ident(s.clone()),
        TokenKind::Str(s) => TokenKind::Str(s.clone()),
        TokenKind::Number(n) => TokenKind::Number(*n),
        TokenKind::Colon => TokenKind::Colon,
    }
}

fn same_plain_kind(a: &TokenKind, b: &TokenKind) -> (r: bool)
    requires
        is_plain(b@),
    ensures
        r == (a@ == b@),
{
    match (a, b) {
        (TokenKind::LParen, TokenKind::LParen) => true,
        (TokenKind::RParen, TokenKind::RParen) => true,
        (TokenKind::Pipe, TokenKind::Pipe) => true,
        (TokenKind::Ampersand, TokenKind::Ampersand) => true,
        (TokenKind::Tilde, TokenKind::Tilde) => true,
        (TokenKind::Comma, TokenKind::Comma) => true,
        (TokenKind::DotDot, TokenKind::DotDot) => true,
        (TokenKind::Colon, TokenKind::Colon) => true,
        _ => false,
    }
}

/// `format!("{:?}", kind)`.
fn kind_debug(k: &TokenKind) -> (r: String)
    ensures
        r@ == tok_debug(k@),
{
    match k {
        TokenKind::LParen => string_of("LParen"),
        TokenKind::RParen => string_of("RParen"),
        TokenKind::Pipe => string_of("Pipe"),
        TokenKind::Ampersand => string_of("Ampersand"),
        TokenKind::Tilde => string_of("Tilde"),
        TokenKind::Comma => string_of("Comma"),
        TokenKind::DotDot => string_of("DotDot"),
        TokenKind::Ident(s) => {
            let mut r = string_of("Ident(");
            let d = debug_str(s.as_str());
            push_str(&mut r, d.as_str());
            push_str(&mut r, ")");
            r
        },
        TokenKind::Str(s) => {
            let mut r = string_of("Str(");
            let d = debug_str(s.as_str());
            push_str(&mut r, d.as_str());
            push_str(&mut r, ")");
            r
        },
        TokenKind::Number(n) => {
            let mut r = string_of("Number(");
            let d = decimal_string(*n);
            push_str(&mut r, d.as_str());
            push_str(&mut r, ")");
            r
        },
        TokenKind::Colon => string_of("Colon"),
    }
}

/// `format!("{:?}", found)`.
fn found_debug(k: &Option<TokenKind>) -> (r: String)
    ensures
        r@ == opt_tok_debug(opt_kind_view(*k)),
{
    match k {
        Some(k) => {
            let mut r = string_of("Some(");
            let d = kind_debug(k);
            push_str(&mut r, d.as_str());
            push_str(&mut r, ")");
            r
        },
        None => string_of("None"),
    }
}

/// Concatenation of two strings.
fn concat(a: &str, b: &str) -> (r: String)
    ensures
        r@ == a@ + b@,
{
    let mut r = string_of(a);
    push_str(&mut r, b);
    r
}

struct Parser {
    tokens: Vec<Token>,
    pos: usize,
    end: usize,
    legacy: bool,
}

impl Parser {
    spec fn ts(&self) -> Seq<(TokV, nat)> {
        tokens_view(self.tokens@)
    }

    spec fn wf(&self) -> bool {
        self.pos <= self.tokens@.len()
    }

    /// The same tokens and settings as `other`, at any position.
    spec fn same(&self, other: &Parser) -> bool {
        &&& self.tokens == other.tokens
        &&& self.end == other.end
        &&& self.legacy == other.legacy
        &&& self.wf()
    }

    fn new(tokens: Vec<Token>, end: usize, legacy: bool) -> (p: Self)
        ensures
            p.tokens == tokens,
            p.pos == 0,
            p.end == end,
            p.legacy == legacy,
    {
        Parser { tokens, pos: 0, end, legacy }
    }

    fn peek_kind(&self) -> (r: Option<TokenKind>)
        ensures
            opt_kind_view(r) == kind_at(self.ts(), self.pos as int),
            r is Some <==> self.pos < self.tokens@.len(),
    {
        if self.pos < self.tokens.len() {
            Some(copy_kind(&self.tokens[self.pos].kind))
        } else {
            None
        }
    }

    fn peek_is(&self, k: &TokenKind) -> (r: bool)
        requires
            is_plain(k@),
        ensures
            r == (kind_at(self.ts(), self.pos as int) == Some(k@)),
    {
        if self.pos < self.tokens.len() {
            same_plain_kind(&self.tokens[self.pos].kind, k)
        } else {
            false
        }
    }

    fn next_kind(&mut self) -> (r: Option<TokenKind>)
        requires
            old(self).wf(),
        ensures
            final(self).same(old(self)),
            opt_kind_view(r) == kind_at(old(self).ts(), old(self).pos as int),
            final(self).pos == (if old(self).pos < old(self).tokens@.len() {
                old(self).pos + 1
            } else {
                old(self).pos as int
            }),
    {
        let r = self.peek_kind();
        if self.pos < self.tokens.len() {
            self.pos += 1;
        }
        r
    }

    /// Step past the current token.
    fn advance(&mut self)
        requires
            old(self).pos < old(self).tokens@.len(),
        ensures
            final(self).same(old(self)),
            final(self).pos == old(self).pos + 1,
    {
        if self.pos < self.tokens.len() {
            self.pos += 1;
        }
    }

    fn current_pos(&self) -> (p: usize)
        ensures
            p == pos_at(self.ts(), self.pos as int, self.end as nat),
    {
        if self.pos < self.tokens.len() {
            self.tokens[self.pos].pos
        } else {
            self.end
        }
    }

    /// `msg`, followed in the legacy dialect by what was found instead.
    fn with_found(&self, msg: &str, found: &Option<TokenKind>) -> (r: String)
        ensures
            r@ == with_found(self.legacy, msg@, opt_kind_view(*found)),
    {
        if self.legacy {
            let mut r = concat(msg, ", got ");
            let d = found_debug(found);
            push_str(&mut r, d.as_str());
            r
        } else {
            string_of(msg)
        }
    }

    fn expect(&mut self, k: &TokenKind) -> (r: Result<(), ParseFailure>)
        requires
            old(self).wf(),
            is_plain(k@),
        ensures
            final(self).same(old(self)),
            match p_expect(old(self).ts(), old(self).pos as int, k@, old(self).end as nat) {
                Ok(j) => r is Ok && final(self).pos == j,
                Err(f) => r matches Err(x) && x@ == f,
            },
    {
        if self.pos < self.tokens.len() {
            let tok_pos = self.tokens[self.pos].pos;
            if same_plain_kind(&self.tokens[self.pos].kind, k) {
                self.pos += 1;
                Ok(())
            } else {
                let mut m = concat("expected ", kind_debug(k).as_str());
                push_str(&mut m, ", got ");
                let d = kind_debug(&self.tokens[self.pos].kind);
                push_str(&mut m, d.as_str());
                self.pos += 1;
                Err(ParseFailure { message: m, position: tok_pos })
            }
        } else {
            let mut m = concat("expected ", kind_debug(k).as_str());
            push_str(&mut m, ", got end of input");
            Err(ParseFailure { message: m, position: self.end })
        }
    }

    fn parse_arg(&mut self) -> (r: Result<Arg, ParseFailure>)
        requires
            old(self).wf(),
        ensures
            final(self).same(old(self)),
            arg_outcome(
                p_arg(old(self).ts(), old(self).pos as int, old(self).legacy, old(self).end as nat),
                r,
                final(self).pos,
            ),
    {
        let first = self.peek_kind();
        match first {
            Some(TokenKind::Number(n)) => {
                self.advance();
                if self.peek_is(&TokenKind::DotDot) {
                    self.advance();
                    let second = self.next_kind();
                    match second {
                        Some(TokenKind::Number(m)) => Ok(Arg::Range(n, m)),
                        other => {
                            let msg = self.with_found("expected number after '..'", &other);
                            Err(ParseFailure { message: msg, position: self.current_pos() })
                        },
                    }
                } else {
                    Ok(Arg::Pattern(StringPattern { kind: PatternKind::Exact, value: decimal_string(n) }))
                }
            },
            Some(TokenKind::Str(value)) => {
                self.advance();
                Ok(Arg::Pattern(StringPattern { kind: PatternKind::Substring, value }))
            },
            Some(TokenKind::Ident(ident)) => {
                self.advance();
                if self.peek_is(&TokenKind::Colon) {
                    let kind = if str_eq(ident.as_str(), "exact") {
                        PatternKind::Exact
                    } else if str_eq(ident.as_str(), "substring") {
                        PatternKind::Substring
                    } else if str_eq(ident.as_str(), "glob") {
                        PatternKind::Glob
                    } else if str_eq(ident.as_str(), "regex") {
                        PatternKind::Regex
                    } else {
                        let mut msg = concat("unknown pattern kind '", ident.as_str());
                        push_str(&mut msg, "'");
                        return Err(ParseFailure { message: msg, position: self.current_pos() });
                    };
                    self.advance();
                    let third = self.next_kind();
                    match third {
                        Some(TokenKind::Str(value)) => Ok(Arg::Pattern(StringPattern { kind, value })),
                        Some(TokenKind::Ident(value)) => Ok(Arg::Pattern(StringPattern { kind, value })),
                        other => {
                            let mut m = concat("expected string after '", ident.as_str());
                            push_str(&mut m, ":'");
                            let msg = self.with_found(m.as_str(), &other);
                            Err(ParseFailure { message: msg, position: self.current_pos() })
                        },
                    }
                } else {
                    Ok(Arg::Pattern(StringPattern { kind: PatternKind::Exact, value: ident }))
                }
            },
            other => {
                let msg = self.with_found("expected argument", &other);
                Err(ParseFailure { message: msg, position: self.current_pos() })
            },
        }
    }

    fn parse_call(&mut self) -> (r: Result<Expr, ParseFailure>)
        requires
            old(self).wf(),
        ensures
            final(self).same(old(self)),
            expr_outcome(
                p_call(old(self).ts(), old(self).pos as int, old(self).legacy, old(self).end as nat),
                r,
                final(self).pos,
            ),
    {
        let ghost ts = self.ts();
        let ghost i = self.pos as int;
        let ghost legacy = self.legacy;
        let ghost end = self.end as nat;
        let first = self.next_kind();
        let name = match first {
            Some(TokenKind::Ident(name)) => name,
            other => {
                let msg = self.with_found("expected function name", &other);
                return Err(ParseFailure { message: msg, position: self.current_pos() });
            },
        };
        let is_all = str_eq(name.as_str(), "all");
        let is_none = str_eq(name.as_str(), "none");
        if !self.peek_is(&TokenKind::LParen) {
            if is_all {
                return Ok(Expr::All);
            }
            if is_none {
                return Ok(Expr::Empty);
            }
            let msg = if self.legacy {
                concat("expected '(' after function name '", name.as_str())
            } else {
                concat("expected '(' after '", name.as_str())
            };
            let mut msg = msg;
            push_str(&mut msg, "'");
            return Err(ParseFailure { message: msg, position: self.current_pos() });
        }
        self.advance();
        if is_all || is_none {
            match self.expect(&TokenKind::RParen) {
                Ok(()) => {},
                Err(f) => {
                    return Err(f);
                },
            }
            return Ok(if is_all { Expr::All } else { Expr::Empty });
        }
        let mut args: Vec<Arg> = Vec::new();
        if !self.peek_is(&TokenKind::RParen) {
            proof {
                lemma_arg_progress(ts, i + 2, legacy, end);
            }
            let a = match self.parse_arg() {
                Ok(a) => a,
                Err(f) => {
                    return Err(f);
                },
            };
            args.push(a);
            assert(args_view(args@) == seq![a@]);
            while self.peek_is(&TokenKind::Comma)
                invariant
                    self.same(old(self)),
                    ts == self.ts(),
                    legacy == self.legacy,
                    end == self.end,
                    i == old(self).pos,
                    p_call(ts, i, legacy, end) == p_call_tail(ts, name@, self.pos as int, args_view(args@), legacy, end),
                decreases ts.len() - self.pos,
            {
                let ghost j = self.pos as int;
                let ghost before = args_view(args@);
                self.advance();
                proof {
                    lemma_arg_progress(ts, j + 1, legacy, end);
                }
                let a = match self.parse_arg() {
                    Ok(a) => a,
                    Err(f) => {
                        assert(p_args_rest(ts, j, before, legacy, end) == Err::<(Seq<ArgV>, int), Failure>(f@));
                        return Err(f);
                    },
                };
                args.push(a);
                assert(args_view(args@) == before.push(a@));
            }
        }
        proof {
            if args@.len() == 0 {
                assert(args_view(args@) =~= Seq::<ArgV>::empty());
            } else {
                assert(p_args_rest(ts, self.pos as int, args_view(args@), legacy, end) == Ok::<(Seq<ArgV>, int), Failure>((args_view(args@), self.pos as int)));
            }
        }
        match self.expect(&TokenKind::RParen) {
            Ok(()) => {},
            Err(f) => {
                return Err(f);
            },
        }
        Ok(Expr::Function(name, args))
    }

    fn parse_atom(&mut self) -> (r: Result<Expr, ParseFailure>)
        requires
            old(self).wf(),
        ensures
            final(self).same(old(self)),
            expr_outcome(
                p_atom(old(self).ts(), old(self).pos as int, old(self).legacy, old(self).end as nat),
                r,
                final(self).pos,
            ),
        decreases old(self).tokens@.len() - old(self).pos, 1int,
    {
        let first = self.peek_kind();
        match first {
            Some(TokenKind::LParen) => {
                self.advance();
                let e = match self.parse_union() {
                    Ok(e) => e,
                    Err(f) => {
                        return Err(f);
                    },
                };
                match self.expect(&TokenKind::RParen) {
                    Ok(()) => {},
                    Err(f) => {
                        return Err(f);
                    },
                }
                Ok(e)
            },
            Some(TokenKind::Ident(_)) => self.parse_call(),
            other => {
                let msg = self.with_found("expected function or '('", &other);
                Err(ParseFailure { message: msg, position: self.current_pos() })
            },
        }
    }

    fn parse_negation(&mut self) -> (r: Result<Expr, ParseFailure>)
        requires
            old(self).wf(),
        ensures
            final(self).same(old(self)),
            expr_outcome(
                p_neg(old(self).ts(), old(self).pos as int, old(self).legacy, old(self).end as nat),
                r,
                final(self).pos,
            ),
        decreases old(self).tokens@.len() - old(self).pos, 2int,
    {
        if self.peek_is(&TokenKind::Tilde) {
            self.advance();
            let inner = if self.legacy {
                self.parse_atom()
            } else {
                self.parse_negation()
            };
            match inner {
                Ok(e) => Ok(Expr::Negation(Box::new(e))),
                Err(f) => Err(f),
            }
        } else {
            self.parse_atom()
        }
    }

    fn parse_difference(&mut self) -> (r: Result<Expr, ParseFailure>)
        requires
            old(self).wf(),
        ensures
            final(self).same(old(self)),
            expr_outcome(
                p_diff(old(self).ts(), old(self).pos as int, old(self).legacy, old(self).end as nat),
                r,
                final(self).pos,
            ),
        decreases old(self).tokens@.len() - old(self).pos, 3int,
    {
        let ghost ts = self.ts();
        let ghost i = self.pos as int;
        proof {
            lemma_neg_progress(ts, i, self.legacy, self.end as nat);
        }
        let left = match self.parse_negation() {
            Ok(e) => e,
            Err(f) => {
                return Err(f);
            },
        };
        if self.peek_is(&TokenKind::Tilde) {
            self.advance();
            match self.parse_negation() {
                Ok(right) => Ok(Expr::Difference(Box::new(left), Box::new(right))),
                Err(f) => Err(f),
            }
        } else {
            Ok(left)
        }
    }

    fn parse_intersection(&mut self) -> (r: Result<Expr, ParseFailure>)
        requires
            old(self).wf(),
        ensures
            final(self).same(old(self)),
            expr_outcome(
                p_inter(old(self).ts(), old(self).pos as int, old(self).legacy, old(self).end as nat),
                r,
                final(self).pos,
            ),
        decreases old(self).tokens@.len() - old(self).pos, 4int,
    {
        let ghost ts = self.ts();
        let ghost i = self.pos as int;
        let ghost legacy = self.legacy;
        let ghost end = self.end as nat;
        proof {
            lemma_diff_progress(ts, i, legacy, end);
        }
        let mut left = match self.parse_difference() {
            Ok(e) => e,
            Err(f) => {
                return Err(f);
            },
        };
        while self.peek_is(&TokenKind::Ampersand)
            invariant
                self.same(old(self)),
                ts == self.ts(),
                legacy == self.legacy,
                end == self.end,
                i < self.pos,
                i == old(self).pos,
                p_inter(ts, i, legacy, end) == p_inter_rest(ts, self.pos as int, left@, legacy, end),
            decreases ts.len() - self.pos,
        {
            let ghost j = self.pos as int;
            self.advance();
            proof {
                lemma_diff_progress(ts, j + 1, legacy, end);
            }
            let right = match self.parse_difference() {
                Ok(e) => e,
                Err(f) => {
                    return Err(f);
                },
            };
            left = Expr::Intersection(Box::new(left), Box::new(right));
        }
        Ok(left)
    }

    fn parse_union(&mut self) -> (r: Result<Expr, ParseFailure>)
        requires
            old(self).wf(),
        ensures
            final(self).same(old(self)),
            expr_outcome(
                p_union(old(self).ts(), old(self).pos as int, old(self).legacy, old(self).end as nat),
                r,
                final(self).pos,
            ),
        decreases old(self).tokens@.len() - old(self).pos, 5int,
    {
        let ghost ts = self.ts();
        let ghost i = self.pos as int;
        let ghost legacy = self.legacy;
        let ghost end = self.end as nat;
        proof {
            lemma_inter_progress(ts, i, legacy, end);
        }
        let mut left = match self.parse_intersection() {
            Ok(e) => e,
            Err(f) => {
                return Err(f);
            },
        };
        while self.peek_is(&TokenKind::Pipe)
            invariant
                self.same(old(self)),
                ts == self.ts(),
                legacy == self.legacy,
                end == self.end,
                i < self.pos,
                i == old(self).pos,
                p_union(ts, i, legacy, end) == p_union_rest(ts, self.pos as int, left@, legacy, end),
            decreases ts.len() - self.pos,
        {
            let ghost j = self.pos as int;
            self.advance();
            proof {
                lemma_inter_progress(ts, j + 1, legacy, end);
            }
            let right = match self.parse_intersection() {
                Ok(e) => e,
                Err(f) => {
                    return Err(f);
                },
            };
            left = Expr::Union(Box::new(left), Box::new(right));
        }
        Ok(left)
    }

    /// Parse the whole token sequence as one expression.
    fn parse(&mut self) -> (r: Result<Expr, ParseFailure>)
        requires
            old(self).wf(),
            old(self).pos == 0,
        ensures
            match p_top(old(self).ts(), old(self).legacy, old(self).end as nat) {
                Ok(e) => r matches Ok(x) && x@ == e,
                Err(f) => r matches Err(x) && x@ == f,
            },
    {
        let expr = match self.parse_union() {
            Ok(e) => e,
            Err(f) => {
                return Err(f);
            },
        };
        if self.pos < self.tokens.len() {
            let d = kind_debug(&self.tokens[self.pos].kind);
            let msg = if self.legacy {
                concat("unexpected token ", d.as_str())
            } else {
                concat("unexpected ", d.as_str())
            };
            return Err(ParseFailure { message: msg, position: self.tokens[self.pos].pos });
        }
        Ok(expr)
    }
}

// ---------------------------------------------------------------------------
// Entry point
// ---------------------------------------------------------------------------

/// The index of the last occurrence of `pat` in `s` that starts at or
/// before `i`, or -1.
pub open spec fn last_occurrence(s: Seq<char>, pat: Seq<char>, i: int) -> int
    decreases i + 1,
{
    if i < 0 {
        -1
    } else if occurs_at(s, pat, i) {
        i
    } else {
        last_occurrence(s, pat, i - 1)
    }
}

/// The number after the last `position ` in a tokenizer message, or 0.
pub open spec fn message_position(m: Seq<char>) -> nat {
    let marker = "position "@;
    let k = last_occurrence(m, marker, m.len() - marker.len());
    if k < 0 {
        0
    } else {
        match parse_usize(trim(m.subrange(k + marker.len(), m.len() as int))) {
            Some(n) => n as nat,
            None => 0,
        }
    }
}

/// What parsing the text `s`, whose UTF-8 encoding is `end` bytes long, gives.
pub open spec fn parse_spec(s: Seq<char>, end: nat) -> Result<ExprV, Failure> {
    match lex_checked(s) {
        Err((m, _)) => Err((m, message_position(m))),
        Ok(ts) => {
            if ts.len() == 0 {
                Err((empty_message(false), 0))
            } else {
                p_top(ts, false, end)
            }
        },
    }
}

/// What the legacy dialect gives for the text `s`.
pub open spec fn legacy_parse_spec(s: Seq<char>) -> Result<ExprV, Seq<char>> {
    match lex_checked(s) {
        Err((m, _)) => Err(m),
        Ok(ts) => {
            if ts.len() == 0 {
                Err(empty_message(true))
            } else {
                match p_top(ts, true, 0) {
                    Ok(e) => Ok(e),
                    Err((m, _)) => Err(m),
                }
            }
        },
    }
}

fn chars_between(v: &[char], lo: usize, hi: usize) -> (r: Vec<char>)
    requires
        lo <= hi <= v@.len(),
    ensures
        r@ == v@.subrange(lo as int, hi as int),
{
    let mut r: Vec<char> = Vec::new();
    let mut k = lo;
    while k < hi
        invariant
            lo <= k <= hi <= v@.len(),
            r@ == v@.subrange(lo as int, k as int),
        decreases hi - k,
    {
        r.push(v[k]);
        k += 1;
        assert(r@ == v@.subrange(lo as int, k as int));
    }
    r
}

/// Read back the position a tokenizer message names.
fn message_position_exec(m: &str) -> (p: usize)
    ensures
        p == message_position(m@),
{
    let v = chars_of(m);
    let marker = chars_of("position ");
    let n = v.len();
    let w = marker.len();
    if n < w {
        assert(last_occurrence(m@, "position "@, m@.len() - w) == -1);
        return 0;
    }
    let mut i = n - w;
    loop
        invariant
            n == v@.len(),
            w == marker@.len(),
            v@ == m@,
            marker@ == "position "@,
            i <= n - w,
            last_occurrence(m@, "position "@, n - w) == last_occurrence(m@, "position "@, i as int),
        ensures
            i <= n - w,
            last_occurrence(m@, "position "@, n - w) == i,
        decreases i,
    {
        if occurs_at_exec(v.as_slice(), marker.as_slice(), i) {
            break;
        }
        if i == 0 {
            assert(last_occurrence(m@, "position "@, -1) == -1);
            return 0;
        }
        i -= 1;
    }
    let rest = chars_between(v.as_slice(), i + w, n);
    let (lo, hi) = trim_bounds(rest.as_slice());
    let digits = chars_between(rest.as_slice(), lo, hi);
    match parse_usize_exec(digits.as_slice()) {
        Some(k) => k,
        None => 0,
    }
}

/// Parse a hunkset expression into its syntax tree.
pub fn parse(input: &str) -> (r: Result<Expr, HunksetError>)
    ensures
        match parse_spec(input@, input.len() as nat) {
            Ok(e) => r matches Ok(x) && x@ == e,
            Err((m, p)) => r matches Err(HunksetError::Parse { message, input: text, position })
                && message@ == m && text@ == input@ && position == p,
        },
{
    let mut tokenizer = Tokenizer::new(input);
    let tokens = match tokenizer.tokenize() {
        Ok(t) => t,
        Err(e) => {
            let position = message_position_exec(e.as_str());
            return Err(HunksetError::Parse { message: e, input: string_of(input), position });
        },
    };
    if tokens.len() == 0 {
        return Err(
            HunksetError::Parse {
                message: string_of("empty expression"),
                input: string_of(input),
                position: 0,
            },
        );
    }
    match parse_tokens(tokens, input.len(), false) {
        Ok(e) => Ok(e),
        Err(f) => Err(HunksetError::Parse { message: f.message, input: string_of(input), position: f.position }),
    }
}

/// Parse a non-empty token sequence as one expression, in the given dialect;
/// `end` is the position reported past the last token.
pub(crate) fn parse_tokens(tokens: Vec<Token>, end: usize, legacy: bool) -> (r: Result<Expr, ParseFailure>)
    ensures
        match p_top(tokens_view(tokens@), legacy, end as nat) {
            Ok(e) => r matches Ok(x) && x@ == e,
            Err(f) => r matches Err(x) && x@ == f,
        },
{
    let mut parser = Parser::new(tokens, end, legacy);
    parser.parse()
}

} // verus!
