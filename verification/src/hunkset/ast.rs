//! Syntax of hunkset expressions.
use vstd::prelude::*;

verus! {

/// A hunkset expression.
#[derive(Debug, PartialEq)]
pub enum Expr {
    All,
    Empty,
    Function(String, Vec<Arg>),
    Union(Box<Expr>, Box<Expr>),
    Intersection(Box<Expr>, Box<Expr>),
    Difference(Box<Expr>, Box<Expr>),
    Negation(Box<Expr>),
}

/// A function argument: a string pattern or a line range `a..b`.
#[derive(Debug, Clone, PartialEq)]
pub enum Arg {
    Pattern(StringPattern),
    Range(usize, usize),
}

/// A string pattern and how it matches.
#[derive(Debug, Clone, PartialEq)]
pub struct StringPattern {
    pub kind: PatternKind,
    pub value: String,
}

#[derive(Debug, Clone, Copy, PartialEq, Eq, Structural)]
pub enum PatternKind {
    Exact,
    Substring,
    Glob,
    Regex,
}

// ---------------------------------------------------------------------------
// Mathematical model
// ---------------------------------------------------------------------------

/// A pattern with its text as a character sequence.
pub struct PatternV {
    pub kind: PatternKind,
    pub value: Seq<char>,
}

pub enum ArgV {
    Pattern(PatternV),
    Range(usize, usize),
}

pub enum ExprV {
    All,
    Empty,
    Function(Seq<char>, Seq<ArgV>),
    Union(Box<ExprV>, Box<ExprV>),
    Intersection(Box<ExprV>, Box<ExprV>),
    Difference(Box<ExprV>, Box<ExprV>),
    Negation(Box<ExprV>),
}

impl StringPattern {
    pub open spec fn view(&self) -> PatternV {
        PatternV { kind: self.kind, value: self.value@ }
    }
}

impl Arg {
    pub open spec fn view(&self) -> ArgV {
        match self {
            Arg::Pattern(p) => ArgV::Pattern(p.view()),
            Arg::Range(a, b) => ArgV::Range(*a, *b),
        }
    }
}

pub open spec fn args_view(args: Seq<Arg>) -> Seq<ArgV> {
    args.map_values(|a: Arg| a.view())
}

pub open spec fn expr_view(e: Expr) -> ExprV
    decreases e,
{
    match e {
        Expr::All => ExprV::All,
        Expr::Empty => ExprV::Empty,
        Expr::Function(name, args) => ExprV::Function(name@, args_view(args@)),
        Expr::Union(l, r) => ExprV::Union(Box::new(expr_view(*l)), Box::new(expr_view(*r))),
        Expr::Intersection(l, r) => ExprV::Intersection(
            Box::new(expr_view(*l)),
            Box::new(expr_view(*r)),
        ),
        Expr::Difference(l, r) => ExprV::Difference(
            Box::new(expr_view(*l)),
            Box::new(expr_view(*r)),
        ),
        Expr::Negation(inner) => ExprV::Negation(Box::new(expr_view(*inner))),
    }
}

impl Expr {
    pub open spec fn view(&self) -> ExprV {
        expr_view(*self)
    }
}

} // verus!
