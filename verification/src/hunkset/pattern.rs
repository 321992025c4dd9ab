//! String patterns, with regular expressions compiled once up front.
use vstd::prelude::*;
use crate::glob::{glob_match, glob_spec};
use crate::hunkset::ast::{PatternKind, PatternV, StringPattern};
use crate::hunkset::error::HunksetError;
use crate::text::{contains_seq, str_contains, str_eq, string_of};

verus! {

#[verifier::external_type_specification]
#[verifier::external_body]
pub struct ExRegex(regex::Regex);

#[verifier::external_type_specification]
#[verifier::external_body]
pub struct ExRegexError(regex::Error);

/// Whether `regex::Regex::new` accepts `pattern`.
pub uninterp spec fn regex_compiles(pattern: Seq<char>) -> bool;

/// Whether the regex compiled from `pattern` matches somewhere in `haystack`.
pub uninterp spec fn regex_finds(pattern: Seq<char>, haystack: Seq<char>) -> bool;

/// A compiled regex together with the pattern it was compiled from.
pub struct CompiledRegex {
    re: regex::Regex,
    source: Ghost<Seq<char>>,
}

/// Calls `regex::Regex::new`. The contract claims that it succeeds exactly
/// when `regex_compiles` holds of the pattern, and records the pattern the
/// regex came from.
#[verifier::external_body]
fn compile_regex(pattern: &str) -> (r: Result<CompiledRegex, regex::Error>)
    ensures
        r is Ok <==> regex_compiles(pattern@),
        r matches Ok(c) ==> c.source@ == pattern@,
{
    match regex::Regex::new(pattern) {
        Ok(re) => Ok(CompiledRegex { re, source: Ghost(pattern@) }),
        Err(e) => Err(e),
    }
}

/// Calls `regex::Regex::is_match`. The contract claims that the answer is
/// determined by the pattern the regex was compiled from and the haystack.
#[verifier::external_body]
fn regex_is_match(c: &CompiledRegex, haystack: &str) -> (b: bool)
    ensures
        b == regex_finds(c.source@, haystack@),
{
    c.re.is_match(haystack)
}

/// Whether `haystack` matches the pattern `p`.
pub open spec fn pattern_matches(p: PatternV, haystack: Seq<char>) -> bool {
    match p.kind {
        PatternKind::Exact => haystack == p.value,
        PatternKind::Substring => contains_seq(haystack, p.value),
        PatternKind::Glob => glob_spec(p.value, haystack),
        PatternKind::Regex => regex_finds(p.value, haystack),
    }
}

/// Whether the pattern can be compiled: anything but a regex the regex
/// crate refuses.
pub open spec fn pattern_compiles(p: PatternV) -> bool {
    p.kind == PatternKind::Regex ==> regex_compiles(p.value)
}

/// A pattern with its regex (if it is one) compiled.
pub struct CompiledPattern {
    kind: PatternKind,
    value: String,
    compiled_regex: Option<CompiledRegex>,
}

impl CompiledPattern {
    pub closed spec fn view(&self) -> PatternV {
        PatternV { kind: self.kind, value: self.value@ }
    }

    #[verifier::type_invariant]
    closed spec fn regex_present(self) -> bool {
        match self.compiled_regex {
            Some(c) => self.kind == PatternKind::Regex && c.source@ == self.value@,
            None => self.kind != PatternKind::Regex,
        }
    }

    /// Compile `pattern`; a regex the regex crate refuses is an error.
    pub fn compile(pattern: &StringPattern) -> (r: Result<Self, HunksetError>)
        ensures
            r is Ok <==> pattern_compiles(pattern@),
            r matches Ok(c) ==> c@ == pattern@,
            r matches Err(e) ==> (e matches HunksetError::InvalidRegex { pattern: p, .. } && p@
                == pattern.value@),
    {
        let compiled_regex = if pattern.kind == PatternKind::Regex {
            match compile_regex(pattern.value.as_str()) {
                Ok(c) => Some(c),
                Err(e) => {
                    return Err(
                        HunksetError::InvalidRegex { pattern: pattern.value.clone(), source: e },
                    );
                },
            }
        } else {
            None
        };
        Ok(CompiledPattern { kind: pattern.kind, value: pattern.value.clone(), compiled_regex })
    }

    pub fn matches(&self, haystack: &str) -> (b: bool)
        ensures
            b == pattern_matches(self@, haystack@),
    {
        proof {
            use_type_invariant(self);
        }
        match self.kind {
            PatternKind::Exact => str_eq(haystack, self.value.as_str()),
            PatternKind::Substring => str_contains(haystack, self.value.as_str()),
            PatternKind::Glob => glob_match(self.value.as_str(), haystack),
            PatternKind::Regex => match &self.compiled_regex {
                Some(re) => regex_is_match(re, haystack),
                None => false,
            },
        }
    }

    pub fn value(&self) -> (s: &str)
        ensures
            s@ == self@.value,
    {
        self.value.as_str()
    }
}

pub open spec fn patterns_view(ps: Seq<StringPattern>) -> Seq<PatternV> {
    ps.map_values(|p: StringPattern| p@)
}

pub open spec fn compiled_view(ps: Seq<CompiledPattern>) -> Seq<PatternV> {
    ps.map_values(|p: CompiledPattern| p@)
}

/// Index of the first pattern that does not compile, if any.
pub open spec fn first_uncompilable(ps: Seq<PatternV>) -> Option<int> {
    if exists|k: int| 0 <= k < ps.len() && !pattern_compiles(#[trigger] ps[k]) {
        Some(
            choose|k: int|
                0 <= k < ps.len() && !pattern_compiles(#[trigger] ps[k]) && forall|j: int|
                    0 <= j < k ==> pattern_compiles(#[trigger] ps[j]),
        )
    } else {
        None
    }
}

/// Compile every pattern, stopping at the first that does not compile.
pub fn compile_patterns(patterns: Vec<StringPattern>) -> (r: Result<Vec<CompiledPattern>, HunksetError>)
    ensures
        r is Ok <==> forall|k: int|
            0 <= k < patterns@.len() ==> pattern_compiles(#[trigger] patterns@[k]@),
        r matches Ok(v) ==> compiled_view(v@) == patterns_view(patterns@),
        r matches Err(e) ==> exists|k: int|
            0 <= k < patterns@.len() && !pattern_compiles(#[trigger] patterns@[k]@) && (forall|
                j: int,
            | 0 <= j < k ==> pattern_compiles(#[trigger] patterns@[j]@)) && (e matches HunksetError::InvalidRegex {
                pattern: p,
                ..
            } && p@ == patterns@[k].value@),
{
    let mut out: Vec<CompiledPattern> = Vec::new();
    let n = patterns.len();
    let mut i: usize = 0;
    while i < n
        invariant
            n == patterns@.len(),
            i <= n,
            out@.len() == i,
            forall|j: int| 0 <= j < i ==> pattern_compiles(#[trigger] patterns@[j]@),
            forall|j: int| 0 <= j < i ==> (#[trigger] out@[j])@ == patterns@[j]@,
        decreases n - i,
    {
        match CompiledPattern::compile(&patterns[i]) {
            Ok(c) => {
                out.push(c);
            },
            Err(e) => {
                return Err(e);
            },
        }
        i += 1;
    }
    assert(compiled_view(out@) == patterns_view(patterns@));
    Ok(out)
}

} // verus!
