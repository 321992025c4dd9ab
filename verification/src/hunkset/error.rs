//! Errors of parsing and evaluating hunkset expressions.
use vstd::prelude::*;
use crate::text::{push_char, push_str, starts_with, string_of};

verus! {

#[derive(Debug)]
pub enum HunksetError {
    /// The expression does not parse; `position` points into `input`.
    Parse { message: String, input: String, position: usize },
    UnknownFunction { name: String },
    InvalidRegex { pattern: String, source: regex::Error },
    SemanticFeatureRequired { name: String },
}

/// `n` spaces.
pub open spec fn spaces(n: nat) -> Seq<char> {
    Seq::new(n, |i: int| ' ')
}

/// The one-line description of an error other than a parse error.
pub open spec fn unknown_function_text(name: Seq<char>) -> Seq<char> {
    "unknown function '"@ + name + "'"@
}

pub open spec fn invalid_regex_prefix(pattern: Seq<char>) -> Seq<char> {
    "invalid regex '"@ + pattern + "': "@
}

pub open spec fn semantic_required_text(name: Seq<char>) -> Seq<char> {
    name + "() requires the 'semantic' feature (build with --features semantic)"@
}

/// Calls the `Display` formatting of `regex::Error`. Nothing is claimed of
/// the text, which the regex crate words.
#[verifier::external_body]
fn regex_error_text(e: &regex::Error) -> String {
    format!("{}", e)
}

impl HunksetError {
    /// The error as text; a parse error shows the input with a caret under
    /// the position it points at, then the message.
    pub fn display_with_context(&self) -> (r: String)
        ensures
            match self {
                HunksetError::Parse { message, input, position } => r@ == input@ + "\n"@
                    + spaces(*position as nat) + "^\n"@ + message@,
                HunksetError::UnknownFunction { name } => r@ == unknown_function_text(name@),
                HunksetError::InvalidRegex { pattern, .. } => starts_with(
                    r@,
                    invalid_regex_prefix(pattern@),
                ),
                HunksetError::SemanticFeatureRequired { name } => r@ == semantic_required_text(
                    name@,
                ),
            },
    {
        match self {
            HunksetError::Parse { message, input, position } => {
                let mut r = string_of(input.as_str());
                push_str(&mut r, "\n");
                let mut k: usize = 0;
                while k < *position
                    invariant
                        k <= *position,
                        r@ == input@ + "\n"@ + spaces(k as nat),
                    decreases *position - k,
                {
                    push_char(&mut r, ' ');
                    k += 1;
                    assert(r@ == input@ + "\n"@ + spaces(k as nat));
                }
                push_str(&mut r, "^\n");
                push_str(&mut r, message.as_str());
                r
            },
            HunksetError::UnknownFunction { name } => {
                let mut r = string_of("unknown function '");
                push_str(&mut r, name.as_str());
                push_str(&mut r, "'");
                r
            },
            HunksetError::InvalidRegex { pattern, source } => {
                let mut r = string_of("invalid regex '");
                push_str(&mut r, pattern.as_str());
                push_str(&mut r, "': ");
                let ghost prefix = r@;
                let text = regex_error_text(source);
                push_str(&mut r, text.as_str());
                assert(r@.take(prefix.len() as int) == prefix);
                r
            },
            HunksetError::SemanticFeatureRequired { name } => {
                let mut r = string_of(name.as_str());
                push_str(&mut r, "() requires the 'semantic' feature (build with --features semantic)");
                r
            },
        }
    }
}

} // verus!
