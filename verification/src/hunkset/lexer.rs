//! Tokens of the hunkset language and the tokenizer that produces them.
use vstd::prelude::*;
use crate::spec::{parse_usize, parse_usize_exec};
use crate::text::{all_digits, chars_of, char_is_ws, decimal, decimal_string, digits_value,
    is_ascii_alpha, is_ascii_digit, is_ws, push_char, push_str, string_from_chars, string_of};

verus! {

#[derive(Debug, Clone, PartialEq)]
pub enum TokenKind {
    LParen,
    RParen,
    Pipe,
    Ampersand,
    Tilde,
    Comma,
    DotDot,
    Ident(String),
    Str(String),
    Number(usize),
    Colon,
}

/// A token and the index of its first character in the input.
#[derive(Debug, Clone)]
pub struct Token {
    pub kind: TokenKind,
    pub pos: usize,
}

// ---------------------------------------------------------------------------
// Model
// ---------------------------------------------------------------------------

pub enum TokV {
    LParen,
    RParen,
    Pipe,
    Ampersand,
    Tilde,
    Comma,
    DotDot,
    Ident(Seq<char>),
    Str(Seq<char>),
    Number(usize),
    Colon,
}

impl TokenKind {
    pub open spec fn view(&self) -> TokV {
        match self {
            TokenKind::LParen => TokV::LParen,
            TokenKind::RParen => TokV::RParen,
            TokenKind::Pipe => TokV::Pipe,
            TokenKind::Ampersand => TokV::Ampersand,
            TokenKind::Tilde => TokV::Tilde,
            TokenKind::Comma => TokV::Comma,
            TokenKind::DotDot => TokV::DotDot,
            TokenKind::Ident(s) => TokV::Ident(s@),
            TokenKind::Str(s) => TokV::Str(s@),
            TokenKind::Number(n) => TokV::Number(*n),
            TokenKind::Colon => TokV::Colon,
        }
    }
}

impl Token {
    pub open spec fn view(&self) -> (TokV, nat) {
        (self.kind.view(), self.pos as nat)
    }
}

pub open spec fn tokens_view(ts: Seq<Token>) -> Seq<(TokV, nat)> {
    ts.map_values(|t: Token| t.view())
}

/// Outcome of tokenizing: the tokens with their positions, a failure with
/// its message and position, or a number literal (at the given position)
/// too large for `usize`.
pub enum LexV {
    Tokens(Seq<(TokV, nat)>),
    Failed(Seq<char>, nat),
    TooLarge(nat),
}

pub open spec fn is_ident_start_spec(c: char) -> bool {
    is_ascii_alpha(c) || c == '_'
}

pub open spec fn is_ident_char_spec(c: char) -> bool {
    is_ascii_alpha(c) || is_ascii_digit(c) || c == '_' || c == '-'
}

/// First index at or after `i` that holds no whitespace.
pub open spec fn ws_end(s: Seq<char>, i: int) -> int
    decreases s.len() - i,
{
    if 0 <= i < s.len() && is_ws(s[i]) {
        ws_end(s, i + 1)
    } else {
        i
    }
}

/// End of the run of digits starting at `i`.
pub open spec fn digit_end(s: Seq<char>, i: int) -> int
    decreases s.len() - i,
{
    if 0 <= i < s.len() && is_ascii_digit(s[i]) {
        digit_end(s, i + 1)
    } else {
        i
    }
}

/// End of the run of identifier characters starting at `i`.
pub open spec fn ident_end(s: Seq<char>, i: int) -> int
    decreases s.len() - i,
{
    if 0 <= i < s.len() && is_ident_char_spec(s[i]) {
        ident_end(s, i + 1)
    } else {
        i
    }
}

pub proof fn lemma_run_ends(s: Seq<char>, i: int)
    requires
        0 <= i <= s.len(),
    ensures
        i <= ws_end(s, i) <= s.len(),
        i <= digit_end(s, i) <= s.len(),
        i <= ident_end(s, i) <= s.len(),
        forall|k: int| i <= k < ws_end(s, i) ==> is_ws(#[trigger] s[k]),
        forall|k: int| i <= k < digit_end(s, i) ==> is_ascii_digit(#[trigger] s[k]),
        forall|k: int| i <= k < ident_end(s, i) ==> is_ident_char_spec(#[trigger] s[k]),
        ws_end(s, i) < s.len() ==> !is_ws(s[ws_end(s, i)]),
        digit_end(s, i) < s.len() ==> !is_ascii_digit(s[digit_end(s, i)]),
        ident_end(s, i) < s.len() ==> !is_ident_char_spec(s[ident_end(s, i)]),
        (i < s.len() && is_ascii_digit(s[i])) ==> digit_end(s, i) > i,
        (i < s.len() && is_ident_char_spec(s[i])) ==> ident_end(s, i) > i,
    decreases s.len() - i,
{
    if i < s.len() {
        lemma_run_ends(s, i + 1);
    }
}

/// The body of a string literal whose opening quote precedes index `i`,
/// with escapes decoded (`acc` is what was decoded so far), and the index
/// after the closing quote; or the error message.
pub open spec fn read_str(s: Seq<char>, i: int, acc: Seq<char>) -> Result<(Seq<char>, int), Seq<char>>
    decreases s.len() - i,
{
    if i < 0 || i >= s.len() {
        Err("unterminated string literal"@)
    } else if s[i] == '"' {
        Ok((acc, i + 1))
    } else if s[i] == '\\' {
        if i + 1 >= s.len() {
            Err("unterminated string escape"@)
        } else {
            let e = s[i + 1];
            let decoded = if e == 'n' {
                seq!['\n']
            } else if e == 't' {
                seq!['\t']
            } else if e == '\\' {
                seq!['\\']
            } else if e == '"' {
                seq!['"']
            } else {
                seq!['\\', e]
            };
            read_str(s, i + 2, acc + decoded)
        }
    } else {
        read_str(s, i + 1, acc.push(s[i]))
    }
}

pub proof fn lemma_read_str_progress(s: Seq<char>, i: int, acc: Seq<char>)
    ensures
        read_str(s, i, acc) matches Ok((_, k)) ==> i < k <= s.len(),
    decreases s.len() - i,
{
    if 0 <= i < s.len() && s[i] != '"' {
        if s[i] == '\\' {
            if i + 1 < s.len() {
                let e = s[i + 1];
                let decoded = if e == 'n' {
                    seq!['\n']
                } else if e == 't' {
                    seq!['\t']
                } else if e == '\\' {
                    seq!['\\']
                } else if e == '"' {
                    seq!['"']
                } else {
                    seq!['\\', e]
                };
                lemma_read_str_progress(s, i + 2, acc + decoded);
            }
        } else {
            lemma_read_str_progress(s, i + 1, acc.push(s[i]));
        }
    }
}

pub open spec fn unexpected_dot_message(pos: nat) -> Seq<char> {
    "unexpected '.' at position "@ + decimal(pos)
}

pub open spec fn unexpected_char_message(c: char, pos: nat) -> Seq<char> {
    "unexpected character '"@ + seq![c] + "' at position "@ + decimal(pos)
}

pub open spec fn number_too_large_message(pos: nat) -> Seq<char> {
    "number too large at position "@ + decimal(pos)
}

/// `t` at position `pos` in front of the outcome `rest`.
pub open spec fn lex_cons(t: TokV, pos: nat, rest: LexV) -> LexV {
    match rest {
        LexV::Tokens(ts) => LexV::Tokens(seq![(t, pos)] + ts),
        other => other,
    }
}

/// Tokenize `s` from index `i`.
pub open spec fn lex_from(s: Seq<char>, i: int) -> LexV
    decreases s.len() - i,
{
    if i < 0 || i > s.len() {
        LexV::Tokens(Seq::empty())
    } else {
        let j = ws_end(s, i);
        proof {
            lemma_run_ends(s, i);
        }
        if j >= s.len() {
            LexV::Tokens(Seq::empty())
        } else {
            let c = s[j];
            let p = j as nat;
            if c == '(' {
                lex_cons(TokV::LParen, p, lex_from(s, j + 1))
            } else if c == ')' {
                lex_cons(TokV::RParen, p, lex_from(s, j + 1))
            } else if c == '|' {
                lex_cons(TokV::Pipe, p, lex_from(s, j + 1))
            } else if c == '&' {
                lex_cons(TokV::Ampersand, p, lex_from(s, j + 1))
            } else if c == '~' {
                lex_cons(TokV::Tilde, p, lex_from(s, j + 1))
            } else if c == ',' {
                lex_cons(TokV::Comma, p, lex_from(s, j + 1))
            } else if c == ':' {
                lex_cons(TokV::Colon, p, lex_from(s, j + 1))
            } else if c == '.' {
                if j + 1 < s.len() && s[j + 1] == '.' {
                    lex_cons(TokV::DotDot, p, lex_from(s, j + 2))
                } else {
                    LexV::Failed(unexpected_dot_message(p), p)
                }
            } else if c == '"' {
                proof {
                    lemma_read_str_progress(s, j + 1, Seq::empty());
                }
                match read_str(s, j + 1, Seq::empty()) {
                    Ok((v, k)) => lex_cons(TokV::Str(v), p, lex_from(s, k)),
                    Err(m) => LexV::Failed(m, 0),
                }
            } else if is_ascii_digit(c) {
                proof {
                    lemma_run_ends(s, j);
                }
                let k = digit_end(s, j);
                let v = digits_value(s.subrange(j, k));
                if v > usize::MAX {
                    LexV::TooLarge(p)
                } else {
                    lex_cons(TokV::Number(v as usize), p, lex_from(s, k))
                }
            } else if is_ident_start_spec(c) {
                proof {
                    lemma_run_ends(s, j);
                }
                let k = ident_end(s, j);
                lex_cons(TokV::Ident(s.subrange(j, k)), p, lex_from(s, k))
            } else {
                LexV::Failed(unexpected_char_message(c, p), p)
            }
        }
    }
}

/// What tokenizing `s` gives.
pub open spec fn lex(s: Seq<char>) -> LexV {
    lex_from(s, 0)
}

/// The tokenizer's result when a too-large number is reported as an error.
pub open spec fn lex_checked(s: Seq<char>) -> Result<Seq<(TokV, nat)>, (Seq<char>, nat)> {
    match lex(s) {
        LexV::Tokens(ts) => Ok(ts),
        LexV::Failed(m, p) => Err((m, p)),
        LexV::TooLarge(p) => Err((number_too_large_message(p), p)),
    }
}

// ---------------------------------------------------------------------------
// Tokenizer
// ---------------------------------------------------------------------------

pub struct Tokenizer {
    pub chars: Vec<char>,
    pub pos: usize,
}

pub fn is_ident_start(ch: char) -> (b: bool)
    ensures
        b == is_ident_start_spec(ch),
{
    ('a' <= ch && ch <= 'z') || ('A' <= ch && ch <= 'Z') || ch == '_'
}

pub fn is_ident_char(ch: char) -> (b: bool)
    ensures
        b == is_ident_char_spec(ch),
{
    ('a' <= ch && ch <= 'z') || ('A' <= ch && ch <= 'Z') || ('0' <= ch && ch <= '9') || ch == '_'
        || ch == '-'
}

fn is_digit(ch: char) -> (b: bool)
    ensures
        b == is_ascii_digit(ch),
{
    '0' <= ch && ch <= '9'
}

impl Tokenizer {
    pub fn new(input: &str) -> (t: Self)
        ensures
            t.chars@ == input@,
            t.pos == 0,
    {
        Tokenizer { chars: chars_of(input), pos: 0 }
    }

    pub fn peek_char(&self) -> (r: Option<char>)
        ensures
            r == (if self.pos < self.chars@.len() { Some(self.chars@[self.pos as int]) } else { None::<char> }),
    {
        if self.pos < self.chars.len() {
            Some(self.chars[self.pos])
        } else {
            None
        }
    }

    pub fn next_char(&mut self) -> (r: Option<char>)
        ensures
            final(self).chars == old(self).chars,
            r == (if old(self).pos < old(self).chars@.len() { Some(old(self).chars@[old(self).pos as int]) } else { None::<char> }),
            final(self).pos == (if old(self).pos < old(self).chars@.len() { old(self).pos + 1 } else { old(self).pos as int }),
    {
        let ch = self.peek_char();
        if self.pos < self.chars.len() {
            self.pos += 1;
        }
        ch
    }

    pub fn skip_whitespace(&mut self)
        requires
            old(self).pos <= old(self).chars@.len(),
        ensures
            final(self).chars == old(self).chars,
            final(self).pos == ws_end(old(self).chars@, old(self).pos as int),
    {
        proof {
            lemma_run_ends(self.chars@, self.pos as int);
        }
        let n = self.chars.len();
        while self.pos < n && char_is_ws(self.chars[self.pos])
            invariant
                n == self.chars@.len(),
                self.chars == old(self).chars,
                old(self).pos <= self.pos <= self.chars@.len(),
                ws_end(self.chars@, self.pos as int) == ws_end(old(self).chars@, old(self).pos as int),
            decreases self.chars@.len() - self.pos,
        {
            self.pos += 1;
        }
    }

    pub fn emit(&self, kind: TokenKind, pos: usize) -> (t: Token)
        ensures
            t.kind == kind,
            t.pos == pos,
    {
        Token { kind, pos }
    }

    /// Read a string literal whose opening quote is at the current position.
    pub fn read_string(&mut self, start: usize) -> (r: Result<Token, String>)
        requires
            old(self).pos < old(self).chars@.len(),
        ensures
            final(self).chars == old(self).chars,
            match read_str(old(self).chars@, old(self).pos + 1, Seq::empty()) {
                Ok((v, k)) => r matches Ok(t) && t.kind@ == TokV::Str(v) && t.pos == start
                    && final(self).pos == k,
                Err(m) => r matches Err(e) && e@ == m,
            },
    {
        self.next_char();
        let mut value = String::new();
        let ghost s = self.chars@;
        loop
            invariant
                self.chars == old(self).chars,
                s == self.chars@,
                old(self).pos + 1 <= self.pos <= s.len(),
                read_str(s, old(self).pos + 1, Seq::empty()) == read_str(s, self.pos as int, value@),
            decreases s.len() - self.pos,
        {
            let ghost p = self.pos as int;
            let ghost acc = value@;
            match self.next_char() {
                Some(c) => {
                    if c == '"' {
                        return Ok(Token { kind: TokenKind::Str(value), pos: start });
                    } else if c == '\\' {
                        match self.next_char() {
                            Some(e) => {
                                if e == 'n' {
                                    push_char(&mut value, '\n');
                                    assert(value@ == acc + seq!['\n']);
                                } else if e == 't' {
                                    push_char(&mut value, '\t');
                                    assert(value@ == acc + seq!['\t']);
                                } else if e == '\\' {
                                    push_char(&mut value, '\\');
                                    assert(value@ == acc + seq!['\\']);
                                } else if e == '"' {
                                    push_char(&mut value, '"');
                                    assert(value@ == acc + seq!['"']);
                                } else {
                                    push_char(&mut value, '\\');
                                    push_char(&mut value, e);
                                    assert(value@ == acc + seq!['\\', e]);
                                }
                            },
                            None => {
                                return Err(string_of("unterminated string escape"));
                            },
                        }
                    } else {
                        push_char(&mut value, c);
                    }
                },
                None => {
                    return Err(string_of("unterminated string literal"));
                },
            }
        }
    }

    /// Read the run of digits at the current position.
    pub fn read_number(&mut self, start: usize) -> (r: Result<Token, String>)
        requires
            old(self).pos < old(self).chars@.len(),
            is_ascii_digit(old(self).chars@[old(self).pos as int]),
        ensures
            final(self).chars == old(self).chars,
            ({
                let s = old(self).chars@;
                let i = old(self).pos as int;
                let k = digit_end(s, i);
                let v = digits_value(s.subrange(i, k));
                if v <= usize::MAX {
                    r matches Ok(t) && t.kind@ == TokV::Number(v as usize) && t.pos == start
                        && final(self).pos == k
                } else {
                    r matches Err(e) && e@ == number_too_large_message(start as nat)
                }
            }),
    {
        let ghost s = self.chars@;
        let ghost i = self.pos as int;
        proof {
            lemma_run_ends(s, i);
        }
        let mut digits: Vec<char> = Vec::new();
        let n = self.chars.len();
        while self.pos < n && is_digit(self.chars[self.pos])
            invariant
                n == self.chars@.len(),
                self.chars == old(self).chars,
                s == self.chars@,
                i == old(self).pos,
                i <= self.pos <= s.len(),
                digit_end(s, self.pos as int) == digit_end(s, i),
                digits@ == s.subrange(i, self.pos as int),
            decreases s.len() - self.pos,
        {
            digits.push(self.chars[self.pos]);
            assert(s.subrange(i, self.pos + 1) =~= s.subrange(i, self.pos as int).push(s[self.pos as int]));
            self.pos += 1;
        }
        proof {
            lemma_run_ends(s, self.pos as int);
            assert(self.pos == digit_end(s, i));
        }
        proof {
            lemma_run_ends(s, i);
            assert(all_digits(digits@));
            assert(digits@.len() > 0);
            assert(digits@[0] != '+');
        }
        match parse_usize_exec(digits.as_slice()) {
            Some(n) => Ok(Token { kind: TokenKind::Number(n), pos: start }),
            None => {
                let mut msg = string_of("number too large at position ");
                let d = decimal_string(start);
                push_str(&mut msg, d.as_str());
                Err(msg)
            },
        }
    }

    /// Read the identifier at the current position.
    pub fn read_ident(&mut self, start: usize) -> (t: Token)
        requires
            old(self).pos <= old(self).chars@.len(),
        ensures
            final(self).chars == old(self).chars,
            final(self).pos == ident_end(old(self).chars@, old(self).pos as int),
            t.kind@ == TokV::Ident(old(self).chars@.subrange(old(self).pos as int, final(self).pos as int)),
            t.pos == start,
    {
        let ghost s = self.chars@;
        let ghost i = self.pos as int;
        proof {
            lemma_run_ends(s, i);
        }
        let mut name = String::new();
        let n = self.chars.len();
        while self.pos < n && is_ident_char(self.chars[self.pos])
            invariant
                n == self.chars@.len(),
                self.chars == old(self).chars,
                s == self.chars@,
                i == old(self).pos,
                i <= self.pos <= s.len(),
                ident_end(s, self.pos as int) == ident_end(s, i),
                name@ == s.subrange(i, self.pos as int),
            decreases s.len() - self.pos,
        {
            push_char(&mut name, self.chars[self.pos]);
            assert(s.subrange(i, self.pos + 1) =~= s.subrange(i, self.pos as int).push(s[self.pos as int]));
            self.pos += 1;
        }
        proof {
            lemma_run_ends(s, self.pos as int);
        }
        Token { kind: TokenKind::Ident(name), pos: start }
    }

    /// Tokenize the whole input.
    pub fn tokenize(&mut self) -> (r: Result<Vec<Token>, String>)
        requires
            old(self).pos == 0,
        ensures
            match lex_checked(old(self).chars@) {
                Ok(ts) => r matches Ok(v) && tokens_view(v@) == ts,
                Err((m, _)) => r matches Err(e) && e@ == m,
            },
    {
        let ghost s = self.chars@;
        let mut tokens: Vec<Token> = Vec::new();
        proof {
            lemma_lex_prefix_empty(lex(s));
        }
        loop
            invariant
                s == self.chars@,
                s == old(self).chars@,
                self.pos <= s.len(),
                lex(s) == lex_prefix(tokens_view(tokens@), lex_from(s, self.pos as int)),
            ensures
                lex(s) == LexV::Tokens(tokens_view(tokens@)),
            decreases s.len() - self.pos,
        {
            let ghost i = self.pos as int;
            self.skip_whitespace();
            let ghost j = self.pos as int;
            proof {
                lemma_lex_ws(s, i);
                lemma_run_ends(s, i);
            }
            let ch = match self.peek_char() {
                Some(ch) => ch,
                None => {
                    assert(tokens_view(tokens@) + Seq::<(TokV, nat)>::empty() == tokens_view(tokens@));
                    assert(lex_from(s, j) == LexV::Tokens(Seq::empty()));
                    break ;
                },
            };
            assert(!is_ws(ch));
            assert(ws_end(s, j) == j);
            let start = self.pos;
            let ghost before = tokens_view(tokens@);
            if ch == '(' || ch == ')' || ch == '|' || ch == '&' || ch == '~' || ch == ',' || ch
                == ':' {
                self.next_char();
                let kind = if ch == '(' {
                    TokenKind::LParen
                } else if ch == ')' {
                    TokenKind::RParen
                } else if ch == '|' {
                    TokenKind::Pipe
                } else if ch == '&' {
                    TokenKind::Ampersand
                } else if ch == '~' {
                    TokenKind::Tilde
                } else if ch == ',' {
                    TokenKind::Comma
                } else {
                    TokenKind::Colon
                };
                let t = self.emit(kind, start);
                tokens.push(t);
                proof {
                    assert(lex_from(s, j) == lex_cons(t.kind@, j as nat, lex_from(s, j + 1)));
                    lemma_lex_prefix_cons(before, t.kind@, j as nat, lex_from(s, j + 1));
                    assert(tokens_view(tokens@) == before.push(t.view()));
                }
            } else if ch == '.' {
                if self.pos < self.chars.len() - 1 && self.chars[self.pos + 1] == '.' {
                    self.pos += 2;
                    let t = self.emit(TokenKind::DotDot, start);
                    tokens.push(t);
                    proof {
                        assert(lex_from(s, j) == lex_cons(TokV::DotDot, j as nat, lex_from(s, j + 2)));
                        lemma_lex_prefix_cons(before, TokV::DotDot, j as nat, lex_from(s, j + 2));
                        assert(tokens_view(tokens@) == before.push(t.view()));
                    }
                } else {
                    let mut msg = string_of("unexpected '.' at position ");
                    let d = decimal_string(self.pos);
                    push_str(&mut msg, d.as_str());
                    assert(lex_from(s, j) == LexV::Failed(unexpected_dot_message(j as nat), j as nat));
                    assert(msg@ == unexpected_dot_message(j as nat));
                    assert(lex(s) == LexV::Failed(unexpected_dot_message(j as nat), j as nat));
                    return Err(msg);
                }
            } else if ch == '"' {
                proof {
                    lemma_read_str_progress(s, j + 1, Seq::empty());
                }
                let t = match self.read_string(start) {
                    Ok(t) => t,
                    Err(e) => {
                        assert(lex_from(s, j) matches LexV::Failed(m, _) && m == e@);
                        return Err(e);
                    },
                };
                tokens.push(t);
                proof {
                    let k = self.pos as int;
                    assert(lex_from(s, j) == lex_cons(t.kind@, j as nat, lex_from(s, k)));
                    lemma_lex_prefix_cons(before, t.kind@, j as nat, lex_from(s, k));
                    assert(tokens_view(tokens@) == before.push(t.view()));
                }
            } else if is_digit(ch) {
                proof {
                    lemma_run_ends(s, j);
                }
                let t = match self.read_number(start) {
                    Ok(t) => t,
                    Err(e) => {
                        assert(lex_from(s, j) == LexV::TooLarge(j as nat));
                        return Err(e);
                    },
                };
                tokens.push(t);
                proof {
                    let k = self.pos as int;
                    assert(lex_from(s, j) == lex_cons(t.kind@, j as nat, lex_from(s, k)));
                    lemma_lex_prefix_cons(before, t.kind@, j as nat, lex_from(s, k));
                    assert(tokens_view(tokens@) == before.push(t.view()));
                }
            } else if is_ident_start(ch) {
                proof {
                    lemma_run_ends(s, j);
                }
                let t = self.read_ident(start);
                tokens.push(t);
                proof {
                    let k = self.pos as int;
                    assert(lex_from(s, j) == lex_cons(t.kind@, j as nat, lex_from(s, k)));
                    lemma_lex_prefix_cons(before, t.kind@, j as nat, lex_from(s, k));
                    assert(tokens_view(tokens@) == before.push(t.view()));
                }
            } else {
                let mut msg = string_of("unexpected character '");
                push_char(&mut msg, ch);
                push_str(&mut msg, "' at position ");
                let d = decimal_string(self.pos);
                push_str(&mut msg, d.as_str());
                assert(lex_from(s, j) == LexV::Failed(unexpected_char_message(ch, j as nat), j as nat));
                assert(msg@ == unexpected_char_message(ch, j as nat));
                assert(lex(s) == LexV::Failed(unexpected_char_message(ch, j as nat), j as nat));
                return Err(msg);
            }
        }
        Ok(tokens)
    }
}

/// The outcome `r` with the tokens `tv` in front.
pub open spec fn lex_prefix(tv: Seq<(TokV, nat)>, r: LexV) -> LexV {
    match r {
        LexV::Tokens(ts) => LexV::Tokens(tv + ts),
        other => other,
    }
}

proof fn lemma_lex_prefix_empty(r: LexV)
    ensures
        lex_prefix(Seq::empty(), r) == r,
{
    if let LexV::Tokens(ts) = r {
        assert(Seq::<(TokV, nat)>::empty() + ts == ts);
    }
}

proof fn lemma_lex_prefix_cons(tv: Seq<(TokV, nat)>, t: TokV, p: nat, rest: LexV)
    ensures
        lex_prefix(tv, lex_cons(t, p, rest)) == lex_prefix(tv.push((t, p)), rest),
{
    if let LexV::Tokens(ts) = rest {
        assert(tv + (seq![(t, p)] + ts) == tv.push((t, p)) + ts);
    }
}

/// Tokenizing from `i` is tokenizing from the first non-blank at or after `i`.
proof fn lemma_lex_ws(s: Seq<char>, i: int)
    requires
        0 <= i <= s.len(),
    ensures
        lex_from(s, i) == lex_from(s, ws_end(s, i)),
        ws_end(s, ws_end(s, i)) == ws_end(s, i),
        ws_end(s, i) < s.len() ==> !is_ws(s[ws_end(s, i)]),
    decreases s.len() - i,
{
    lemma_run_ends(s, i);
    if i < s.len() && is_ws(s[i]) {
        lemma_lex_ws(s, i + 1);
    }
}



proof fn lemma_read_str_message(s: Seq<char>, i: int, acc: Seq<char>)
    ensures
        read_str(s, i, acc) matches Err(m) ==> m.len() > 0 && m[0] == 'u',
    decreases s.len() - i,
{
    reveal_strlit("unterminated string literal");
    reveal_strlit("unterminated string escape");
    if 0 <= i < s.len() && s[i] != '"' {
        if s[i] == '\\' {
            if i + 1 < s.len() {
                let e = s[i + 1];
                let decoded = if e == 'n' {
                    seq!['\n']
                } else if e == 't' {
                    seq!['\t']
                } else if e == '\\' {
                    seq!['\\']
                } else if e == '"' {
                    seq!['"']
                } else {
                    seq!['\\', e]
                };
                lemma_read_str_message(s, i + 2, acc + decoded);
            }
        } else {
            lemma_read_str_message(s, i + 1, acc.push(s[i]));
        }
    }
}

/// Every error the tokenizer reports but a too-large number starts with `u`.
proof fn lemma_failed_message(s: Seq<char>, i: int)
    ensures
        lex_from(s, i) matches LexV::Failed(m, _) ==> m.len() > 0 && m[0] == 'u',
    decreases s.len() - i,
{
    if 0 <= i <= s.len() {
        let j = ws_end(s, i);
        lemma_run_ends(s, i);
        if j < s.len() {
            let c = s[j];
            let p = j as nat;
            reveal_strlit("unexpected '.' at position ");
            reveal_strlit("unexpected character '");
            if c == '(' || c == ')' || c == '|' || c == '&' || c == '~' || c == ',' || c == ':' {
                lemma_failed_message(s, j + 1);
            } else if c == '.' {
                if j + 1 < s.len() && s[j + 1] == '.' {
                    lemma_failed_message(s, j + 2);
                } else {
                    assert(unexpected_dot_message(p)[0] == 'u');
                }
            } else if c == '"' {
                lemma_read_str_progress(s, j + 1, Seq::empty());
                lemma_read_str_message(s, j + 1, Seq::empty());
                match read_str(s, j + 1, Seq::empty()) {
                    Ok((v, k)) => lemma_failed_message(s, k),
                    Err(m) => {},
                }
            } else if is_ascii_digit(c) {
                lemma_run_ends(s, j);
                lemma_failed_message(s, digit_end(s, j));
            } else if is_ident_start_spec(c) {
                lemma_run_ends(s, j);
                lemma_failed_message(s, ident_end(s, j));
            } else {
                assert(unexpected_char_message(c, p)[0] == 'u');
            }
        }
    }
}

/// Whether a number in the expression is too large for a `usize`.
pub fn has_oversized_number(input: &str) -> (b: bool)
    ensures
        b == (lex(input@) is TooLarge),
{
    let mut t = Tokenizer::new(input);
    match t.tokenize() {
        Ok(_) => false,
        Err(e) => {
            proof {
                lemma_failed_message(input@, 0);
                reveal_strlit("number too large at position ");
            }
            let v = chars_of(e.as_str());
            v.len() > 0 && v[0] == 'n'
        },
    }
}

} // verus!
