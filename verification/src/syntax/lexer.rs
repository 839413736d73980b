//! The lexer: source text to tokens.
//!
//! `lex` is specified by `lex_from`, a definition of the token stream over
//! the characters of the source. Spans are byte offsets into the UTF-8 text.
use vstd::prelude::*;

use crate::diagnostics::{Error, ErrorKind, SpecError};
use crate::syntax::token::{SpecToken, SpecTokenKind, Token, TokenKind, TokenKindOf};
use crate::text::{chars_of, push_char, push_str, string_eq_str, string_from_chars};

verus! {

// ---------------------------------------------------------------------------
// Character classes and byte offsets
// ---------------------------------------------------------------------------

pub open spec fn is_digit(c: char) -> bool {
    '0' <= c && c <= '9'
}

pub open spec fn is_alpha(c: char) -> bool {
    ('a' <= c && c <= 'z') || ('A' <= c && c <= 'Z')
}

pub open spec fn is_ident_start(c: char) -> bool {
    is_alpha(c) || c == '_'
}

pub open spec fn is_ident_char(c: char) -> bool {
    is_alpha(c) || is_digit(c) || c == '_'
}

pub open spec fn is_space(c: char) -> bool {
    c == ' ' || c == '\t' || c == '\r' || c == '\n'
}

/// Number of bytes of the UTF-8 encoding of `c`.
pub open spec fn utf8_width(c: char) -> nat {
    if (c as u32) < 0x80 {
        1
    } else if (c as u32) < 0x800 {
        2
    } else if (c as u32) < 0x10000 {
        3
    } else {
        4
    }
}

/// Byte offset of character position `p` in `s`.
pub open spec fn byte_pos(s: Seq<char>, p: int) -> nat
    decreases p,
{
    if p <= 0 || s.len() == 0 {
        0
    } else if p > s.len() {
        byte_pos(s, s.len() as int)
    } else {
        byte_pos(s, p - 1) + utf8_width(s[p - 1])
    }
}

/// Byte length of the UTF-8 encoding of `s`.
pub open spec fn byte_len(s: Seq<char>) -> nat {
    byte_pos(s, s.len() as int)
}

pub proof fn lemma_byte_pos_mono(s: Seq<char>, p: int, q: int)
    requires
        0 <= p <= q <= s.len(),
    ensures
        byte_pos(s, p) <= byte_pos(s, q),
    decreases q - p,
{
    if p < q {
        lemma_byte_pos_mono(s, p, q - 1);
    }
}

// ---------------------------------------------------------------------------
// Scanning
// ---------------------------------------------------------------------------

/// End of the run of identifier characters starting at `p`.
pub open spec fn scan_ident(s: Seq<char>, p: int) -> int
    decreases s.len() - p,
{
    if 0 <= p < s.len() && is_ident_char(s[p]) {
        scan_ident(s, p + 1)
    } else {
        p
    }
}

/// End of the run of digits and `_` separators starting at `p`.
pub open spec fn scan_digits(s: Seq<char>, p: int) -> int
    decreases s.len() - p,
{
    if 0 <= p < s.len() && (is_digit(s[p]) || s[p] == '_') {
        scan_digits(s, p + 1)
    } else {
        p
    }
}

/// Position of the first newline at or after `p` (or the end of input).
pub open spec fn line_end(s: Seq<char>, p: int) -> int
    decreases s.len() - p,
{
    if 0 <= p < s.len() && s[p] != '\n' {
        line_end(s, p + 1)
    } else {
        p
    }
}

pub proof fn lemma_scan_bounds(s: Seq<char>, p: int)
    requires
        0 <= p <= s.len(),
    ensures
        p <= scan_ident(s, p) <= s.len(),
        p <= scan_digits(s, p) <= s.len(),
        p <= line_end(s, p) <= s.len(),
    decreases s.len() - p,
{
    if p < s.len() {
        lemma_scan_bounds(s, p + 1);
    }
}

/// `s` without its `_` separators.
pub open spec fn strip_underscores(s: Seq<char>) -> Seq<char>
    decreases s.len(),
{
    if s.len() == 0 {
        s
    } else if s.last() == '_' {
        strip_underscores(s.drop_last())
    } else {
        strip_underscores(s.drop_last()).push(s.last())
    }
}

/// Whether some character of `s` is a decimal digit.
pub open spec fn has_digit(s: Seq<char>) -> bool {
    exists|i: int| 0 <= i < s.len() && is_digit(#[trigger] s[i])
}

/// The value of a string of decimal digits.
pub open spec fn decimal_value(d: Seq<char>) -> nat
    decreases d.len(),
{
    if d.len() == 0 {
        0
    } else {
        decimal_value(d.drop_last()) * 10 + ((d.last() as u32) - 48) as nat
    }
}

/// Shape of a number literal.
pub struct NumScan {
    /// Position just after the literal.
    pub end: int,
    /// Whether it has a fraction or an exponent.
    pub is_float: bool,
    /// Whether it has an exponent (`e` or `E`).
    pub has_exp: bool,
    /// Position of the exponent's digits (after an optional sign).
    pub exp_start: int,
}

/// Where the number literal starting at `p` ends and what it is.
pub open spec fn scan_number(s: Seq<char>, p: int) -> NumScan {
    let e1 = scan_digits(s, p);
    let has_frac = 0 <= e1 && e1 + 1 < s.len() && s[e1] == '.' && is_digit(s[e1 + 1]);
    let e2 = if has_frac { scan_digits(s, e1 + 1) } else { e1 };
    if 0 <= e2 < s.len() && (s[e2] == 'e' || s[e2] == 'E') {
        let e3 = if e2 + 1 < s.len() && (s[e2 + 1] == '+' || s[e2 + 1] == '-') {
            e2 + 2
        } else {
            e2 + 1
        };
        NumScan { end: scan_digits(s, e3), is_float: true, has_exp: true, exp_start: e3 }
    } else {
        NumScan { end: e2, is_float: has_frac, has_exp: false, exp_start: e2 }
    }
}

/// Whether a float literal's text denotes a number: an exponent, when
/// present, needs at least one digit.
pub open spec fn float_text_ok(s: Seq<char>, n: NumScan) -> bool {
    !n.has_exp || has_digit(s.subrange(n.exp_start, n.end))
}

/// The character an escape sequence `\c` stands for.
pub open spec fn escape_of(c: char) -> Option<char> {
    if c == '\\' {
        Some('\\')
    } else if c == '"' {
        Some('"')
    } else if c == 'n' {
        Some('\n')
    } else if c == 'r' {
        Some('\r')
    } else if c == 't' {
        Some('\t')
    } else if c == '0' {
        Some('\0')
    } else {
        None
    }
}

/// Outcome of reading the body of a string literal.
pub enum StrScan {
    /// The literal closed; the position after the closing quote and its value.
    Closed(int, Seq<char>),
    /// A `\` at the very end of the input.
    EscapeAtEnd,
    /// An escape `\c` with an unsupported `c`; the position after `c`.
    BadEscape(int, char),
    /// The input ended before the closing quote.
    Unterminated,
}

/// Reads the body of a string literal from `p` (after the opening quote or
/// after what was already read into `acc`).
pub open spec fn scan_string(s: Seq<char>, p: int, acc: Seq<char>) -> StrScan
    decreases s.len() - p,
{
    if p < 0 || p >= s.len() {
        StrScan::Unterminated
    } else if s[p] == '"' {
        StrScan::Closed(p + 1, acc)
    } else if s[p] == '\\' {
        if p + 1 >= s.len() {
            StrScan::EscapeAtEnd
        } else {
            match escape_of(s[p + 1]) {
                Some(t) => scan_string(s, p + 2, acc.push(t)),
                None => StrScan::BadEscape(p + 2, s[p + 1]),
            }
        }
    } else {
        scan_string(s, p + 1, acc.push(s[p]))
    }
}

/// The standard escapes: `\t` is TAB (U+0009), `\n` LINE FEED (U+000A),
/// `\r` CARRIAGE RETURN (U+000D), `\0` NUL (U+0000), and `\\` and `\"`
/// stand for themselves.
pub open spec fn standard_escape(c: char, d: char) -> bool {
    ||| c == 't' && d as u32 == 9
    ||| c == 'n' && d as u32 == 10
    ||| c == 'r' && d as u32 == 13
    ||| c == '0' && d as u32 == 0
    ||| c == '\\' && d == '\\'
    ||| c == '"' && d == '"'
}

/// An escape decodes to a character exactly when it is a standard escape,
/// and then to the standard character.
pub proof fn lemma_escape_standard(c: char, d: char)
    ensures
        escape_of(c) == Some(d) <==> standard_escape(c, d),
        escape_of(c) is None <==> !(c == 't' || c == 'n' || c == 'r' || c == '0' || c == '\\' || c == '"'),
{
}

/// In the body of a string literal a standard escape `\c` puts its
/// character into the value and reading goes on after it.
pub proof fn lemma_scan_string_escape(s: Seq<char>, p: int, acc: Seq<char>, d: char)
    requires
        0 <= p,
        p + 1 < s.len(),
        s[p] == '\\',
        standard_escape(s[p + 1], d),
    ensures
        scan_string(s, p, acc) == scan_string(s, p + 2, acc.push(d)),
{
    lemma_escape_standard(s[p + 1], d);
}

/// The keyword a word stands for, or an identifier.
pub open spec fn word_token(w: Seq<char>) -> SpecTokenKind {
    if w == "module"@ {
        TokenKindOf::Module
    } else if w == "pub"@ {
        TokenKindOf::Pub
    } else if w == "fn"@ {
        TokenKindOf::Fn
    } else if w == "type"@ {
        TokenKindOf::Type
    } else if w == "impl"@ {
        TokenKindOf::Impl
    } else if w == "use"@ {
        TokenKindOf::Use
    } else if w == "let"@ {
        TokenKindOf::Let
    } else if w == "mut"@ {
        TokenKindOf::Mut
    } else if w == "return"@ {
        TokenKindOf::Return
    } else if w == "if"@ {
        TokenKindOf::If
    } else if w == "else"@ {
        TokenKindOf::Else
    } else if w == "match"@ {
        TokenKindOf::Match
    } else if w == "for"@ {
        TokenKindOf::For
    } else if w == "in"@ {
        TokenKindOf::In
    } else if w == "loop"@ {
        TokenKindOf::Loop
    } else if w == "while"@ {
        TokenKindOf::While
    } else if w == "break"@ {
        TokenKindOf::Break
    } else if w == "continue"@ {
        TokenKindOf::Continue
    } else if w == "spawn"@ {
        TokenKindOf::Spawn
    } else if w == "await"@ {
        TokenKindOf::Await
    } else if w == "chan"@ {
        TokenKindOf::Chan
    } else if w == "using"@ {
        TokenKindOf::Using
    } else if w == "as"@ {
        TokenKindOf::As
    } else if w == "true"@ {
        TokenKindOf::BoolLiteral(true)
    } else if w == "false"@ {
        TokenKindOf::BoolLiteral(false)
    } else {
        TokenKindOf::Identifier(w)
    }
}

/// One step of the lexer at a position inside the input.
pub enum Step {
    /// Nothing to emit (white space or a comment); continue at the position.
    Skip(int),
    /// Emit a token read up to (not including) the position.
    Emit(SpecTokenKind, int),
    /// Stop with an error.
    Fail(SpecError),
}

pub open spec fn lex_error(span: (usize, usize), message: Seq<char>) -> SpecError {
    SpecError { kind: ErrorKind::Lex, span: Some(span), message }
}

/// A one-character token, or a two-character one when `second` follows.
pub open spec fn one_or_two(
    s: Seq<char>,
    p: int,
    second: char,
    two: SpecTokenKind,
    one: SpecTokenKind,
) -> Step {
    if p + 1 < s.len() && s[p + 1] == second {
        Step::Emit(two, p + 2)
    } else {
        Step::Emit(one, p + 1)
    }
}

/// What the lexer does at position `p` (with `p < s.len()`).
pub open spec fn step(s: Seq<char>, p: int) -> Step {
    let c = s[p];
    let at = byte_pos(s, p) as usize;
    if is_space(c) {
        Step::Skip(p + 1)
    } else if c == '/' {
        if p + 1 < s.len() && s[p + 1] == '/' {
            Step::Skip(line_end(s, p + 2))
        } else {
            Step::Emit(TokenKindOf::Slash, p + 1)
        }
    } else if is_digit(c) {
        let n = scan_number(s, p);
        let text = strip_underscores(s.subrange(p, n.end));
        let span = (at, byte_pos(s, n.end) as usize);
        if n.is_float {
            if float_text_ok(s, n) {
                Step::Emit(TokenKindOf::FloatLiteral(text), n.end)
            } else {
                Step::Fail(lex_error(span, "invalid float literal"@))
            }
        } else if decimal_value(text) > i64::MAX {
            Step::Fail(lex_error(span, "invalid integer literal"@))
        } else {
            Step::Emit(TokenKindOf::IntLiteral(decimal_value(text) as i64), n.end)
        }
    } else if is_ident_start(c) {
        let end = scan_ident(s, p + 1);
        Step::Emit(word_token(s.subrange(p, end)), end)
    } else if c == '"' {
        match scan_string(s, p + 1, Seq::empty()) {
            StrScan::Closed(end, value) => Step::Emit(TokenKindOf::StringLiteral(value), end),
            StrScan::EscapeAtEnd => {
                let e = byte_len(s) as usize;
                Step::Fail(lex_error((e, e), "unterminated escape sequence"@))
            },
            StrScan::BadEscape(q, bad) => {
                let e = byte_pos(s, q) as usize;
                Step::Fail(
                    lex_error((e, e), "unsupported escape character '"@ + seq![bad] + "'"@),
                )
            },
            StrScan::Unterminated => Step::Fail(
                lex_error((at, byte_len(s) as usize), "unterminated string literal"@),
            ),
        }
    } else if c == '(' {
        Step::Emit(TokenKindOf::LParen, p + 1)
    } else if c == ')' {
        Step::Emit(TokenKindOf::RParen, p + 1)
    } else if c == '{' {
        Step::Emit(TokenKindOf::LBrace, p + 1)
    } else if c == '}' {
        Step::Emit(TokenKindOf::RBrace, p + 1)
    } else if c == '[' {
        Step::Emit(TokenKindOf::LBracket, p + 1)
    } else if c == ']' {
        Step::Emit(TokenKindOf::RBracket, p + 1)
    } else if c == ',' {
        Step::Emit(TokenKindOf::Comma, p + 1)
    } else if c == ':' {
        one_or_two(s, p, ':', TokenKindOf::DoubleColon, TokenKindOf::Colon)
    } else if c == ';' {
        Step::Emit(TokenKindOf::Semi, p + 1)
    } else if c == '.' {
        Step::Emit(TokenKindOf::Dot, p + 1)
    } else if c == '+' {
        Step::Emit(TokenKindOf::Plus, p + 1)
    } else if c == '%' {
        Step::Emit(TokenKindOf::Percent, p + 1)
    } else if c == '?' {
        Step::Emit(TokenKindOf::Question, p + 1)
    } else if c == '!' {
        one_or_two(s, p, '=', TokenKindOf::NotEq, TokenKindOf::Bang)
    } else if c == '-' {
        one_or_two(s, p, '>', TokenKindOf::ThinArrow, TokenKindOf::Minus)
    } else if c == '=' {
        if p + 1 < s.len() && s[p + 1] == '>' {
            Step::Emit(TokenKindOf::FatArrow, p + 2)
        } else {
            one_or_two(s, p, '=', TokenKindOf::EqEq, TokenKindOf::Assign)
        }
    } else if c == '*' {
        Step::Emit(TokenKindOf::Star, p + 1)
    } else if c == '<' {
        one_or_two(s, p, '=', TokenKindOf::Le, TokenKindOf::Lt)
    } else if c == '>' {
        one_or_two(s, p, '=', TokenKindOf::Ge, TokenKindOf::Gt)
    } else if c == '&' {
        one_or_two(s, p, '&', TokenKindOf::AndAnd, TokenKindOf::Ampersand)
    } else if c == '|' {
        one_or_two(s, p, '|', TokenKindOf::OrOr, TokenKindOf::Pipe)
    } else {
        Step::Fail(lex_error((at, at), "unexpected character '"@ + seq![c] + "'"@))
    }
}

/// `pre` in front of a token stream; an error stays an error.
pub open spec fn prepend(pre: Seq<SpecToken>, r: Result<Seq<SpecToken>, SpecError>) -> Result<
    Seq<SpecToken>,
    SpecError,
> {
    match r {
        Ok(rest) => Ok(pre + rest),
        Err(e) => Err(e),
    }
}

/// The tokens of `s` from character position `p` on, ending with `Eof`, or
/// the first error.
pub open spec fn lex_from(s: Seq<char>, p: int) -> Result<Seq<SpecToken>, SpecError>
    decreases s.len() - p,
{
    if p < 0 || p >= s.len() {
        let e = byte_len(s) as usize;
        Ok(seq![SpecToken { kind: TokenKindOf::Eof, span: (e, e) }])
    } else {
        match step(s, p) {
            Step::Skip(q) => if p < q <= s.len() {
                lex_from(s, q)
            } else {
                Ok(Seq::empty())
            },
            Step::Emit(kind, q) => if p < q <= s.len() {
                let tok = SpecToken {
                    kind,
                    span: (byte_pos(s, p) as usize, byte_pos(s, q) as usize),
                };
                prepend(seq![tok], lex_from(s, q))
            } else {
                Ok(Seq::empty())
            },
            Step::Fail(e) => Err(e),
        }
    }
}

/// The tokens of a whole source text.
pub open spec fn spec_lex(s: Seq<char>) -> Result<Seq<SpecToken>, SpecError> {
    lex_from(s, 0)
}

// ---------------------------------------------------------------------------
// Lemmas
// ---------------------------------------------------------------------------

pub proof fn lemma_byte_pos_step(s: Seq<char>, i: int)
    requires
        0 <= i < s.len(),
    ensures
        byte_pos(s, i + 1) == byte_pos(s, i) + utf8_width(s[i]),
{
}

pub proof fn lemma_scan_digits_chars(s: Seq<char>, p: int, k: int)
    requires
        0 <= p <= k < scan_digits(s, p),
    ensures
        is_digit(s[k]) || s[k] == '_',
    decreases s.len() - p,
{
    if p < k {
        lemma_scan_digits_chars(s, p + 1, k);
    }
}

pub proof fn lemma_decimal_grows(d: Seq<char>, c: char)
    requires
        is_digit(c),
    ensures
        decimal_value(d.push(c)) == decimal_value(d) * 10 + ((c as u32) - 48) as nat,
        decimal_value(d.push(c)) >= decimal_value(d),
{
    assert(d.push(c).drop_last() =~= d);
    let v = decimal_value(d);
    assert(v * 10 >= v) by (nonlinear_arith);
}

// ---------------------------------------------------------------------------
// Executable lexer
// ---------------------------------------------------------------------------

fn digit_class(c: char) -> (r: bool)
    ensures
        r == is_digit(c),
{
    '0' <= c && c <= '9'
}

fn ident_start_class(c: char) -> (r: bool)
    ensures
        r == is_ident_start(c),
{
    ('a' <= c && c <= 'z') || ('A' <= c && c <= 'Z') || c == '_'
}

fn ident_class(c: char) -> (r: bool)
    ensures
        r == is_ident_char(c),
{
    ('a' <= c && c <= 'z') || ('A' <= c && c <= 'Z') || ('0' <= c && c <= '9') || c == '_'
}

fn width_of(c: char) -> (w: usize)
    ensures
        w == utf8_width(c),
{
    let u = c as u32;
    if u < 0x80 {
        1
    } else if u < 0x800 {
        2
    } else if u < 0x10000 {
        3
    } else {
        4
    }
}

/// Byte offset of `q` from the byte offset `b` of `p`.
fn advance_bytes(s: &Vec<char>, p: usize, b: usize, q: usize) -> (r: usize)
    requires
        p <= q <= s.len(),
        b == byte_pos(s@, p as int),
        byte_len(s@) <= usize::MAX,
    ensures
        r == byte_pos(s@, q as int),
{
    let mut i = p;
    let mut r = b;
    while i < q
        invariant
            p <= i <= q <= s.len(),
            r == byte_pos(s@, i as int),
            byte_len(s@) <= usize::MAX,
        decreases q - i,
    {
        proof {
            lemma_byte_pos_step(s@, i as int);
            lemma_byte_pos_mono(s@, i + 1, s@.len() as int);
        }
        r = r + width_of(s[i]);
        i = i + 1;
    }
    r
}

fn scan_ident_exec(s: &Vec<char>, p: usize) -> (e: usize)
    requires
        p <= s.len(),
    ensures
        e as int == scan_ident(s@, p as int),
        p <= e <= s.len(),
{
    let mut i = p;
    while i < s.len() && ident_class(s[i])
        invariant
            p <= i <= s.len(),
            scan_ident(s@, i as int) == scan_ident(s@, p as int),
        decreases s.len() - i,
    {
        i = i + 1;
    }
    i
}

fn scan_digits_exec(s: &Vec<char>, p: usize) -> (e: usize)
    requires
        p <= s.len(),
    ensures
        e as int == scan_digits(s@, p as int),
        p <= e <= s.len(),
{
    let mut i = p;
    while i < s.len() && (digit_class(s[i]) || s[i] == '_')
        invariant
            p <= i <= s.len(),
            scan_digits(s@, i as int) == scan_digits(s@, p as int),
        decreases s.len() - i,
    {
        i = i + 1;
    }
    i
}

fn line_end_exec(s: &Vec<char>, p: usize) -> (e: usize)
    requires
        p <= s.len(),
    ensures
        e as int == line_end(s@, p as int),
        p <= e <= s.len(),
{
    let mut i = p;
    while i < s.len() && s[i] != '\n'
        invariant
            p <= i <= s.len(),
            line_end(s@, i as int) == line_end(s@, p as int),
        decreases s.len() - i,
    {
        i = i + 1;
    }
    i
}

/// One step of the executable lexer.
pub enum ExecStep {
    Skip(usize),
    Emit(TokenKind, usize),
    Fail(Error),
}

pub open spec fn step_agrees(x: ExecStep, st: Step, p: int, len: int) -> bool {
    match x {
        ExecStep::Skip(q) => st == Step::Skip(q as int) && p < q <= len,
        ExecStep::Emit(k, q) => st == Step::Emit(k@, q as int) && p < q <= len,
        ExecStep::Fail(e) => st == Step::Fail(e@),
    }
}

fn lex_error_exec(span: (usize, usize), message: &str) -> (e: Error)
    ensures
        e@ == lex_error(span, message@),
{
    Error::lex(Some(span), message)
}

fn lex_number(s: &Vec<char>, p: usize, b: usize) -> (r: ExecStep)
    requires
        p < s.len(),
        is_digit(s@[p as int]),
        b == byte_pos(s@, p as int),
        byte_len(s@) <= usize::MAX,
    ensures
        step_agrees(r, step(s@, p as int), p as int, s.len() as int),
{
    let e1 = scan_digits_exec(s, p);
    let has_frac = e1 < s.len() && s[e1] == '.' && e1 + 1 < s.len() && digit_class(s[e1 + 1]);
    let e2 = if has_frac {
        scan_digits_exec(s, e1 + 1)
    } else {
        e1
    };
    let mut is_float = has_frac;
    let mut has_exp = false;
    let mut exp_start = e2;
    let mut end = e2;
    if e2 < s.len() && (s[e2] == 'e' || s[e2] == 'E') {
        let e3 = if e2 + 1 < s.len() && (s[e2 + 1] == '+' || s[e2 + 1] == '-') {
            e2 + 2
        } else {
            e2 + 1
        };
        is_float = true;
        has_exp = true;
        exp_start = e3;
        end = scan_digits_exec(s, e3);
    }
    let ghost n = scan_number(s@, p as int);
    assert(n.end == end && n.is_float == is_float && n.has_exp == has_exp && n.exp_start
        == exp_start);
    assert(e1 > p) by {
        lemma_scan_bounds(s@, p + 1);
    }
    let end_b = advance_bytes(s, p, b, end);
    let span = (b, end_b);
    if is_float {
        // text without separators
        let mut text: Vec<char> = Vec::new();
        let mut i = p;
        while i < end
            invariant
                p <= i <= end <= s.len(),
                text@ == strip_underscores(s@.subrange(p as int, i as int)),
            decreases end - i,
        {
            assert(s@.subrange(p as int, i + 1).drop_last() =~= s@.subrange(p as int, i as int));
            if s[i] != '_' {
                text.push(s[i]);
            }
            i = i + 1;
        }
        let mut ok = true;
        if has_exp {
            ok = false;
            let mut k = exp_start;
            while k < end
                invariant
                    exp_start <= k <= end <= s.len(),
                    ok == exists|j: int| exp_start <= j < k && is_digit(#[trigger] s@[j]),
                decreases end - k,
            {
                if digit_class(s[k]) {
                    ok = true;
                }
                k = k + 1;
            }
            proof {
                let sub = s@.subrange(exp_start as int, end as int);
                if ok {
                    let j = choose|j: int| exp_start <= j < end && is_digit(#[trigger] s@[j]);
                    assert(is_digit(sub[j - exp_start]));
                } else {
                    assert forall|i: int| 0 <= i < sub.len() implies !is_digit(#[trigger] sub[i]) by {
                        assert(sub[i] == s@[exp_start + i]);
                    }
                }
            }
        }
        if ok {
            let t = string_from_chars(&text);
            ExecStep::Emit(TokenKindOf::FloatLiteral(t), end)
        } else {
            ExecStep::Fail(lex_error_exec(span, "invalid float literal"))
        }
    } else {
        // integer: digits and separators only
        let mut value: i64 = 0;
        let mut overflow = false;
        let ghost mut text: Seq<char> = Seq::empty();
        let mut i = p;
        while i < end
            invariant
                p <= i <= end <= s.len(),
                end == scan_digits(s@, p as int),
                text == strip_underscores(s@.subrange(p as int, i as int)),
                overflow ==> decimal_value(text) > i64::MAX,
                !overflow ==> value == decimal_value(text) && value >= 0,
            decreases end - i,
        {
            proof {
                lemma_scan_digits_chars(s@, p as int, i as int);
            }
            assert(s@.subrange(p as int, i + 1).drop_last() =~= s@.subrange(p as int, i as int));
            let c = s[i];
            if c != '_' {
                proof {
                    lemma_decimal_grows(text, c);
                }
                let d = (c as u32 - 48) as i64;
                if !overflow {
                    if value <= (i64::MAX - d) / 10 {
                        assert(value * 10 + d <= i64::MAX) by (nonlinear_arith)
                            requires
                                value <= (i64::MAX - d) / 10,
                                0 <= d <= 9,
                                value >= 0,
                        ;
                        value = value * 10 + d;
                    } else {
                        assert(value * 10 + d > i64::MAX) by (nonlinear_arith)
                            requires
                                value > (i64::MAX - d) / 10,
                                0 <= d <= 9,
                        ;
                        overflow = true;
                    }
                }
                proof {
                    text = text.push(c);
                }
            }
            i = i + 1;
        }
        if overflow {
            ExecStep::Fail(lex_error_exec(span, "invalid integer literal"))
        } else {
            ExecStep::Emit(TokenKindOf::IntLiteral(value), end)
        }
    }
}

fn escape_exec(c: char) -> (r: Option<char>)
    ensures
        r == escape_of(c),
{
    if c == '\\' {
        Some('\\')
    } else if c == '"' {
        Some('"')
    } else if c == 'n' {
        Some('\n')
    } else if c == 'r' {
        Some('\r')
    } else if c == 't' {
        Some('\t')
    } else if c == '0' {
        Some('\0')
    } else {
        None
    }
}

fn lex_string(s: &Vec<char>, p: usize, b: usize) -> (r: ExecStep)
    requires
        p < s.len(),
        s@[p as int] == '"',
        b == byte_pos(s@, p as int),
        byte_len(s@) <= usize::MAX,
    ensures
        step_agrees(r, step(s@, p as int), p as int, s.len() as int),
{
    let mut acc: Vec<char> = Vec::new();
    let mut i = p + 1;
    while i < s.len()
        invariant
            p < i <= s.len(),
            s@[p as int] == '"',
            scan_string(s@, i as int, acc@) == scan_string(s@, p + 1, Seq::empty()),
            b == byte_pos(s@, p as int),
            byte_len(s@) <= usize::MAX,
        decreases s.len() - i,
    {
        let c = s[i];
        if c == '"' {
            assert(scan_string(s@, i as int, acc@) == StrScan::Closed(i + 1, acc@));
            let v = string_from_chars(&acc);
            assert(scan_string(s@, p + 1, Seq::empty()) == StrScan::Closed(i + 1, acc@));
            assert(step(s@, p as int) == Step::Emit(TokenKindOf::StringLiteral(acc@), i + 1));
            return ExecStep::Emit(TokenKindOf::StringLiteral(v), i + 1);
        } else if c == '\\' {
            if i + 1 >= s.len() {
                assert(scan_string(s@, i as int, acc@) == StrScan::EscapeAtEnd);
                let e = advance_bytes(s, p, b, s.len());
                return ExecStep::Fail(lex_error_exec((e, e), "unterminated escape sequence"));
            }
            let esc = s[i + 1];
            match escape_exec(esc) {
                Some(t) => {
                    acc.push(t);
                    i = i + 2;
                },
                None => {
                    let e = advance_bytes(s, p, b, i + 2);
                    let mut m = String::new();
                    push_str(&mut m, "unsupported escape character '");
                    push_char(&mut m, esc);
                    push_str(&mut m, "'");
                    assert(m@ =~= "unsupported escape character '"@ + seq![esc] + "'"@);
                    let err = Error::lex_owned(Some((e, e)), m);
                    assert(err@ == lex_error(
                        (e, e),
                        "unsupported escape character '"@ + seq![esc] + "'"@,
                    ));
                    return ExecStep::Fail(err);
                },
            }
        } else {
            acc.push(c);
            i = i + 1;
        }
    }
    let e = advance_bytes(s, p, b, s.len());
    ExecStep::Fail(lex_error_exec((b, e), "unterminated string literal"))
}

fn lex_word(s: &Vec<char>, p: usize) -> (r: ExecStep)
    requires
        p < s.len(),
        is_ident_start(s@[p as int]),
    ensures
        step_agrees(r, step(s@, p as int), p as int, s.len() as int),
{
    let end = scan_ident_exec(s, p + 1);
    let mut word: Vec<char> = Vec::new();
    let mut i = p;
    while i < end
        invariant
            p <= i <= end <= s.len(),
            word@ == s@.subrange(p as int, i as int),
        decreases end - i,
    {
        word.push(s[i]);
        i = i + 1;
        assert(word@ =~= s@.subrange(p as int, i as int));
    }
    let w = string_from_chars(&word);
    let kind: TokenKind = if string_eq_str(&w, "module") {
        TokenKindOf::Module
    } else if string_eq_str(&w, "pub") {
        TokenKindOf::Pub
    } else if string_eq_str(&w, "fn") {
        TokenKindOf::Fn
    } else if string_eq_str(&w, "type") {
        TokenKindOf::Type
    } else if string_eq_str(&w, "impl") {
        TokenKindOf::Impl
    } else if string_eq_str(&w, "use") {
        TokenKindOf::Use
    } else if string_eq_str(&w, "let") {
        TokenKindOf::Let
    } else if string_eq_str(&w, "mut") {
        TokenKindOf::Mut
    } else if string_eq_str(&w, "return") {
        TokenKindOf::Return
    } else if string_eq_str(&w, "if") {
        TokenKindOf::If
    } else if string_eq_str(&w, "else") {
        TokenKindOf::Else
    } else if string_eq_str(&w, "match") {
        TokenKindOf::Match
    } else if string_eq_str(&w, "for") {
        TokenKindOf::For
    } else if string_eq_str(&w, "in") {
        TokenKindOf::In
    } else if string_eq_str(&w, "loop") {
        TokenKindOf::Loop
    } else if string_eq_str(&w, "while") {
        TokenKindOf::While
    } else if string_eq_str(&w, "break") {
        TokenKindOf::Break
    } else if string_eq_str(&w, "continue") {
        TokenKindOf::Continue
    } else if string_eq_str(&w, "spawn") {
        TokenKindOf::Spawn
    } else if string_eq_str(&w, "await") {
        TokenKindOf::Await
    } else if string_eq_str(&w, "chan") {
        TokenKindOf::Chan
    } else if string_eq_str(&w, "using") {
        TokenKindOf::Using
    } else if string_eq_str(&w, "as") {
        TokenKindOf::As
    } else if string_eq_str(&w, "true") {
        TokenKindOf::BoolLiteral(true)
    } else if string_eq_str(&w, "false") {
        TokenKindOf::BoolLiteral(false)
    } else {
        TokenKindOf::Identifier(w)
    };
    assert(kind@ == word_token(s@.subrange(p as int, end as int)));
    ExecStep::Emit(kind, end)
}

fn emit_one_or_two(
    s: &Vec<char>,
    p: usize,
    second: char,
    two: TokenKind,
    one: TokenKind,
) -> (r: ExecStep)
    requires
        p < s.len(),
    ensures
        r matches ExecStep::Emit(k, q) && step_agrees(
            r,
            one_or_two(s@, p as int, second, two@, one@),
            p as int,
            s.len() as int,
        ),
{
    if p + 1 < s.len() && s[p + 1] == second {
        ExecStep::Emit(two, p + 2)
    } else {
        ExecStep::Emit(one, p + 1)
    }
}

fn lex_step(s: &Vec<char>, p: usize, b: usize) -> (r: ExecStep)
    requires
        p < s.len(),
        b == byte_pos(s@, p as int),
        byte_len(s@) <= usize::MAX,
    ensures
        step_agrees(r, step(s@, p as int), p as int, s.len() as int),
{
    let c = s[p];
    if c == ' ' || c == '\t' || c == '\r' || c == '\n' {
        ExecStep::Skip(p + 1)
    } else if c == '/' {
        if p + 1 < s.len() && s[p + 1] == '/' {
            let e = line_end_exec(s, p + 2);
            ExecStep::Skip(e)
        } else {
            ExecStep::Emit(TokenKindOf::Slash, p + 1)
        }
    } else if digit_class(c) {
        lex_number(s, p, b)
    } else if ident_start_class(c) {
        lex_word(s, p)
    } else if c == '"' {
        lex_string(s, p, b)
    } else if c == '(' {
        ExecStep::Emit(TokenKindOf::LParen, p + 1)
    } else if c == ')' {
        ExecStep::Emit(TokenKindOf::RParen, p + 1)
    } else if c == '{' {
        ExecStep::Emit(TokenKindOf::LBrace, p + 1)
    } else if c == '}' {
        ExecStep::Emit(TokenKindOf::RBrace, p + 1)
    } else if c == '[' {
        ExecStep::Emit(TokenKindOf::LBracket, p + 1)
    } else if c == ']' {
        ExecStep::Emit(TokenKindOf::RBracket, p + 1)
    } else if c == ',' {
        ExecStep::Emit(TokenKindOf::Comma, p + 1)
    } else if c == ':' {
        emit_one_or_two(s, p, ':', TokenKindOf::DoubleColon, TokenKindOf::Colon)
    } else if c == ';' {
        ExecStep::Emit(TokenKindOf::Semi, p + 1)
    } else if c == '.' {
        ExecStep::Emit(TokenKindOf::Dot, p + 1)
    } else if c == '+' {
        ExecStep::Emit(TokenKindOf::Plus, p + 1)
    } else if c == '%' {
        ExecStep::Emit(TokenKindOf::Percent, p + 1)
    } else if c == '?' {
        ExecStep::Emit(TokenKindOf::Question, p + 1)
    } else if c == '!' {
        emit_one_or_two(s, p, '=', TokenKindOf::NotEq, TokenKindOf::Bang)
    } else if c == '-' {
        emit_one_or_two(s, p, '>', TokenKindOf::ThinArrow, TokenKindOf::Minus)
    } else if c == '=' {
        if p + 1 < s.len() && s[p + 1] == '>' {
            ExecStep::Emit(TokenKindOf::FatArrow, p + 2)
        } else {
            emit_one_or_two(s, p, '=', TokenKindOf::EqEq, TokenKindOf::Assign)
        }
    } else if c == '*' {
        ExecStep::Emit(TokenKindOf::Star, p + 1)
    } else if c == '<' {
        emit_one_or_two(s, p, '=', TokenKindOf::Le, TokenKindOf::Lt)
    } else if c == '>' {
        emit_one_or_two(s, p, '=', TokenKindOf::Ge, TokenKindOf::Gt)
    } else if c == '&' {
        emit_one_or_two(s, p, '&', TokenKindOf::AndAnd, TokenKindOf::Ampersand)
    } else if c == '|' {
        emit_one_or_two(s, p, '|', TokenKindOf::OrOr, TokenKindOf::Pipe)
    } else {
        let mut m = String::new();
        push_str(&mut m, "unexpected character '");
        push_char(&mut m, c);
        push_str(&mut m, "'");
        assert(m@ =~= "unexpected character '"@ + seq![c] + "'"@);
        let err = Error::lex_owned(Some((b, b)), m);
        assert(err@ == lex_error((b, b), "unexpected character '"@ + seq![c] + "'"@));
        ExecStep::Fail(err)
    }
}

/// The views of a sequence of tokens.
pub open spec fn token_views(ts: Seq<Token>) -> Seq<SpecToken> {
    ts.map_values(|t: Token| t@)
}

/// Splits `input` into tokens, ending with an `Eof` token, or reports the
/// first lexical error.
pub fn lex(input: &str) -> (r: Result<Vec<Token>, Error>)
    requires
        byte_len(input@) <= usize::MAX,
    ensures
        r matches Ok(tokens) ==> spec_lex(input@) == Ok::<Seq<SpecToken>, SpecError>(
            token_views(tokens@),
        ),
        r matches Err(e) ==> spec_lex(input@) == Err::<Seq<SpecToken>, SpecError>(e@),
{
    let s = chars_of(input);
    let mut tokens: Vec<Token> = Vec::new();
    let mut p: usize = 0;
    let mut b: usize = 0;
    assert(prepend(token_views(tokens@), lex_from(s@, 0)) == lex_from(s@, 0)) by {
        match lex_from(s@, 0) {
            Ok(rest) => {
                assert(token_views(tokens@) + rest =~= rest);
            },
            Err(_) => {},
        }
    }
    while p < s.len()
        invariant
            s@ == input@,
            p <= s.len(),
            b == byte_pos(s@, p as int),
            byte_len(s@) <= usize::MAX,
            lex_from(s@, 0) == prepend(token_views(tokens@), lex_from(s@, p as int)),
        decreases s.len() - p,
    {
        match lex_step(&s, p, b) {
            ExecStep::Skip(q) => {
                b = advance_bytes(&s, p, b, q);
                p = q;
            },
            ExecStep::Emit(kind, q) => {
                let qb = advance_bytes(&s, p, b, q);
                let ghost before = token_views(tokens@);
                let ghost kv = kind@;
                let tok = Token::new(kind, (b, qb));
                tokens.push(tok);
                proof {
                    let st = SpecToken { kind: kv, span: (b, qb) };
                    assert(token_views(tokens@) =~= before.push(st));
                    match lex_from(s@, q as int) {
                        Ok(rest) => {
                            assert(before + (seq![st] + rest) =~= before.push(st) + rest);
                        },
                        Err(_) => {},
                    }
                }
                b = qb;
                p = q;
            },
            ExecStep::Fail(e) => {
                return Err(e);
            },
        }
    }
    let ghost before = token_views(tokens@);
    tokens.push(Token::new(TokenKindOf::Eof, (b, b)));
    proof {
        let eof = SpecToken { kind: TokenKindOf::Eof, span: (b, b) };
        assert(token_views(tokens@) =~= before.push(eof));
        assert(lex_from(s@, p as int) == Ok::<Seq<SpecToken>, SpecError>(seq![eof]));
        assert(before + seq![eof] =~= before.push(eof));
    }
    Ok(tokens)
}

} // verus!
