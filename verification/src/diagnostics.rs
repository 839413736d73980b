//! Errors reported by the lexer and the parser.
use vstd::prelude::*;

use crate::text::{int_text, nat_digits, push_char, push_nat, push_str};

verus! {

/// The stage that reported an error.
#[derive(Debug, Clone, Copy, PartialEq, Eq, Structural)]
pub enum ErrorKind {
    Lex,
    Parse,
}

/// A lexical or parse error: its kind, the byte span it concerns (when
/// known) and a human readable message.
#[derive(Debug, Clone)]
pub struct Error {
    pub kind: ErrorKind,
    pub span: Option<(usize, usize)>,
    pub message: String,
}

/// What an error holds, with the message as a character sequence.
pub struct SpecError {
    pub kind: ErrorKind,
    pub span: Option<(usize, usize)>,
    pub message: Seq<char>,
}

impl View for Error {
    type V = SpecError;

    open spec fn view(&self) -> SpecError {
        SpecError { kind: self.kind, span: self.span, message: self.message@ }
    }
}

/// `Lex` / `Parse`, as the debug rendering of the kind names it.
pub open spec fn kind_debug(kind: ErrorKind) -> Seq<char> {
    match kind {
        ErrorKind::Lex => "Lex"@,
        ErrorKind::Parse => "Parse"@,
    }
}

/// `lexical` / `parse`, the user-facing label of a kind.
pub open spec fn kind_label(kind: ErrorKind) -> Seq<char> {
    match kind {
        ErrorKind::Lex => "lexical"@,
        ErrorKind::Parse => "parse"@,
    }
}

/// How an error is displayed: `Lex error at 1..3: bad`, or without a span
/// `Parse error: oops`.
pub open spec fn error_text(e: SpecError) -> Seq<char> {
    match e.span {
        Some((start, end)) => kind_debug(e.kind) + " error at "@ + nat_digits(start as nat)
            + ".."@ + nat_digits(end as nat) + ": "@ + e.message,
        None => kind_debug(e.kind) + " error: "@ + e.message,
    }
}

impl ErrorKind {
    /// The user-facing label of the kind.
    pub fn to_display_string(&self) -> (s: String)
        ensures
            s@ == kind_label(*self),
    {
        let mut s = String::new();
        match self {
            ErrorKind::Lex => push_str(&mut s, "lexical"),
            ErrorKind::Parse => push_str(&mut s, "parse"),
        }
        assert(s@ =~= kind_label(*self));
        s
    }
}

impl Error {
    /// A lexical error.
    pub fn lex(span: Option<(usize, usize)>, message: &str) -> (e: Error)
        ensures
            e@ == (SpecError { kind: ErrorKind::Lex, span, message: message@ }),
    {
        let mut m = String::new();
        push_str(&mut m, message);
        assert(m@ =~= message@);
        Error { kind: ErrorKind::Lex, span, message: m }
    }

    /// A parse error.
    pub fn parse(span: Option<(usize, usize)>, message: &str) -> (e: Error)
        ensures
            e@ == (SpecError { kind: ErrorKind::Parse, span, message: message@ }),
    {
        let mut m = String::new();
        push_str(&mut m, message);
        assert(m@ =~= message@);
        Error { kind: ErrorKind::Parse, span, message: m }
    }

    /// A lexical error whose message is already a string.
    pub fn lex_owned(span: Option<(usize, usize)>, message: String) -> (e: Error)
        ensures
            e@ == (SpecError { kind: ErrorKind::Lex, span, message: message@ }),
    {
        Error { kind: ErrorKind::Lex, span, message }
    }

    /// A parse error whose message is already a string.
    pub fn parse_owned(span: Option<(usize, usize)>, message: String) -> (e: Error)
        ensures
            e@ == (SpecError { kind: ErrorKind::Parse, span, message: message@ }),
    {
        Error { kind: ErrorKind::Parse, span, message }
    }

    /// The displayed form of the error.
    pub fn to_display_string(&self) -> (s: String)
        ensures
            s@ == error_text(self@),
    {
        let mut s = String::new();
        match self.kind {
            ErrorKind::Lex => push_str(&mut s, "Lex"),
            ErrorKind::Parse => push_str(&mut s, "Parse"),
        }
        match self.span {
            Some((start, end)) => {
                push_str(&mut s, " error at ");
                push_nat(&mut s, start as u64);
                push_str(&mut s, "..");
                push_nat(&mut s, end as u64);
                push_str(&mut s, ": ");
            },
            None => {
                push_str(&mut s, " error: ");
            },
        }
        push_str(&mut s, self.message.as_str());
        assert(s@ =~= error_text(self@));
        s
    }
}

} // verus!
