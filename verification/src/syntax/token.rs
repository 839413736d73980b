//! Tokens produced by the lexer.
use vstd::prelude::*;

verus! {

/// The kind of a token. The text of identifiers, string literals and
/// floating-point literals is held as `S`: a `String` in tokens, a
/// character sequence in their view.
#[derive(Debug, Clone, PartialEq)]
pub enum TokenKindOf<S> {
    // Keywords
    Module,
    Pub,
    Fn,
    Type,
    Impl,
    Use,
    Let,
    Mut,
    Return,
    If,
    Else,
    Match,
    For,
    In,
    Loop,
    While,
    Break,
    Continue,
    Spawn,
    Await,
    Chan,
    Using,
    As,
    // Literals and identifiers
    Identifier(S),
    IntLiteral(i64),
    /// A floating-point literal, as its decimal text with `_` separators removed.
    FloatLiteral(S),
    StringLiteral(S),
    BoolLiteral(bool),
    // Symbols
    LParen,
    RParen,
    LBrace,
    RBrace,
    LBracket,
    RBracket,
    Comma,
    Colon,
    DoubleColon,
    Semi,
    Dot,
    ThinArrow,
    FatArrow,
    Assign,
    Plus,
    Minus,
    Star,
    Slash,
    Percent,
    Ampersand,
    Pipe,
    Question,
    Bang,
    EqEq,
    NotEq,
    Lt,
    Le,
    Gt,
    Ge,
    AndAnd,
    OrOr,
    Eof,
}

/// The kind of a token as the lexer returns it.
pub type TokenKind = TokenKindOf<String>;

/// The kind of a token with its text as character sequences.
pub type SpecTokenKind = TokenKindOf<Seq<char>>;

impl View for TokenKindOf<String> {
    type V = SpecTokenKind;

    open spec fn view(&self) -> SpecTokenKind {
        match self {
            TokenKindOf::Module => TokenKindOf::Module,
            TokenKindOf::Pub => TokenKindOf::Pub,
            TokenKindOf::Fn => TokenKindOf::Fn,
            TokenKindOf::Type => TokenKindOf::Type,
            TokenKindOf::Impl => TokenKindOf::Impl,
            TokenKindOf::Use => TokenKindOf::Use,
            TokenKindOf::Let => TokenKindOf::Let,
            TokenKindOf::Mut => TokenKindOf::Mut,
            TokenKindOf::Return => TokenKindOf::Return,
            TokenKindOf::If => TokenKindOf::If,
            TokenKindOf::Else => TokenKindOf::Else,
            TokenKindOf::Match => TokenKindOf::Match,
            TokenKindOf::For => TokenKindOf::For,
            TokenKindOf::In => TokenKindOf::In,
            TokenKindOf::Loop => TokenKindOf::Loop,
            TokenKindOf::While => TokenKindOf::While,
            TokenKindOf::Break => TokenKindOf::Break,
            TokenKindOf::Continue => TokenKindOf::Continue,
            TokenKindOf::Spawn => TokenKindOf::Spawn,
            TokenKindOf::Await => TokenKindOf::Await,
            TokenKindOf::Chan => TokenKindOf::Chan,
            TokenKindOf::Using => TokenKindOf::Using,
            TokenKindOf::As => TokenKindOf::As,
            TokenKindOf::Identifier(s) => TokenKindOf::Identifier(s@),
            TokenKindOf::IntLiteral(v) => TokenKindOf::IntLiteral(*v),
            TokenKindOf::FloatLiteral(s) => TokenKindOf::FloatLiteral(s@),
            TokenKindOf::StringLiteral(s) => TokenKindOf::StringLiteral(s@),
            TokenKindOf::BoolLiteral(b) => TokenKindOf::BoolLiteral(*b),
            TokenKindOf::LParen => TokenKindOf::LParen,
            TokenKindOf::RParen => TokenKindOf::RParen,
            TokenKindOf::LBrace => TokenKindOf::LBrace,
            TokenKindOf::RBrace => TokenKindOf::RBrace,
            TokenKindOf::LBracket => TokenKindOf::LBracket,
            TokenKindOf::RBracket => TokenKindOf::RBracket,
            TokenKindOf::Comma => TokenKindOf::Comma,
            TokenKindOf::Colon => TokenKindOf::Colon,
            TokenKindOf::DoubleColon => TokenKindOf::DoubleColon,
            TokenKindOf::Semi => TokenKindOf::Semi,
            TokenKindOf::Dot => TokenKindOf::Dot,
            TokenKindOf::ThinArrow => TokenKindOf::ThinArrow,
            TokenKindOf::FatArrow => TokenKindOf::FatArrow,
            TokenKindOf::Assign => TokenKindOf::Assign,
            TokenKindOf::Plus => TokenKindOf::Plus,
            TokenKindOf::Minus => TokenKindOf::Minus,
            TokenKindOf::Star => TokenKindOf::Star,
            TokenKindOf::Slash => TokenKindOf::Slash,
            TokenKindOf::Percent => TokenKindOf::Percent,
            TokenKindOf::Ampersand => TokenKindOf::Ampersand,
            TokenKindOf::Pipe => TokenKindOf::Pipe,
            TokenKindOf::Question => TokenKindOf::Question,
            TokenKindOf::Bang => TokenKindOf::Bang,
            TokenKindOf::EqEq => TokenKindOf::EqEq,
            TokenKindOf::NotEq => TokenKindOf::NotEq,
            TokenKindOf::Lt => TokenKindOf::Lt,
            TokenKindOf::Le => TokenKindOf::Le,
            TokenKindOf::Gt => TokenKindOf::Gt,
            TokenKindOf::Ge => TokenKindOf::Ge,
            TokenKindOf::AndAnd => TokenKindOf::AndAnd,
            TokenKindOf::OrOr => TokenKindOf::OrOr,
            TokenKindOf::Eof => TokenKindOf::Eof,
        }
    }
}

/// A token and the byte span of the source text it was read from.
#[derive(Debug, PartialEq)]
pub struct Token {
    pub kind: TokenKind,
    pub span: (usize, usize),
}

/// A token with its kind viewed as a [`SpecTokenKind`].
pub struct SpecToken {
    pub kind: SpecTokenKind,
    pub span: (usize, usize),
}

impl View for Token {
    type V = SpecToken;

    open spec fn view(&self) -> SpecToken {
        SpecToken { kind: self.kind@, span: self.span }
    }
}

impl Token {
    pub fn new(kind: TokenKind, span: (usize, usize)) -> (t: Token)
        ensures
            t.kind == kind,
            t.span == span,
    {
        Token { kind, span }
    }
}

} // verus!
