//! The syntax tree of a Mica module.
use vstd::prelude::*;

use crate::text::push_str;

verus! {

/// A complete Mica module produced by the parser.
#[derive(Debug)]
pub struct Module {
    pub name: Vec<String>,
    pub items: Vec<Item>,
}

#[derive(Debug)]
pub enum Item {
    Function(Function),
    TypeAlias(TypeAlias),
    Use(UseDecl),
}

#[derive(Debug)]
pub struct UseDecl {
    pub path: Vec<String>,
    pub alias: Option<String>,
}

#[derive(Debug)]
pub struct TypeAlias {
    pub is_public: bool,
    pub name: String,
    pub params: Vec<String>,
    pub value: TypeExpr,
}

#[derive(Debug)]
pub enum TypeExpr {
    Name(String),
    Generic(String, Vec<TypeExpr>),
    Record(Vec<(String, TypeExpr)>),
    Sum(Vec<TypeVariant>),
    List(Box<TypeExpr>),
    Tuple(Vec<TypeExpr>),
    Reference { is_mut: bool, inner: Box<TypeExpr> },
    Function { params: Vec<TypeExpr>, return_type: Box<TypeExpr>, effect_row: Vec<String> },
    Unit,
}

#[derive(Debug)]
pub struct TypeVariant {
    pub name: String,
    pub fields: Vec<TypeExpr>,
}

#[derive(Debug)]
pub struct Function {
    pub is_public: bool,
    pub name: String,
    pub generics: Vec<String>,
    pub params: Vec<Param>,
    pub return_type: Option<TypeExpr>,
    pub effect_row: Vec<String>,
    pub body: Block,
}

#[derive(Debug)]
pub struct Param {
    pub name: String,
    pub ty: TypeExpr,
    pub mutable: bool,
}

#[derive(Debug)]
pub struct Block {
    pub statements: Vec<Stmt>,
}

#[derive(Debug)]
pub enum Stmt {
    Let(LetStmt),
    Expr(Expr),
    Return(Option<Expr>),
    Break,
    Continue,
}

#[derive(Debug)]
pub struct LetStmt {
    pub mutable: bool,
    pub name: String,
    pub value: Expr,
}

#[derive(Debug)]
pub enum Expr {
    Block(Block),
    Literal(Literal),
    Path(Path),
    Binary { lhs: Box<Expr>, op: BinaryOp, rhs: Box<Expr> },
    Unary { op: UnaryOp, expr: Box<Expr> },
    Call { callee: Box<Expr>, args: Vec<Expr> },
    Field { expr: Box<Expr>, name: String },
    Index { expr: Box<Expr>, index: Box<Expr> },
    If { condition: Box<Expr>, then_branch: Box<Expr>, else_branch: Option<Box<Expr>> },
    Match { scrutinee: Box<Expr>, arms: Vec<MatchArm> },
    For { binding: String, iterable: Box<Expr>, body: Box<Expr> },
    While { condition: Box<Expr>, body: Box<Expr> },
    Loop { body: Box<Expr> },
    Assignment { target: Box<Expr>, value: Box<Expr> },
    Spawn(Box<Expr>),
    Await(Box<Expr>),
    Chan { ty: Box<TypeExpr>, capacity: Option<Box<Expr>> },
    Using { binding: Option<String>, expr: Box<Expr>, body: Block },
    Try(Box<Expr>),
}

/// A `::`-separated path such as `Option::Some`.
#[derive(Debug)]
pub struct Path {
    pub segments: Vec<String>,
}

#[derive(Debug)]
pub struct MatchArm {
    pub pattern: Pattern,
    pub guard: Option<Expr>,
    pub body: Expr,
}

#[derive(Debug)]
pub enum Pattern {
    Wildcard,
    Binding(String),
    Literal(Literal),
    Tuple(Vec<Pattern>),
    Record(Vec<(String, Pattern)>),
    EnumVariant { path: Path, fields: Vec<Pattern> },
}

/// A literal. A floating-point literal is kept as its decimal source text
/// (digit separators removed), exactly as it was written.
#[derive(Debug)]
pub enum Literal {
    Int(i64),
    Float(String),
    Bool(bool),
    String(String),
    Unit,
}

#[derive(Debug, Clone, Copy, PartialEq, Eq, Structural)]
pub enum BinaryOp {
    Add,
    Sub,
    Mul,
    Div,
    Mod,
    Eq,
    Ne,
    Lt,
    Le,
    Gt,
    Ge,
    And,
    Or,
}

#[derive(Debug, Clone, Copy, PartialEq, Eq, Structural)]
pub enum UnaryOp {
    Neg,
    Not,
    Ref,
    RefMut,
}

/// The source symbol of a binary operator.
pub open spec fn binary_symbol(op: BinaryOp) -> Seq<char> {
    match op {
        BinaryOp::Add => "+"@,
        BinaryOp::Sub => "-"@,
        BinaryOp::Mul => "*"@,
        BinaryOp::Div => "/"@,
        BinaryOp::Mod => "%"@,
        BinaryOp::Eq => "=="@,
        BinaryOp::Ne => "!="@,
        BinaryOp::Lt => "<"@,
        BinaryOp::Le => "<="@,
        BinaryOp::Gt => ">"@,
        BinaryOp::Ge => ">="@,
        BinaryOp::And => "&&"@,
        BinaryOp::Or => "||"@,
    }
}

impl BinaryOp {
    /// Appends the source symbol of the operator.
    pub fn push_symbol(&self, out: &mut String)
        ensures
            final(out)@ == old(out)@ + binary_symbol(*self),
    {
        match self {
            BinaryOp::Add => push_str(out, "+"),
            BinaryOp::Sub => push_str(out, "-"),
            BinaryOp::Mul => push_str(out, "*"),
            BinaryOp::Div => push_str(out, "/"),
            BinaryOp::Mod => push_str(out, "%"),
            BinaryOp::Eq => push_str(out, "=="),
            BinaryOp::Ne => push_str(out, "!="),
            BinaryOp::Lt => push_str(out, "<"),
            BinaryOp::Le => push_str(out, "<="),
            BinaryOp::Gt => push_str(out, ">"),
            BinaryOp::Ge => push_str(out, ">="),
            BinaryOp::And => push_str(out, "&&"),
            BinaryOp::Or => push_str(out, "||"),
        }
    }

    /// The displayed form of the operator: its source symbol.
    pub fn to_display_string(&self) -> (s: String)
        ensures
            s@ == binary_symbol(*self),
    {
        let mut s = String::new();
        self.push_symbol(&mut s);
        assert(s@ =~= binary_symbol(*self));
        s
    }
}

} // verus!
