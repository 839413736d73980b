//! The syntax tree as mathematical values: each node of `ast` with its
//! strings as character sequences and its vectors as sequences.
use vstd::prelude::*;

use crate::syntax::ast::{
    BinaryOp, Block, Expr, Function, Item, LetStmt, Literal, MatchArm, Module, Param, Pattern, Stmt,
    TypeAlias, TypeExpr, TypeVariant, UnaryOp, UseDecl,
};
use crate::text::views;

verus! {

pub struct ModuleV {
    pub name: Seq<Seq<char>>,
    pub items: Seq<ItemV>,
}

pub enum ItemV {
    Function(FunctionV),
    TypeAlias(TypeAliasV),
    Use(UseDeclV),
}

pub struct UseDeclV {
    pub path: Seq<Seq<char>>,
    pub alias: Option<Seq<char>>,
}

pub struct TypeAliasV {
    pub is_public: bool,
    pub name: Seq<char>,
    pub params: Seq<Seq<char>>,
    pub value: TypeExprV,
}

pub enum TypeExprV {
    Name(Seq<char>),
    Generic(Seq<char>, Seq<TypeExprV>),
    Record(Seq<(Seq<char>, TypeExprV)>),
    Sum(Seq<TypeVariantV>),
    List(Box<TypeExprV>),
    Tuple(Seq<TypeExprV>),
    Reference { is_mut: bool, inner: Box<TypeExprV> },
    Function { params: Seq<TypeExprV>, ret: Box<TypeExprV>, effects: Seq<Seq<char>> },
    Unit,
}

pub struct TypeVariantV {
    pub name: Seq<char>,
    pub fields: Seq<TypeExprV>,
}

pub struct FunctionV {
    pub is_public: bool,
    pub name: Seq<char>,
    pub generics: Seq<Seq<char>>,
    pub params: Seq<ParamV>,
    pub return_type: Option<TypeExprV>,
    pub effect_row: Seq<Seq<char>>,
    pub body: BlockV,
}

pub struct ParamV {
    pub name: Seq<char>,
    pub ty: TypeExprV,
    pub mutable: bool,
}

pub struct BlockV {
    pub statements: Seq<StmtV>,
}

pub enum StmtV {
    Let { mutable: bool, name: Seq<char>, value: ExprV },
    Expr(ExprV),
    Return(Option<ExprV>),
    Break,
    Continue,
}

pub enum LiteralV {
    Int(i64),
    Float(Seq<char>),
    Bool(bool),
    String(Seq<char>),
    Unit,
}

pub enum ExprV {
    Block(BlockV),
    Literal(LiteralV),
    Path(Seq<Seq<char>>),
    Binary { lhs: Box<ExprV>, op: BinaryOp, rhs: Box<ExprV> },
    Unary { op: UnaryOp, expr: Box<ExprV> },
    Call { callee: Box<ExprV>, args: Seq<ExprV> },
    Field { expr: Box<ExprV>, name: Seq<char> },
    Index { expr: Box<ExprV>, index: Box<ExprV> },
    If { condition: Box<ExprV>, then_branch: Box<ExprV>, else_branch: Option<Box<ExprV>> },
    Match { scrutinee: Box<ExprV>, arms: Seq<MatchArmV> },
    For { binding: Seq<char>, iterable: Box<ExprV>, body: Box<ExprV> },
    While { condition: Box<ExprV>, body: Box<ExprV> },
    Loop { body: Box<ExprV> },
    Assignment { target: Box<ExprV>, value: Box<ExprV> },
    Spawn(Box<ExprV>),
    Await(Box<ExprV>),
    Chan { ty: TypeExprV, capacity: Option<Box<ExprV>> },
    Using { binding: Option<Seq<char>>, expr: Box<ExprV>, body: BlockV },
    Try(Box<ExprV>),
}

pub struct MatchArmV {
    pub pattern: PatternV,
    pub guard: Option<ExprV>,
    pub body: ExprV,
}

pub enum PatternV {
    Wildcard,
    Binding(Seq<char>),
    Literal(LiteralV),
    Tuple(Seq<PatternV>),
    Record(Seq<(Seq<char>, PatternV)>),
    EnumVariant { path: Seq<Seq<char>>, fields: Seq<PatternV> },
}

pub open spec fn opt_str(o: Option<String>) -> Option<Seq<char>> {
    match o {
        Some(s) => Some(s@),
        None => None,
    }
}

pub open spec fn literal_v(l: Literal) -> LiteralV {
    match l {
        Literal::Int(v) => LiteralV::Int(v),
        Literal::Float(t) => LiteralV::Float(t@),
        Literal::Bool(b) => LiteralV::Bool(b),
        Literal::String(s) => LiteralV::String(s@),
        Literal::Unit => LiteralV::Unit,
    }
}

pub open spec fn type_v(t: TypeExpr) -> TypeExprV
    decreases t,
{
    match t {
        TypeExpr::Name(n) => TypeExprV::Name(n@),
        TypeExpr::Generic(n, args) => TypeExprV::Generic(n@, types_v(args@)),
        TypeExpr::Record(fields) => TypeExprV::Record(type_fields_v(fields@)),
        TypeExpr::Sum(vars) => TypeExprV::Sum(variants_v(vars@)),
        TypeExpr::List(inner) => TypeExprV::List(Box::new(type_v(*inner))),
        TypeExpr::Tuple(items) => TypeExprV::Tuple(types_v(items@)),
        TypeExpr::Reference { is_mut, inner } => TypeExprV::Reference {
            is_mut,
            inner: Box::new(type_v(*inner)),
        },
        TypeExpr::Function { params, return_type, effect_row } => TypeExprV::Function {
            params: types_v(params@),
            ret: Box::new(type_v(*return_type)),
            effects: views(effect_row@),
        },
        TypeExpr::Unit => TypeExprV::Unit,
    }
}

pub open spec fn types_v(ts: Seq<TypeExpr>) -> Seq<TypeExprV>
    decreases ts,
{
    if ts.len() == 0 {
        Seq::empty()
    } else {
        types_v(ts.drop_last()).push(type_v(ts.last()))
    }
}

pub proof fn lemma_types_v_len(ts: Seq<TypeExpr>)
    ensures
        types_v(ts).len() == ts.len(),
    decreases ts.len(),
{
    if ts.len() > 0 {
        lemma_types_v_len(ts.drop_last());
    }
}

pub open spec fn type_fields_v(fs: Seq<(String, TypeExpr)>) -> Seq<(Seq<char>, TypeExprV)>
    decreases fs,
{
    if fs.len() == 0 {
        Seq::empty()
    } else {
        type_fields_v(fs.drop_last()).push((fs.last().0@, type_v(fs.last().1)))
    }
}

pub open spec fn variants_v(vs: Seq<TypeVariant>) -> Seq<TypeVariantV>
    decreases vs,
{
    if vs.len() == 0 {
        Seq::empty()
    } else {
        variants_v(vs.drop_last()).push(
            TypeVariantV { name: vs.last().name@, fields: types_v(vs.last().fields@) },
        )
    }
}

pub open spec fn pattern_v(p: Pattern) -> PatternV
    decreases p,
{
    match p {
        Pattern::Wildcard => PatternV::Wildcard,
        Pattern::Binding(n) => PatternV::Binding(n@),
        Pattern::Literal(l) => PatternV::Literal(literal_v(l)),
        Pattern::Tuple(ps) => PatternV::Tuple(patterns_v(ps@)),
        Pattern::Record(fs) => PatternV::Record(pattern_fields_v(fs@)),
        Pattern::EnumVariant { path, fields } => PatternV::EnumVariant {
            path: views(path.segments@),
            fields: patterns_v(fields@),
        },
    }
}

pub open spec fn patterns_v(ps: Seq<Pattern>) -> Seq<PatternV>
    decreases ps,
{
    if ps.len() == 0 {
        Seq::empty()
    } else {
        patterns_v(ps.drop_last()).push(pattern_v(ps.last()))
    }
}

pub open spec fn pattern_fields_v(fs: Seq<(String, Pattern)>) -> Seq<(Seq<char>, PatternV)>
    decreases fs,
{
    if fs.len() == 0 {
        Seq::empty()
    } else {
        pattern_fields_v(fs.drop_last()).push((fs.last().0@, pattern_v(fs.last().1)))
    }
}

pub open spec fn expr_v(e: Expr) -> ExprV
    decreases e,
{
    match e {
        Expr::Block(b) => ExprV::Block(block_v(b)),
        Expr::Literal(l) => ExprV::Literal(literal_v(l)),
        Expr::Path(p) => ExprV::Path(views(p.segments@)),
        Expr::Binary { lhs, op, rhs } => ExprV::Binary {
            lhs: Box::new(expr_v(*lhs)),
            op,
            rhs: Box::new(expr_v(*rhs)),
        },
        Expr::Unary { op, expr } => ExprV::Unary { op, expr: Box::new(expr_v(*expr)) },
        Expr::Call { callee, args } => ExprV::Call {
            callee: Box::new(expr_v(*callee)),
            args: exprs_v(args@),
        },
        Expr::Field { expr, name } => ExprV::Field { expr: Box::new(expr_v(*expr)), name: name@ },
        Expr::Index { expr, index } => ExprV::Index {
            expr: Box::new(expr_v(*expr)),
            index: Box::new(expr_v(*index)),
        },
        Expr::If { condition, then_branch, else_branch } => ExprV::If {
            condition: Box::new(expr_v(*condition)),
            then_branch: Box::new(expr_v(*then_branch)),
            else_branch: match else_branch {
                Some(b) => Some(Box::new(expr_v(*b))),
                None => None,
            },
        },
        Expr::Match { scrutinee, arms } => ExprV::Match {
            scrutinee: Box::new(expr_v(*scrutinee)),
            arms: arms_v(arms@),
        },
        Expr::For { binding, iterable, body } => ExprV::For {
            binding: binding@,
            iterable: Box::new(expr_v(*iterable)),
            body: Box::new(expr_v(*body)),
        },
        Expr::While { condition, body } => ExprV::While {
            condition: Box::new(expr_v(*condition)),
            body: Box::new(expr_v(*body)),
        },
        Expr::Loop { body } => ExprV::Loop { body: Box::new(expr_v(*body)) },
        Expr::Assignment { target, value } => ExprV::Assignment {
            target: Box::new(expr_v(*target)),
            value: Box::new(expr_v(*value)),
        },
        Expr::Spawn(x) => ExprV::Spawn(Box::new(expr_v(*x))),
        Expr::Await(x) => ExprV::Await(Box::new(expr_v(*x))),
        Expr::Chan { ty, capacity } => ExprV::Chan {
            ty: type_v(*ty),
            capacity: match capacity {
                Some(c) => Some(Box::new(expr_v(*c))),
                None => None,
            },
        },
        Expr::Using { binding, expr, body } => ExprV::Using {
            binding: opt_str(binding),
            expr: Box::new(expr_v(*expr)),
            body: block_v(body),
        },
        Expr::Try(x) => ExprV::Try(Box::new(expr_v(*x))),
    }
}

pub open spec fn exprs_v(es: Seq<Expr>) -> Seq<ExprV>
    decreases es,
{
    if es.len() == 0 {
        Seq::empty()
    } else {
        exprs_v(es.drop_last()).push(expr_v(es.last()))
    }
}

pub open spec fn arms_v(arms: Seq<MatchArm>) -> Seq<MatchArmV>
    decreases arms,
{
    if arms.len() == 0 {
        Seq::empty()
    } else {
        let a = arms.last();
        arms_v(arms.drop_last()).push(
            MatchArmV {
                pattern: pattern_v(a.pattern),
                guard: match a.guard {
                    Some(g) => Some(expr_v(g)),
                    None => None,
                },
                body: expr_v(a.body),
            },
        )
    }
}

pub open spec fn block_v(b: Block) -> BlockV
    decreases b,
{
    BlockV { statements: stmts_v(b.statements@) }
}

pub open spec fn stmts_v(ss: Seq<Stmt>) -> Seq<StmtV>
    decreases ss,
{
    if ss.len() == 0 {
        Seq::empty()
    } else {
        stmts_v(ss.drop_last()).push(stmt_v(ss.last()))
    }
}

pub open spec fn stmt_v(s: Stmt) -> StmtV
    decreases s,
{
    match s {
        Stmt::Let(l) => StmtV::Let { mutable: l.mutable, name: l.name@, value: expr_v(l.value) },
        Stmt::Expr(e) => StmtV::Expr(expr_v(e)),
        Stmt::Return(r) => StmtV::Return(
            match r {
                Some(e) => Some(expr_v(e)),
                None => None,
            },
        ),
        Stmt::Break => StmtV::Break,
        Stmt::Continue => StmtV::Continue,
    }
}

pub open spec fn param_v(p: Param) -> ParamV {
    ParamV { name: p.name@, ty: type_v(p.ty), mutable: p.mutable }
}

pub open spec fn params_v(ps: Seq<Param>) -> Seq<ParamV>
    decreases ps.len(),
{
    if ps.len() == 0 {
        Seq::empty()
    } else {
        params_v(ps.drop_last()).push(param_v(ps.last()))
    }
}

pub open spec fn function_v(f: Function) -> FunctionV {
    FunctionV {
        is_public: f.is_public,
        name: f.name@,
        generics: views(f.generics@),
        params: params_v(f.params@),
        return_type: match f.return_type {
            Some(t) => Some(type_v(t)),
            None => None,
        },
        effect_row: views(f.effect_row@),
        body: block_v(f.body),
    }
}

pub open spec fn alias_v(a: TypeAlias) -> TypeAliasV {
    TypeAliasV { is_public: a.is_public, name: a.name@, params: views(a.params@), value: type_v(a.value) }
}

pub open spec fn use_v(u: UseDecl) -> UseDeclV {
    UseDeclV { path: views(u.path@), alias: opt_str(u.alias) }
}

pub open spec fn item_v(i: Item) -> ItemV {
    match i {
        Item::Function(f) => ItemV::Function(function_v(f)),
        Item::TypeAlias(a) => ItemV::TypeAlias(alias_v(a)),
        Item::Use(u) => ItemV::Use(use_v(u)),
    }
}

pub open spec fn items_v(is: Seq<Item>) -> Seq<ItemV>
    decreases is.len(),
{
    if is.len() == 0 {
        Seq::empty()
    } else {
        items_v(is.drop_last()).push(item_v(is.last()))
    }
}

pub open spec fn module_v(m: Module) -> ModuleV {
    ModuleV { name: views(m.name@), items: items_v(m.items@) }
}

} // verus!
