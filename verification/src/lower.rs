//! The high-level intermediate form: functions with statements and a small
//! expression language in which method calls, indexing, conditionals,
//! assignments and the other constructs become calls by name, with the
//! receiver as first argument.
use vstd::prelude::*;

use crate::syntax::ast::{
    BinaryOp, Block, Expr, Function, Item, Literal, Module, Param, Path, Stmt, TypeExpr, UnaryOp,
};
use crate::syntax::model::{literal_v, type_v, types_v, LiteralV, TypeExprV};
use crate::syntax::ast::binary_symbol;
use crate::text::{bool_text, copy_string, int_text, join, push_int, push_joined, push_str, to_owned_string, views};

verus! {

#[derive(Debug)]
pub struct HModule {
    pub name: Vec<String>,
    pub items: Vec<HItem>,
}

#[derive(Debug)]
pub enum HItem {
    Function(HFunction),
    TypeAlias(HTypeAlias),
}

#[derive(Debug)]
pub struct HTypeAlias {
    pub name: String,
    pub params: Vec<String>,
    pub value: TypeExpr,
}

#[derive(Debug)]
pub struct HFunction {
    pub name: String,
    pub params: Vec<HParam>,
    pub return_type: Option<TypeExpr>,
    pub effect_row: Vec<String>,
    pub body: HBlock,
}

#[derive(Debug)]
pub struct HParam {
    pub name: String,
    pub ty: TypeExpr,
}

#[derive(Debug)]
pub struct HBlock {
    pub stmts: Vec<HStmt>,
}

#[derive(Debug)]
pub enum HStmt {
    Let { name: String, value: HExpr },
    Expr(HExpr),
    Return(Option<HExpr>),
}

#[derive(Debug)]
pub enum HExpr {
    Literal(Literal),
    Path(Path),
    Call { func: HFuncRef, args: Vec<HExpr> },
    Binary { lhs: Box<HExpr>, op: BinaryOp, rhs: Box<HExpr> },
    Block(HBlock),
}

/// What a call calls: a function by path, or a method (or desugared
/// construct) by name.
#[derive(Debug)]
pub enum HFuncRef {
    Function(Path),
    Method(String),
}

// ---------------------------------------------------------------------------
// The same forms as mathematical values
// ---------------------------------------------------------------------------

pub enum HFuncRefV {
    Function(Seq<Seq<char>>),
    Method(Seq<char>),
}

pub enum HExprV {
    Literal(LiteralV),
    Path(Seq<Seq<char>>),
    Call { func: HFuncRefV, args: Seq<HExprV> },
    Binary { lhs: Box<HExprV>, op: BinaryOp, rhs: Box<HExprV> },
    Block(Seq<HStmtV>),
}

pub enum HStmtV {
    Let { name: Seq<char>, value: HExprV },
    Expr(HExprV),
    Return(Option<HExprV>),
}

pub struct HFunctionV {
    pub name: Seq<char>,
    pub params: Seq<(Seq<char>, TypeExprV)>,
    pub return_type: Option<TypeExprV>,
    pub effect_row: Seq<Seq<char>>,
    pub body: Seq<HStmtV>,
}

pub enum HItemV {
    Function(HFunctionV),
    TypeAlias { name: Seq<char>, params: Seq<Seq<char>>, value: TypeExprV },
}

pub struct HModuleV {
    pub name: Seq<Seq<char>>,
    pub items: Seq<HItemV>,
}

pub open spec fn func_ref_v(f: HFuncRef) -> HFuncRefV {
    match f {
        HFuncRef::Function(p) => HFuncRefV::Function(views(p.segments@)),
        HFuncRef::Method(n) => HFuncRefV::Method(n@),
    }
}

pub open spec fn hexpr_v(h: HExpr) -> HExprV
    decreases h,
{
    match h {
        HExpr::Literal(l) => HExprV::Literal(literal_v(l)),
        HExpr::Path(p) => HExprV::Path(views(p.segments@)),
        HExpr::Call { func, args } => HExprV::Call { func: func_ref_v(func), args: hexprs_v(args@) },
        HExpr::Binary { lhs, op, rhs } => HExprV::Binary {
            lhs: Box::new(hexpr_v(*lhs)),
            op,
            rhs: Box::new(hexpr_v(*rhs)),
        },
        HExpr::Block(b) => HExprV::Block(hstmts_v(b.stmts@)),
    }
}

pub open spec fn hexprs_v(hs: Seq<HExpr>) -> Seq<HExprV>
    decreases hs,
{
    if hs.len() == 0 {
        Seq::empty()
    } else {
        hexprs_v(hs.drop_last()).push(hexpr_v(hs.last()))
    }
}

pub open spec fn hstmt_v(s: HStmt) -> HStmtV
    decreases s,
{
    match s {
        HStmt::Let { name, value } => HStmtV::Let { name: name@, value: hexpr_v(value) },
        HStmt::Expr(e) => HStmtV::Expr(hexpr_v(e)),
        HStmt::Return(o) => HStmtV::Return(
            match o {
                Some(e) => Some(hexpr_v(e)),
                None => None,
            },
        ),
    }
}

pub open spec fn hstmts_v(ss: Seq<HStmt>) -> Seq<HStmtV>
    decreases ss,
{
    if ss.len() == 0 {
        Seq::empty()
    } else {
        hstmts_v(ss.drop_last()).push(hstmt_v(ss.last()))
    }
}

pub open spec fn hparams_v(ps: Seq<HParam>) -> Seq<(Seq<char>, TypeExprV)> {
    ps.map_values(|p: HParam| (p.name@, type_v(p.ty)))
}

pub open spec fn opt_type_v(t: Option<TypeExpr>) -> Option<TypeExprV> {
    match t {
        Some(t) => Some(type_v(t)),
        None => None,
    }
}

pub open spec fn hfunction_v(f: HFunction) -> HFunctionV {
    HFunctionV {
        name: f.name@,
        params: hparams_v(f.params@),
        return_type: opt_type_v(f.return_type),
        effect_row: views(f.effect_row@),
        body: hstmts_v(f.body.stmts@),
    }
}

pub open spec fn hitem_v(i: HItem) -> HItemV {
    match i {
        HItem::Function(f) => HItemV::Function(hfunction_v(f)),
        HItem::TypeAlias(a) => HItemV::TypeAlias {
            name: a.name@,
            params: views(a.params@),
            value: type_v(a.value),
        },
    }
}

impl HModule {
    pub open spec fn view_of(&self) -> HModuleV {
        HModuleV { name: views(self.name@), items: self.items@.map_values(|i: HItem| hitem_v(i)) }
    }
}

// ---------------------------------------------------------------------------
// What lowering produces
// ---------------------------------------------------------------------------

/// The name a unary operator is called by.
pub open spec fn unary_name(op: UnaryOp) -> Seq<char> {
    match op {
        UnaryOp::Neg => "neg"@,
        UnaryOp::Not => "not"@,
        UnaryOp::Ref => "ref"@,
        UnaryOp::RefMut => "ref_mut"@,
    }
}

pub open spec fn method_call(name: Seq<char>, args: Seq<HExprV>) -> HExprV {
    HExprV::Call { func: HFuncRefV::Method(name), args }
}

/// The lowered form of an expression.
pub open spec fn lower_expr_spec(e: Expr) -> HExprV
    decreases e,
{
    match e {
        Expr::Literal(l) => HExprV::Literal(literal_v(l)),
        Expr::Path(p) => HExprV::Path(views(p.segments@)),
        Expr::Block(b) => HExprV::Block(lower_stmts_spec(b.statements@)),
        Expr::Binary { lhs, op, rhs } => HExprV::Binary {
            lhs: Box::new(lower_expr_spec(*lhs)),
            op,
            rhs: Box::new(lower_expr_spec(*rhs)),
        },
        Expr::Call { callee, args } => match *callee {
            Expr::Field { expr: recv, name } => method_call(
                name@,
                seq![lower_expr_spec(*recv)] + lower_exprs_spec(args@),
            ),
            Expr::Path(p) => HExprV::Call {
                func: HFuncRefV::Function(views(p.segments@)),
                args: lower_exprs_spec(args@),
            },
            _ => method_call("<expr>"@, lower_exprs_spec(args@)),
        },
        Expr::Field { expr, name } => match *expr {
            Expr::Path(p) => HExprV::Path(views(p.segments@)),
            other => lower_expr_spec(other),
        },
        Expr::Index { expr, index } => method_call(
            "index"@,
            seq![lower_expr_spec(*expr), lower_expr_spec(*index)],
        ),
        Expr::If { condition, then_branch, else_branch } => method_call(
            "if"@,
            seq![lower_expr_spec(*condition), lower_expr_spec(*then_branch)] + match else_branch {
                Some(b) => seq![lower_expr_spec(*b)],
                None => Seq::empty(),
            },
        ),
        Expr::Assignment { target, value } => method_call(
            "assign"@,
            seq![lower_expr_spec(*target), lower_expr_spec(*value)],
        ),
        Expr::Await(x) => method_call("await"@, seq![lower_expr_spec(*x)]),
        Expr::Spawn(x) => method_call("spawn"@, seq![lower_expr_spec(*x)]),
        Expr::Chan { ty: _, capacity } => method_call(
            "chan"@,
            match capacity {
                Some(c) => seq![lower_expr_spec(*c)],
                None => Seq::empty(),
            },
        ),
        Expr::Using { binding: _, expr, body } => method_call(
            "using"@,
            seq![lower_expr_spec(*expr), HExprV::Block(lower_stmts_spec(body.statements@))],
        ),
        Expr::Try(x) => method_call("try"@, seq![lower_expr_spec(*x)]),
        Expr::For { .. } => method_call("for"@, Seq::empty()),
        Expr::While { .. } => method_call("while"@, Seq::empty()),
        Expr::Loop { .. } => method_call("loop"@, Seq::empty()),
        Expr::Match { .. } => method_call("match"@, Seq::empty()),
        Expr::Unary { op, expr } => method_call(unary_name(op), seq![lower_expr_spec(*expr)]),
    }
}

pub open spec fn lower_exprs_spec(es: Seq<Expr>) -> Seq<HExprV>
    decreases es,
{
    if es.len() == 0 {
        Seq::empty()
    } else {
        lower_exprs_spec(es.drop_last()).push(lower_expr_spec(es.last()))
    }
}

/// The lowered statements: `break` and `continue` are dropped.
pub open spec fn lower_stmts_spec(ss: Seq<Stmt>) -> Seq<HStmtV>
    decreases ss,
{
    if ss.len() == 0 {
        Seq::empty()
    } else {
        let rest = lower_stmts_spec(ss.drop_last());
        match ss.last() {
            Stmt::Let(l) => rest.push(HStmtV::Let { name: l.name@, value: lower_expr_spec(l.value) }),
            Stmt::Expr(e) => rest.push(HStmtV::Expr(lower_expr_spec(e))),
            Stmt::Return(o) => rest.push(
                HStmtV::Return(
                    match o {
                        Some(e) => Some(lower_expr_spec(e)),
                        None => None,
                    },
                ),
            ),
            Stmt::Break => rest,
            Stmt::Continue => rest,
        }
    }
}

pub open spec fn lower_function_spec(f: Function) -> HFunctionV {
    HFunctionV {
        name: f.name@,
        params: f.params@.map_values(|p: Param| (p.name@, type_v(p.ty))),
        return_type: opt_type_v(f.return_type),
        effect_row: views(f.effect_row@),
        body: lower_stmts_spec(f.body.statements@),
    }
}

/// The lowered items: functions and type aliases in source order; imports
/// are dropped.
pub open spec fn lower_items_spec(items: Seq<Item>) -> Seq<HItemV>
    decreases items.len(),
{
    if items.len() == 0 {
        Seq::empty()
    } else {
        let rest = lower_items_spec(items.drop_last());
        match items.last() {
            Item::Function(f) => rest.push(HItemV::Function(lower_function_spec(f))),
            Item::TypeAlias(a) => rest.push(
                HItemV::TypeAlias { name: a.name@, params: views(a.params@), value: type_v(a.value) },
            ),
            Item::Use(_) => rest,
        }
    }
}

// ---------------------------------------------------------------------------
// Copies
// ---------------------------------------------------------------------------

pub fn copy_strings(v: &Vec<String>) -> (r: Vec<String>)
    ensures
        views(r@) == views(v@),
{
    let mut r: Vec<String> = Vec::new();
    let mut i: usize = 0;
    while i < v.len()
        invariant
            i <= v.len(),
            views(r@) == views(v@.take(i as int)),
        decreases v.len() - i,
    {
        let ghost r0 = r@;
        r.push(copy_string(&v[i]));
        assert(views(r@) =~= views(r0).push(v@[i as int]@));
        assert(v@.take(i + 1) =~= v@.take(i as int).push(v@[i as int]));
        assert(views(v@.take(i + 1)) =~= views(v@.take(i as int)).push(v@[i as int]@));
        i = i + 1;
    }
    assert(v@.take(v.len() as int) =~= v@);
    r
}

fn copy_path(p: &Path) -> (r: Path)
    ensures
        views(r.segments@) == views(p.segments@),
{
    Path { segments: copy_strings(&p.segments) }
}

fn copy_literal(l: &Literal) -> (r: Literal)
    ensures
        literal_v(r) == literal_v(*l),
{
    match l {
        Literal::Int(v) => Literal::Int(*v),
        Literal::Float(t) => Literal::Float(copy_string(t)),
        Literal::Bool(b) => Literal::Bool(*b),
        Literal::String(s) => Literal::String(copy_string(s)),
        Literal::Unit => Literal::Unit,
    }
}

fn copy_types(ts: &Vec<TypeExpr>) -> (r: Vec<TypeExpr>)
    ensures
        types_v(r@) == types_v(ts@),
    decreases ts, 0nat,
{
    let mut r: Vec<TypeExpr> = Vec::new();
    let mut i: usize = 0;
    while i < ts.len()
        invariant
            i <= ts.len(),
            types_v(r@) == types_v(ts@.take(i as int)),
        decreases ts.len() - i,
    {
        proof {
            assert(decreases_to!(ts => ts@));
            assert(decreases_to!(ts@ => ts@[i as int]));
        }
        let c = copy_type(&ts[i]);
        let ghost r0 = r@;
        r.push(c);
        proof {
            assert(r@.drop_last() =~= r0);
            assert(ts@.take(i + 1).drop_last() =~= ts@.take(i as int));
        }
        i = i + 1;
    }
    assert(ts@.take(ts.len() as int) =~= ts@);
    r
}

/// A copy of a type expression.
pub fn copy_type(t: &TypeExpr) -> (r: TypeExpr)
    ensures
        type_v(r) == type_v(*t),
    decreases t, 1nat,
{
    match t {
        TypeExpr::Name(n) => TypeExpr::Name(copy_string(n)),
        TypeExpr::Generic(n, args) => TypeExpr::Generic(copy_string(n), copy_types(args)),
        TypeExpr::Record(fields) => {
            let mut r: Vec<(String, TypeExpr)> = Vec::new();
            let mut i: usize = 0;
            while i < fields.len()
                invariant
                    i <= fields.len(),
                    *t == TypeExpr::Record(*fields),
                    crate::syntax::model::type_fields_v(r@)
                        == crate::syntax::model::type_fields_v(fields@.take(i as int)),
                decreases fields.len() - i,
            {
                proof {
                    assert(decreases_to!(*t => (*t)->Record_0));
                    assert(decreases_to!(fields => fields@));
                    assert(decreases_to!(fields@ => fields@[i as int]));
                    assert(decreases_to!(fields@[i as int] => fields@[i as int].1));
                }
                let c = copy_type(&fields[i].1);
                let ghost r0 = r@;
                r.push((copy_string(&fields[i].0), c));
                proof {
                    assert(r@.drop_last() =~= r0);
                    assert(fields@.take(i + 1).drop_last() =~= fields@.take(i as int));
                }
                i = i + 1;
            }
            assert(fields@.take(fields.len() as int) =~= fields@);
            TypeExpr::Record(r)
        },
        TypeExpr::Sum(vars) => {
            let mut r: Vec<crate::syntax::ast::TypeVariant> = Vec::new();
            let mut i: usize = 0;
            while i < vars.len()
                invariant
                    i <= vars.len(),
                    *t == TypeExpr::Sum(*vars),
                    crate::syntax::model::variants_v(r@) == crate::syntax::model::variants_v(
                        vars@.take(i as int),
                    ),
                decreases vars.len() - i,
            {
                proof {
                    assert(decreases_to!(*t => (*t)->Sum_0));
                    assert(decreases_to!(vars => vars@));
                    assert(decreases_to!(vars@ => vars@[i as int]));
                    assert(decreases_to!(vars@[i as int] => vars@[i as int].fields));
                }
                let fs = copy_types(&vars[i].fields);
                let ghost r0 = r@;
                r.push(crate::syntax::ast::TypeVariant { name: copy_string(&vars[i].name), fields: fs });
                proof {
                    assert(r@.drop_last() =~= r0);
                    assert(vars@.take(i + 1).drop_last() =~= vars@.take(i as int));
                }
                i = i + 1;
            }
            assert(vars@.take(vars.len() as int) =~= vars@);
            TypeExpr::Sum(r)
        },
        TypeExpr::List(inner) => TypeExpr::List(Box::new(copy_type(inner))),
        TypeExpr::Tuple(items) => TypeExpr::Tuple(copy_types(items)),
        TypeExpr::Reference { is_mut, inner } => TypeExpr::Reference {
            is_mut: *is_mut,
            inner: Box::new(copy_type(inner)),
        },
        TypeExpr::Function { params, return_type, effect_row } => TypeExpr::Function {
            params: copy_types(params),
            return_type: Box::new(copy_type(return_type)),
            effect_row: copy_strings(effect_row),
        },
        TypeExpr::Unit => TypeExpr::Unit,
    }
}

// ---------------------------------------------------------------------------
// Lowering
// ---------------------------------------------------------------------------

proof fn lemma_hexprs_push(s: Seq<HExpr>, h: HExpr)
    ensures
        hexprs_v(s.push(h)) == hexprs_v(s).push(hexpr_v(h)),
        hexprs_v(Seq::<HExpr>::empty()) == Seq::<HExprV>::empty(),
{
    assert(s.push(h).drop_last() =~= s);
}

proof fn lemma_hstmts_push(s: Seq<HStmt>, h: HStmt)
    ensures
        hstmts_v(s.push(h)) == hstmts_v(s).push(hstmt_v(h)),
{
    assert(s.push(h).drop_last() =~= s);
}

fn method(name: &str, args: Vec<HExpr>) -> (h: HExpr)
    ensures
        hexpr_v(h) == method_call(name@, hexprs_v(args@)),
{
    HExpr::Call { func: HFuncRef::Method(to_owned_string(name)), args }
}

fn call0(name: &str) -> (h: HExpr)
    ensures
        hexpr_v(h) == method_call(name@, Seq::empty()),
{
    let v: Vec<HExpr> = Vec::new();
    assert(hexprs_v(v@) =~= Seq::<HExprV>::empty());
    method(name, v)
}

fn call1(name: &str, a: HExpr) -> (h: HExpr)
    ensures
        hexpr_v(h) == method_call(name@, seq![hexpr_v(a)]),
{
    let ghost av = hexpr_v(a);
    let mut v: Vec<HExpr> = Vec::new();
    proof {
        lemma_hexprs_push(v@, a);
    }
    v.push(a);
    assert(hexprs_v(v@) =~= seq![av]);
    method(name, v)
}

fn call2(name: &str, a: HExpr, b: HExpr) -> (h: HExpr)
    ensures
        hexpr_v(h) == method_call(name@, seq![hexpr_v(a), hexpr_v(b)]),
{
    let ghost av = hexpr_v(a);
    let ghost bv = hexpr_v(b);
    let mut v: Vec<HExpr> = Vec::new();
    proof {
        lemma_hexprs_push(v@, a);
    }
    v.push(a);
    proof {
        lemma_hexprs_push(v@, b);
    }
    v.push(b);
    assert(hexprs_v(v@) =~= seq![av, bv]);
    method(name, v)
}

/// Appends the lowered forms of `es` to `out`.
fn lower_exprs_into(out: &mut Vec<HExpr>, es: &Vec<Expr>)
    ensures
        hexprs_v(final(out)@) == hexprs_v(old(out)@) + lower_exprs_spec(es@),
    decreases es, 0nat,
{
    let ghost start = hexprs_v(out@);
    let mut i: usize = 0;
    while i < es.len()
        invariant
            i <= es.len(),
            hexprs_v(out@) == start + lower_exprs_spec(es@.take(i as int)),
        decreases es.len() - i,
    {
        proof {
            assert(decreases_to!(es => es@));
            assert(decreases_to!(es@ => es@[i as int]));
        }
        let h = lower_expr(&es[i]);
        proof {
            lemma_hexprs_push(out@, h);
        }
        out.push(h);
        proof {
            assert(es@.take(i + 1).drop_last() =~= es@.take(i as int));
            assert(hexprs_v(out@) =~= start + lower_exprs_spec(es@.take(i + 1)));
        }
        i = i + 1;
    }
    assert(es@.take(es.len() as int) =~= es@);
}

fn lower_exprs(es: &Vec<Expr>) -> (r: Vec<HExpr>)
    ensures
        hexprs_v(r@) == lower_exprs_spec(es@),
    decreases es, 1nat,
{
    let mut r: Vec<HExpr> = Vec::new();
    lower_exprs_into(&mut r, es);
    assert(hexprs_v(Seq::<HExpr>::empty()) + lower_exprs_spec(es@) =~= lower_exprs_spec(es@));
    r
}

/// The lowered statements of a block.
fn lower_stmts(ss: &Vec<Stmt>) -> (r: Vec<HStmt>)
    ensures
        hstmts_v(r@) == lower_stmts_spec(ss@),
    decreases ss, 0nat,
{
    let mut r: Vec<HStmt> = Vec::new();
    let mut i: usize = 0;
    while i < ss.len()
        invariant
            i <= ss.len(),
            hstmts_v(r@) == lower_stmts_spec(ss@.take(i as int)),
        decreases ss.len() - i,
    {
        proof {
            assert(decreases_to!(ss => ss@));
            assert(decreases_to!(ss@ => ss@[i as int]));
            assert(ss@.take(i + 1).drop_last() =~= ss@.take(i as int));
            assert(ss@.take(i + 1).last() == ss@[i as int]);
        }
        let ghost r0 = r@;
        match &ss[i] {
            Stmt::Let(l) => {
                let v = lower_expr(&l.value);
                let st = HStmt::Let { name: copy_string(&l.name), value: v };
                proof {
                    lemma_hstmts_push(r@, st);
                }
                r.push(st);
            },
            Stmt::Expr(e) => {
                let v = lower_expr(e);
                let st = HStmt::Expr(v);
                proof {
                    lemma_hstmts_push(r@, st);
                }
                r.push(st);
            },
            Stmt::Return(o) => {
                let v = match o {
                    Some(e) => Some(lower_expr(e)),
                    None => None,
                };
                let st = HStmt::Return(v);
                proof {
                    lemma_hstmts_push(r@, st);
                }
                r.push(st);
            },
            Stmt::Break => {},
            Stmt::Continue => {},
        }
        i = i + 1;
    }
    assert(ss@.take(ss.len() as int) =~= ss@);
    r
}

fn lower_expr(e: &Expr) -> (h: HExpr)
    ensures
        hexpr_v(h) == lower_expr_spec(*e),
    decreases e, 2nat,
{
    match e {
        Expr::Literal(l) => HExpr::Literal(copy_literal(l)),
        Expr::Path(p) => HExpr::Path(copy_path(p)),
        Expr::Block(b) => {
            proof {
                assert(decreases_to!(*e => (*e)->Block_0));
                assert(decreases_to!(b => b.statements));
            }
            HExpr::Block(HBlock { stmts: lower_stmts(&b.statements) })
        },
        Expr::Binary { lhs, op, rhs } => HExpr::Binary {
            lhs: Box::new(lower_expr(lhs)),
            op: *op,
            rhs: Box::new(lower_expr(rhs)),
        },
        Expr::Call { callee, args } => {
            match &**callee {
                Expr::Field { expr: recv, name } => {
                    proof {
                        assert(decreases_to!(*e => (*e)->callee));
                        assert(decreases_to!(**callee => (**callee)->Field_expr));
                    }
                    let first = lower_expr(recv);
                    let ghost fv = hexpr_v(first);
                    let mut v: Vec<HExpr> = Vec::new();
                    proof {
                        lemma_hexprs_push(v@, first);
                    }
                    v.push(first);
                    assert(hexprs_v(v@) =~= seq![fv]);
                    lower_exprs_into(&mut v, args);
                    method(name.as_str(), v)
                },
                Expr::Path(p) => HExpr::Call {
                    func: HFuncRef::Function(copy_path(p)),
                    args: lower_exprs(args),
                },
                _ => method("<expr>", lower_exprs(args)),
            }
        },
        Expr::Field { expr, name: _ } => match &**expr {
            Expr::Path(p) => HExpr::Path(copy_path(p)),
            _ => lower_expr(expr),
        },
        Expr::Index { expr, index } => call2("index", lower_expr(expr), lower_expr(index)),
        Expr::If { condition, then_branch, else_branch } => {
            let c = lower_expr(condition);
            let t = lower_expr(then_branch);
            let ghost cv = hexpr_v(c);
            let ghost tv = hexpr_v(t);
            let mut v: Vec<HExpr> = Vec::new();
            proof {
                lemma_hexprs_push(v@, c);
            }
            v.push(c);
            proof {
                lemma_hexprs_push(v@, t);
            }
            v.push(t);
            assert(hexprs_v(v@) =~= seq![cv, tv]);
            match else_branch {
                Some(b) => {
                    let x = lower_expr(b);
                    proof {
                        lemma_hexprs_push(v@, x);
                    }
                    v.push(x);
                },
                None => {},
            }
            proof {
                assert(hexprs_v(v@) =~= seq![cv, tv] + match else_branch {
                    Some(b) => seq![lower_expr_spec(**b)],
                    None => Seq::<HExprV>::empty(),
                });
            }
            method("if", v)
        },
        Expr::Assignment { target, value } => call2("assign", lower_expr(target), lower_expr(value)),
        Expr::Await(x) => call1("await", lower_expr(x)),
        Expr::Spawn(x) => call1("spawn", lower_expr(x)),
        Expr::Chan { ty: _, capacity } => match capacity {
            Some(c) => call1("chan", lower_expr(c)),
            None => call0("chan"),
        },
        Expr::Using { binding: _, expr, body } => {
            proof {
                assert(decreases_to!(*e => (*e)->Using_body));
                assert(decreases_to!(body => body.statements));
            }
            let x = lower_expr(expr);
            let b = HExpr::Block(HBlock { stmts: lower_stmts(&body.statements) });
            call2("using", x, b)
        },
        Expr::Try(x) => call1("try", lower_expr(x)),
        Expr::For { .. } => call0("for"),
        Expr::While { .. } => call0("while"),
        Expr::Loop { .. } => call0("loop"),
        Expr::Match { .. } => call0("match"),
        Expr::Unary { op, expr } => {
            let x = lower_expr(expr);
            match op {
                UnaryOp::Neg => call1("neg", x),
                UnaryOp::Not => call1("not", x),
                UnaryOp::Ref => call1("ref", x),
                UnaryOp::RefMut => call1("ref_mut", x),
            }
        },
    }
}

fn lower_params(ps: &Vec<Param>) -> (r: Vec<HParam>)
    ensures
        hparams_v(r@) == ps@.map_values(|p: Param| (p.name@, type_v(p.ty))),
{
    let mut r: Vec<HParam> = Vec::new();
    let mut i: usize = 0;
    while i < ps.len()
        invariant
            i <= ps.len(),
            r@.len() == i,
            forall|k: int| 0 <= k < i ==> (#[trigger] r@[k]).name@ == ps@[k].name@ && type_v(r@[k].ty) == type_v(ps@[k].ty),
        decreases ps.len() - i,
    {
        r.push(HParam { name: copy_string(&ps[i].name), ty: copy_type(&ps[i].ty) });
        i = i + 1;
    }
    assert(hparams_v(r@) =~= ps@.map_values(|p: Param| (p.name@, type_v(p.ty))));
    r
}

fn copy_opt_type(t: &Option<TypeExpr>) -> (r: Option<TypeExpr>)
    ensures
        opt_type_v(r) == opt_type_v(*t),
{
    match t {
        Some(t) => Some(copy_type(t)),
        None => None,
    }
}

fn lower_function(f: &Function) -> (h: HFunction)
    ensures
        hfunction_v(h) == lower_function_spec(*f),
{
    HFunction {
        name: copy_string(&f.name),
        params: lower_params(&f.params),
        return_type: copy_opt_type(&f.return_type),
        effect_row: copy_strings(&f.effect_row),
        body: HBlock { stmts: lower_stmts(&f.body.statements) },
    }
}

/// Lowers a module: each function and type alias in source order, with
/// method calls, indexing, conditionals, assignments, unary operators and
/// the other constructs as calls by name; imports are dropped.
pub fn lower_module(m: &Module) -> (h: HModule)
    ensures
        h.view_of() == (HModuleV { name: views(m.name@), items: lower_items_spec(m.items@) }),
{
    let mut items: Vec<HItem> = Vec::new();
    let mut i: usize = 0;
    while i < m.items.len()
        invariant
            i <= m.items.len(),
            items@.map_values(|x: HItem| hitem_v(x)) == lower_items_spec(m.items@.take(i as int)),
        decreases m.items.len() - i,
    {
        proof {
            assert(m.items@.take(i + 1).drop_last() =~= m.items@.take(i as int));
            assert(m.items@.take(i + 1).last() == m.items@[i as int]);
        }
        let ghost i0 = items@;
        match &m.items[i] {
            Item::Function(f) => {
                items.push(HItem::Function(lower_function(f)));
                assert(items@.map_values(|x: HItem| hitem_v(x)) =~= i0.map_values(|x: HItem| hitem_v(x)).push(hitem_v(items@.last())));
            },
            Item::TypeAlias(a) => {
                items.push(
                    HItem::TypeAlias(
                        HTypeAlias {
                            name: copy_string(&a.name),
                            params: copy_strings(&a.params),
                            value: copy_type(&a.value),
                        },
                    ),
                );
                assert(items@.map_values(|x: HItem| hitem_v(x)) =~= i0.map_values(|x: HItem| hitem_v(x)).push(hitem_v(items@.last())));
            },
            Item::Use(_) => {},
        }
        i = i + 1;
    }
    assert(m.items@.take(m.items.len() as int) =~= m.items@);
    let h = HModule { name: copy_strings(&m.name), items };
    assert(h.view_of().items =~= lower_items_spec(m.items@));
    h
}

// ---------------------------------------------------------------------------
// Rendering
// ---------------------------------------------------------------------------

pub open spec fn literal_text(l: LiteralV) -> Seq<char> {
    match l {
        LiteralV::Int(v) => int_text(v as int),
        LiteralV::Float(t) => t,
        LiteralV::Bool(b) => bool_text(b),
        LiteralV::String(s) => "\""@ + s + "\""@,
        LiteralV::Unit => "()"@,
    }
}

/// An expression of the high-level form as text: binary operations in
/// parentheses, calls as `name(args)`, blocks as `{ stmt; ... }`.
pub open spec fn hexpr_text(e: HExprV) -> Seq<char>
    decreases e,
{
    match e {
        HExprV::Literal(l) => literal_text(l),
        HExprV::Path(p) => join(p, "::"@),
        HExprV::Binary { lhs, op, rhs } => "("@ + hexpr_text(*lhs) + " "@ + binary_symbol(op) + " "@
            + hexpr_text(*rhs) + ")"@,
        HExprV::Block(stmts) => "{"@ + block_items_text(stmts) + " }"@,
        HExprV::Call { func, args } => (match func {
            HFuncRefV::Function(p) => join(p, "::"@),
            HFuncRefV::Method(n) => n,
        }) + "("@ + args_text(args) + ")"@,
    }
}

/// Arguments separated by `", "`.
pub open spec fn args_text(args: Seq<HExprV>) -> Seq<char>
    decreases args,
{
    if args.len() == 0 {
        Seq::empty()
    } else if args.len() == 1 {
        hexpr_text(args.last())
    } else {
        args_text(args.drop_last()) + ", "@ + hexpr_text(args.last())
    }
}

/// Statements of a block expression, each as `" stmt;"`.
pub open spec fn block_items_text(stmts: Seq<HStmtV>) -> Seq<char>
    decreases stmts,
{
    if stmts.len() == 0 {
        Seq::empty()
    } else {
        block_items_text(stmts.drop_last()) + " "@ + hstmt_text(stmts.last()) + ";"@
    }
}

pub open spec fn hstmt_text(s: HStmtV) -> Seq<char>
    decreases s,
{
    match s {
        HStmtV::Let { name, value } => "let "@ + name + " = "@ + hexpr_text(value),
        HStmtV::Expr(e) => hexpr_text(e),
        HStmtV::Return(Some(e)) => "return "@ + hexpr_text(e),
        HStmtV::Return(None) => "return"@,
    }
}

/// A function's lines: its header with parameter names, then one indented
/// line per statement.
pub open spec fn hfunction_text(f: HFunctionV) -> Seq<char> {
    "fn "@ + f.name + "("@ + join(f.params.map_values(|p: (Seq<char>, TypeExprV)| p.0), ", "@) + ")\n"@
        + stmt_lines(f.body)
}

pub open spec fn stmt_lines(stmts: Seq<HStmtV>) -> Seq<char>
    decreases stmts.len(),
{
    if stmts.len() == 0 {
        Seq::empty()
    } else {
        stmt_lines(stmts.drop_last()) + "  "@ + hstmt_text(stmts.last()) + "\n"@
    }
}

/// The lines of the items: functions only.
pub open spec fn hitems_text(items: Seq<HItemV>) -> Seq<char>
    decreases items.len(),
{
    if items.len() == 0 {
        Seq::empty()
    } else {
        hitems_text(items.drop_last()) + match items.last() {
            HItemV::Function(f) => hfunction_text(f),
            HItemV::TypeAlias { .. } => Seq::empty(),
        }
    }
}

pub open spec fn hmodule_text(m: HModuleV) -> Seq<char> {
    "hir module "@ + join(m.name, "."@) + "\n"@ + hitems_text(m.items)
}

fn push_literal(out: &mut String, l: &Literal)
    ensures
        final(out)@ == old(out)@ + literal_text(literal_v(*l)),
{
    match l {
        Literal::Int(v) => push_int(out, *v),
        Literal::Float(t) => push_str(out, t.as_str()),
        Literal::Bool(b) => {
            if *b {
                push_str(out, "true");
            } else {
                push_str(out, "false");
            }
        },
        Literal::String(s) => {
            push_str(out, "\"");
            push_str(out, s.as_str());
            push_str(out, "\"");
        },
        Literal::Unit => push_str(out, "()"),
    }
}

fn push_hexpr(out: &mut String, e: &HExpr)
    ensures
        final(out)@ == old(out)@ + hexpr_text(hexpr_v(*e)),
    decreases e, 2nat,
{
    let ghost start = out@;
    match e {
        HExpr::Literal(l) => push_literal(out, l),
        HExpr::Path(p) => push_joined(out, &p.segments, "::"),
        HExpr::Binary { lhs, op, rhs } => {
            push_str(out, "(");
            push_hexpr(out, lhs);
            push_str(out, " ");
            op.push_symbol(out);
            push_str(out, " ");
            push_hexpr(out, rhs);
            push_str(out, ")");
        },
        HExpr::Block(b) => {
            proof {
                assert(decreases_to!(*e => (*e)->Block_0));
                assert(decreases_to!(b => b.stmts));
            }
            push_str(out, "{");
            push_block_items(out, &b.stmts);
            push_str(out, " }");
        },
        HExpr::Call { func, args } => {
            match func {
                HFuncRef::Function(p) => push_joined(out, &p.segments, "::"),
                HFuncRef::Method(n) => push_str(out, n.as_str()),
            }
            let ghost head = out@;
            push_str(out, "(");
            push_args(out, args);
            push_str(out, ")");
            assert(out@ =~= start + hexpr_text(hexpr_v(*e)));
        },
    }
}

fn push_args(out: &mut String, args: &Vec<HExpr>)
    ensures
        final(out)@ == old(out)@ + args_text(hexprs_v(args@)),
    decreases args, 0nat,
{
    let ghost start = out@;
    let mut i: usize = 0;
    while i < args.len()
        invariant
            i <= args.len(),
            out@ == start + args_text(hexprs_v(args@.take(i as int))),
        decreases args.len() - i,
    {
        proof {
            assert(decreases_to!(args => args@));
            assert(decreases_to!(args@ => args@[i as int]));
        }
        if i > 0 {
            push_str(out, ", ");
        }
        push_hexpr(out, &args[i]);
        proof {
            let prev = args@.take(i as int);
            lemma_hexprs_push(prev, args@[i as int]);
            assert(args@.take(i + 1) =~= prev.push(args@[i as int]));
            assert(hexprs_v(prev).len() == i) by {
                lemma_hexprs_len(prev);
            }
            let next = hexprs_v(args@.take(i + 1));
            assert(next.drop_last() =~= hexprs_v(prev));
        }
        i = i + 1;
    }
    assert(args@.take(args.len() as int) =~= args@);
}

proof fn lemma_hexprs_len(s: Seq<HExpr>)
    ensures
        hexprs_v(s).len() == s.len(),
    decreases s.len(),
{
    if s.len() > 0 {
        lemma_hexprs_len(s.drop_last());
    }
}

fn push_hstmt(out: &mut String, s: &HStmt)
    ensures
        final(out)@ == old(out)@ + hstmt_text(hstmt_v(*s)),
    decreases s, 1nat,
{
    match s {
        HStmt::Let { name, value } => {
            push_str(out, "let ");
            push_str(out, name.as_str());
            push_str(out, " = ");
            push_hexpr(out, value);
        },
        HStmt::Expr(e) => push_hexpr(out, e),
        HStmt::Return(Some(e)) => {
            push_str(out, "return ");
            push_hexpr(out, e);
        },
        HStmt::Return(None) => push_str(out, "return"),
    }
}

fn push_block_items(out: &mut String, stmts: &Vec<HStmt>)
    ensures
        final(out)@ == old(out)@ + block_items_text(hstmts_v(stmts@)),
    decreases stmts, 0nat,
{
    let ghost start = out@;
    let mut i: usize = 0;
    while i < stmts.len()
        invariant
            i <= stmts.len(),
            out@ == start + block_items_text(hstmts_v(stmts@.take(i as int))),
        decreases stmts.len() - i,
    {
        proof {
            assert(decreases_to!(stmts => stmts@));
            assert(decreases_to!(stmts@ => stmts@[i as int]));
        }
        push_str(out, " ");
        push_hstmt(out, &stmts[i]);
        push_str(out, ";");
        proof {
            let prev = stmts@.take(i as int);
            lemma_hstmts_push(prev, stmts@[i as int]);
            assert(stmts@.take(i + 1) =~= prev.push(stmts@[i as int]));
            assert(hstmts_v(stmts@.take(i + 1)).drop_last() =~= hstmts_v(prev));
            assert(hstmts_v(stmts@.take(i + 1)).last() == hstmt_v(stmts@[i as int]));
        }
        i = i + 1;
    }
    assert(stmts@.take(stmts.len() as int) =~= stmts@);
}

fn push_stmt_lines(out: &mut String, stmts: &Vec<HStmt>)
    ensures
        final(out)@ == old(out)@ + stmt_lines(hstmts_v(stmts@)),
{
    let ghost start = out@;
    let mut i: usize = 0;
    while i < stmts.len()
        invariant
            i <= stmts.len(),
            out@ == start + stmt_lines(hstmts_v(stmts@.take(i as int))),
        decreases stmts.len() - i,
    {
        push_str(out, "  ");
        push_hstmt(out, &stmts[i]);
        push_str(out, "\n");
        proof {
            let prev = stmts@.take(i as int);
            lemma_hstmts_push(prev, stmts@[i as int]);
            assert(stmts@.take(i + 1) =~= prev.push(stmts@[i as int]));
            assert(hstmts_v(stmts@.take(i + 1)).drop_last() =~= hstmts_v(prev));
        }
        i = i + 1;
    }
    assert(stmts@.take(stmts.len() as int) =~= stmts@);
}

fn param_names(ps: &Vec<HParam>) -> (names: Vec<String>)
    ensures
        views(names@) == hparams_v(ps@).map_values(|p: (Seq<char>, TypeExprV)| p.0),
{
    let mut names: Vec<String> = Vec::new();
    let mut i: usize = 0;
    while i < ps.len()
        invariant
            i <= ps.len(),
            names@.len() == i,
            forall|k: int| 0 <= k < i ==> (#[trigger] names@[k])@ == ps@[k].name@,
        decreases ps.len() - i,
    {
        names.push(copy_string(&ps[i].name));
        i = i + 1;
    }
    assert(views(names@) =~= hparams_v(ps@).map_values(|p: (Seq<char>, TypeExprV)| p.0));
    names
}

/// Renders a high-level module: a `hir module` header, then for each
/// function its name and parameter names and one line per statement.
pub fn hir_to_string(m: &HModule) -> (s: String)
    ensures
        s@ == hmodule_text(m.view_of()),
{
    let mut s = String::new();
    push_str(&mut s, "hir module ");
    push_joined(&mut s, &m.name, ".");
    push_str(&mut s, "\n");
    let ghost head = s@;
    let mut i: usize = 0;
    while i < m.items.len()
        invariant
            i <= m.items.len(),
            s@ == head + hitems_text(m.items@.take(i as int).map_values(|x: HItem| hitem_v(x))),
        decreases m.items.len() - i,
    {
        proof {
            assert(m.items@.take(i + 1).map_values(|x: HItem| hitem_v(x)).drop_last() =~= m.items@.take(
                i as int,
            ).map_values(|x: HItem| hitem_v(x)));
        }
        match &m.items[i] {
            HItem::Function(f) => {
                let ghost before = s@;
                push_str(&mut s, "fn ");
                push_str(&mut s, f.name.as_str());
                push_str(&mut s, "(");
                let names = param_names(&f.params);
                push_joined(&mut s, &names, ", ");
                push_str(&mut s, ")\n");
                push_stmt_lines(&mut s, &f.body.stmts);
                assert(s@ =~= before + hfunction_text(hfunction_v(*f)));
            },
            HItem::TypeAlias(_) => {},
        }
        i = i + 1;
    }
    assert(m.items@.take(m.items.len() as int) =~= m.items@);
    assert(s@ =~= hmodule_text(m.view_of()));
    s
}

} // verus!
