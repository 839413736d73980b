//! Name resolution proper: the declarations of a module are collected into
//! a module scope, then every item is walked with a stack of scopes, each
//! path met is looked up in its namespace, every binding is recorded as a
//! symbol, and every effect row binds its capabilities to the item.
use vstd::prelude::*;

use crate::semantics::resolve::data::{
    CapabilityBinding, CapabilityScope, PathKind, ResolvedImport, ResolvedPath, SymbolCategory,
    SymbolInfo, SymbolScope,
};
use crate::runtime::store::StrMap;
use crate::syntax::ast::{
    Block, Expr, Function, Item, MatchArm, Module, Pattern, Stmt, TypeAlias, TypeExpr,
    TypeVariant, UseDecl,
};
use crate::text::{copy_string, string_eq_str, views};

verus! {

// ---------------------------------------------------------------------------
// The results as mathematical values
// ---------------------------------------------------------------------------

pub enum ScopeV {
    Module(Seq<Seq<char>>),
    TypeAlias(Seq<Seq<char>>, Seq<char>),
    Function(Seq<Seq<char>>, Seq<char>),
}

pub enum CategoryV {
    Type(bool, Seq<Seq<char>>),
    Variant(Seq<char>),
    Function(bool),
    TypeParam,
    ValueParam,
    LocalBinding,
    ImportAlias(Seq<Seq<char>>),
}

pub struct SymbolV {
    pub name: Seq<char>,
    pub category: CategoryV,
    pub scope: ScopeV,
}

pub struct PathV {
    pub segments: Seq<Seq<char>>,
    pub kind: PathKind,
    pub resolved: Option<SymbolV>,
}

pub enum CapScopeV {
    Function(Seq<Seq<char>>, Seq<char>),
    TypeAlias(Seq<Seq<char>>, Seq<char>),
}

pub struct CapV {
    pub name: Seq<char>,
    pub scope: CapScopeV,
}

pub struct ImportV {
    pub path: Seq<Seq<char>>,
    pub alias: Option<Seq<char>>,
}

/// One scope: value names and type names, each with the symbols bound to
/// it in order (the last binding of a name is the visible one).
pub struct LayerV {
    pub values: Seq<(Seq<char>, SymbolV)>,
    pub types: Seq<(Seq<char>, SymbolV)>,
}

/// The state of a resolution walk.
pub struct ResolveState {
    pub layers: Seq<LayerV>,
    pub symbols: Seq<SymbolV>,
    pub paths: Seq<PathV>,
    pub caps: Seq<CapV>,
    pub current: ScopeV,
}

/// What a walk reads and never changes: the module's path and, for each
/// variant name, the sum types that declare it.
pub struct Env {
    pub module: Seq<Seq<char>>,
    pub owners: Map<Seq<char>, Seq<Seq<char>>>,
}

pub open spec fn scope_v(s: SymbolScope) -> ScopeV {
    match s {
        SymbolScope::Module(p) => ScopeV::Module(views(p@)),
        SymbolScope::TypeAlias { module, alias_name } => ScopeV::TypeAlias(views(module@), alias_name@),
        SymbolScope::Function { module, function } => ScopeV::Function(views(module@), function@),
    }
}

pub open spec fn category_v(c: SymbolCategory) -> CategoryV {
    match c {
        SymbolCategory::Type { is_public, params } => CategoryV::Type(is_public, views(params@)),
        SymbolCategory::Variant { parent } => CategoryV::Variant(parent@),
        SymbolCategory::Function { is_public } => CategoryV::Function(is_public),
        SymbolCategory::TypeParam => CategoryV::TypeParam,
        SymbolCategory::ValueParam => CategoryV::ValueParam,
        SymbolCategory::LocalBinding => CategoryV::LocalBinding,
        SymbolCategory::ImportAlias { target } => CategoryV::ImportAlias(views(target@)),
    }
}

pub open spec fn symbol_v(s: SymbolInfo) -> SymbolV {
    SymbolV { name: s.name@, category: category_v(s.category), scope: scope_v(s.scope) }
}

pub open spec fn opt_symbol_v(s: Option<SymbolInfo>) -> Option<SymbolV> {
    match s {
        Some(x) => Some(symbol_v(x)),
        None => None,
    }
}

pub open spec fn path_v(p: ResolvedPath) -> PathV {
    PathV { segments: views(p.segments@), kind: p.kind, resolved: opt_symbol_v(p.resolved) }
}

pub open spec fn cap_scope_v(s: CapabilityScope) -> CapScopeV {
    match s {
        CapabilityScope::Function { module, function } => CapScopeV::Function(views(module@), function@),
        CapabilityScope::TypeAlias { module, alias_name } => CapScopeV::TypeAlias(views(module@), alias_name@),
    }
}

pub open spec fn cap_v(c: CapabilityBinding) -> CapV {
    CapV { name: c.name@, scope: cap_scope_v(c.scope) }
}

pub open spec fn import_v(i: ResolvedImport) -> ImportV {
    ImportV {
        path: views(i.path@),
        alias: match i.alias {
            Some(a) => Some(a@),
            None => None,
        },
    }
}

pub open spec fn symbols_v(s: Seq<SymbolInfo>) -> Seq<SymbolV> {
    s.map_values(|x: SymbolInfo| symbol_v(x))
}

pub open spec fn paths_v(s: Seq<ResolvedPath>) -> Seq<PathV> {
    s.map_values(|x: ResolvedPath| path_v(x))
}

pub open spec fn caps_v(s: Seq<CapabilityBinding>) -> Seq<CapV> {
    s.map_values(|x: CapabilityBinding| cap_v(x))
}

pub open spec fn imports_v(s: Seq<ResolvedImport>) -> Seq<ImportV> {
    s.map_values(|x: ResolvedImport| import_v(x))
}

// ---------------------------------------------------------------------------
// Scopes and lookups
// ---------------------------------------------------------------------------

pub open spec fn empty_layer() -> LayerV {
    LayerV { values: Seq::empty(), types: Seq::empty() }
}

/// The last binding of `name` among `entries`.
pub open spec fn entry_find(entries: Seq<(Seq<char>, SymbolV)>, name: Seq<char>) -> Option<SymbolV>
    decreases entries.len(),
{
    if entries.len() == 0 {
        None
    } else if entries.last().0 == name {
        Some(entries.last().1)
    } else {
        entry_find(entries.drop_last(), name)
    }
}

/// The binding of `name` in the innermost scope that binds it, among value
/// names or (when `types`) type names.
pub open spec fn layers_find(layers: Seq<LayerV>, name: Seq<char>, types: bool) -> Option<SymbolV>
    decreases layers.len(),
{
    if layers.len() == 0 {
        None
    } else {
        match entry_find(if types { layers.last().types } else { layers.last().values }, name) {
            Some(s) => Some(s),
            None => layers_find(layers.drop_last(), name, types),
        }
    }
}

/// A variant named by the last segment, owned by the sum type named by the
/// segment before it when that type declares it, else by the first sum type
/// that declares it.
pub open spec fn lookup_variant(env: Env, segs: Seq<Seq<char>>) -> Option<SymbolV> {
    if segs.len() == 0 {
        None
    } else {
        let variant = segs.last();
        if !env.owners.contains_key(variant) || env.owners[variant].len() == 0 {
            None
        } else {
            let parents = env.owners[variant];
            let parent = if segs.len() >= 2 && parents.contains(segs[segs.len() - 2]) {
                segs[segs.len() - 2]
            } else {
                parents[0]
            };
            Some(
                SymbolV {
                    name: variant,
                    category: CategoryV::Variant(parent),
                    scope: ScopeV::Module(env.module),
                },
            )
        }
    }
}

/// What a value path resolves to: a qualified variant first, then the
/// innermost binding of its first segment, then (for one segment) a variant.
pub open spec fn lookup_value(env: Env, st: ResolveState, segs: Seq<Seq<char>>) -> Option<SymbolV> {
    if segs.len() == 0 {
        None
    } else if segs.len() > 1 && lookup_variant(env, segs) is Some {
        lookup_variant(env, segs)
    } else {
        match layers_find(st.layers, segs[0], false) {
            Some(s) => Some(s),
            None => if segs.len() == 1 {
                lookup_variant(env, segs)
            } else {
                None
            },
        }
    }
}

/// What a type path resolves to: the innermost type binding of its first
/// segment, else (for two segments) a variant.
pub open spec fn lookup_type(env: Env, st: ResolveState, segs: Seq<Seq<char>>) -> Option<SymbolV> {
    if segs.len() == 0 {
        None
    } else {
        match layers_find(st.layers, segs[0], true) {
            Some(s) => Some(s),
            None => if segs.len() == 2 {
                lookup_variant(env, segs)
            } else {
                None
            },
        }
    }
}

/// Records a path and what it resolves to.
pub open spec fn path_step(env: Env, st: ResolveState, segs: Seq<Seq<char>>, kind: PathKind) -> ResolveState {
    let resolved = match kind {
        PathKind::Type => lookup_type(env, st, segs),
        PathKind::Value => lookup_value(env, st, segs),
        PathKind::Variant => lookup_variant(env, segs),
    };
    ResolveState { paths: st.paths.push(PathV { segments: segs, kind, resolved }), ..st }
}

pub open spec fn push_layer(st: ResolveState) -> ResolveState {
    ResolveState { layers: st.layers.push(empty_layer()), ..st }
}

pub open spec fn pop_layer(st: ResolveState) -> ResolveState {
    if st.layers.len() == 0 {
        st
    } else {
        ResolveState { layers: st.layers.drop_last(), ..st }
    }
}

/// Binds a symbol in the innermost scope, among value names or type names.
pub open spec fn bind(st: ResolveState, s: SymbolV, types: bool) -> ResolveState {
    if st.layers.len() == 0 {
        st
    } else {
        let l = st.layers.last();
        let l2 = if types {
            LayerV { types: l.types.push((s.name, s)), ..l }
        } else {
            LayerV { values: l.values.push((s.name, s)), ..l }
        };
        ResolveState { layers: st.layers.update(st.layers.len() - 1, l2), ..st }
    }
}

/// Binds a symbol and records it.
pub open spec fn declare(st: ResolveState, s: SymbolV, types: bool) -> ResolveState {
    let b = bind(st, s, types);
    ResolveState { symbols: b.symbols.push(s), ..b }
}

pub open spec fn local(st: ResolveState, name: Seq<char>) -> SymbolV {
    SymbolV { name, category: CategoryV::LocalBinding, scope: st.current }
}

pub open spec fn add_caps(st: ResolveState, names: Seq<Seq<char>>, scope: CapScopeV) -> ResolveState {
    ResolveState { caps: st.caps + names.map_values(|n: Seq<char>| CapV { name: n, scope }), ..st }
}

/// The capability scope of the item being walked, if it is one.
pub open spec fn cap_scope_of(s: ScopeV) -> Option<CapScopeV> {
    match s {
        ScopeV::Function(m, f) => Some(CapScopeV::Function(m, f)),
        ScopeV::TypeAlias(m, t) => Some(CapScopeV::TypeAlias(m, t)),
        ScopeV::Module(_) => None,
    }
}

// ---------------------------------------------------------------------------
// The walk
// ---------------------------------------------------------------------------

pub open spec fn r_type(env: Env, st: ResolveState, t: TypeExpr) -> ResolveState
    decreases t,
{
    match t {
        TypeExpr::Name(n) => path_step(env, st, seq![n@], PathKind::Type),
        TypeExpr::Generic(n, args) => r_types(env, path_step(env, st, seq![n@], PathKind::Type), args@),
        TypeExpr::Record(fields) => r_field_types(env, st, fields@),
        TypeExpr::Sum(vars) => r_variant_types(env, st, vars@),
        TypeExpr::List(inner) => r_type(env, st, *inner),
        TypeExpr::Tuple(items) => r_types(env, st, items@),
        TypeExpr::Reference { is_mut: _, inner } => r_type(env, st, *inner),
        TypeExpr::Function { params, return_type, effect_row } => {
            let s2 = r_type(env, r_types(env, st, params@), *return_type);
            if effect_row@.len() > 0 && cap_scope_of(s2.current) is Some {
                add_caps(s2, views(effect_row@), cap_scope_of(s2.current)->0)
            } else {
                s2
            }
        },
        TypeExpr::Unit => st,
    }
}

pub open spec fn r_types(env: Env, st: ResolveState, ts: Seq<TypeExpr>) -> ResolveState
    decreases ts,
{
    if ts.len() == 0 {
        st
    } else {
        r_type(env, r_types(env, st, ts.drop_last()), ts.last())
    }
}

pub open spec fn r_field_types(env: Env, st: ResolveState, fs: Seq<(String, TypeExpr)>) -> ResolveState
    decreases fs,
{
    if fs.len() == 0 {
        st
    } else {
        r_type(env, r_field_types(env, st, fs.drop_last()), fs.last().1)
    }
}

pub open spec fn r_variant_types(env: Env, st: ResolveState, vs: Seq<TypeVariant>) -> ResolveState
    decreases vs,
{
    if vs.len() == 0 {
        st
    } else {
        r_types(env, r_variant_types(env, st, vs.drop_last()), vs.last().fields@)
    }
}

pub open spec fn r_pattern(env: Env, st: ResolveState, p: Pattern) -> ResolveState
    decreases p,
{
    match p {
        Pattern::Wildcard => st,
        Pattern::Literal(_) => st,
        Pattern::Binding(n) => declare(st, local(st, n@), false),
        Pattern::Tuple(ps) => r_patterns(env, st, ps@),
        Pattern::Record(fs) => r_field_patterns(env, st, fs@),
        Pattern::EnumVariant { path, fields } => r_patterns(
            env,
            path_step(env, st, views(path.segments@), PathKind::Variant),
            fields@,
        ),
    }
}

pub open spec fn r_patterns(env: Env, st: ResolveState, ps: Seq<Pattern>) -> ResolveState
    decreases ps,
{
    if ps.len() == 0 {
        st
    } else {
        r_pattern(env, r_patterns(env, st, ps.drop_last()), ps.last())
    }
}

pub open spec fn r_field_patterns(env: Env, st: ResolveState, fs: Seq<(String, Pattern)>) -> ResolveState
    decreases fs,
{
    if fs.len() == 0 {
        st
    } else {
        r_pattern(env, r_field_patterns(env, st, fs.drop_last()), fs.last().1)
    }
}

/// A block: its statements in a scope of their own.
pub open spec fn r_block(env: Env, st: ResolveState, b: Block) -> ResolveState
    decreases b, 0nat,
{
    pop_layer(r_stmts(env, push_layer(st), b.statements@))
}

pub open spec fn r_expr(env: Env, st: ResolveState, e: Expr) -> ResolveState
    decreases e, 1nat,
{
    match e {
        Expr::Block(b) => r_block(env, st, b),
        Expr::Literal(_) => st,
        Expr::Path(p) => path_step(env, st, views(p.segments@), PathKind::Value),
        Expr::Binary { lhs, op: _, rhs } => r_expr(env, r_expr(env, st, *lhs), *rhs),
        Expr::Unary { op: _, expr } => r_expr(env, st, *expr),
        Expr::Call { callee, args } => r_exprs(env, r_expr(env, st, *callee), args@),
        Expr::Field { expr, name: _ } => r_expr(env, st, *expr),
        Expr::Index { expr, index } => r_expr(env, r_expr(env, st, *expr), *index),
        Expr::If { condition, then_branch, else_branch } => {
            let s2 = r_expr(env, r_expr(env, st, *condition), *then_branch);
            match else_branch {
                Some(b) => r_expr(env, s2, *b),
                None => s2,
            }
        },
        Expr::Match { scrutinee, arms } => r_arms(env, r_expr(env, st, *scrutinee), arms@),
        Expr::For { binding, iterable, body } => {
            let s1 = push_layer(r_expr(env, st, *iterable));
            pop_layer(r_expr(env, declare(s1, local(s1, binding@), false), *body))
        },
        Expr::While { condition, body } => r_expr(env, r_expr(env, st, *condition), *body),
        Expr::Loop { body } => r_expr(env, st, *body),
        Expr::Assignment { target, value } => r_expr(env, r_expr(env, st, *target), *value),
        Expr::Spawn(x) => r_expr(env, st, *x),
        Expr::Await(x) => r_expr(env, st, *x),
        Expr::Try(x) => r_expr(env, st, *x),
        Expr::Chan { ty, capacity } => {
            let s1 = r_type(env, st, *ty);
            match capacity {
                Some(c) => r_expr(env, s1, *c),
                None => s1,
            }
        },
        Expr::Using { binding, expr, body } => {
            let s1 = push_layer(r_expr(env, st, *expr));
            let s2 = match binding {
                Some(n) => declare(s1, local(s1, n@), false),
                None => s1,
            };
            pop_layer(r_block(env, s2, body))
        },
    }
}

pub open spec fn r_exprs(env: Env, st: ResolveState, es: Seq<Expr>) -> ResolveState
    decreases es, 0nat,
{
    if es.len() == 0 {
        st
    } else {
        r_expr(env, r_exprs(env, st, es.drop_last()), es.last())
    }
}

/// A match arm: its pattern, guard and body in a scope of their own.
pub open spec fn r_arm(env: Env, st: ResolveState, a: MatchArm) -> ResolveState
    decreases a, 0nat,
{
    let s1 = r_pattern(env, push_layer(st), a.pattern);
    let s2 = match a.guard {
        Some(g) => r_expr(env, s1, g),
        None => s1,
    };
    pop_layer(r_expr(env, s2, a.body))
}

pub open spec fn r_arms(env: Env, st: ResolveState, arms: Seq<MatchArm>) -> ResolveState
    decreases arms, 0nat,
{
    if arms.len() == 0 {
        st
    } else {
        r_arm(env, r_arms(env, st, arms.drop_last()), arms.last())
    }
}

pub open spec fn r_stmt(env: Env, st: ResolveState, s: Stmt) -> ResolveState
    decreases s, 0nat,
{
    match s {
        Stmt::Let(l) => {
            let s1 = r_expr(env, st, l.value);
            declare(s1, local(s1, l.name@), false)
        },
        Stmt::Expr(e) => r_expr(env, st, e),
        Stmt::Return(Some(e)) => r_expr(env, st, e),
        Stmt::Return(None) => st,
        Stmt::Break => st,
        Stmt::Continue => st,
    }
}

pub open spec fn r_stmts(env: Env, st: ResolveState, ss: Seq<Stmt>) -> ResolveState
    decreases ss, 0nat,
{
    if ss.len() == 0 {
        st
    } else {
        r_stmt(env, r_stmts(env, st, ss.drop_last()), ss.last())
    }
}

/// Type parameters declared in the current scope.
pub open spec fn declare_type_params(st: ResolveState, names: Seq<String>) -> ResolveState
    decreases names.len(),
{
    if names.len() == 0 {
        st
    } else {
        let s1 = declare_type_params(st, names.drop_last());
        declare(s1, SymbolV { name: names.last()@, category: CategoryV::TypeParam, scope: s1.current }, true)
    }
}

/// Parameters: each type resolved, then the parameter declared.
pub open spec fn r_params(env: Env, st: ResolveState, ps: Seq<crate::syntax::ast::Param>) -> ResolveState
    decreases ps.len(),
{
    if ps.len() == 0 {
        st
    } else {
        let s1 = r_type(env, r_params(env, st, ps.drop_last()), ps.last().ty);
        declare(s1, SymbolV { name: ps.last().name@, category: CategoryV::ValueParam, scope: s1.current }, false)
    }
}

/// A type alias: its parameters and value in the alias's own scope.
pub open spec fn r_type_alias(env: Env, st: ResolveState, ta: TypeAlias) -> ResolveState {
    let s0 = ResolveState { current: ScopeV::TypeAlias(env.module, ta.name@), ..st };
    let s1 = declare_type_params(push_layer(s0), ta.params@);
    let s2 = pop_layer(r_type(env, s1, ta.value));
    ResolveState { current: st.current, ..s2 }
}

/// A function: its type parameters, parameters, result type, effect row
/// (each capability bound to the function) and body in its own scope.
pub open spec fn r_function(env: Env, st: ResolveState, f: Function) -> ResolveState {
    let s0 = ResolveState { current: ScopeV::Function(env.module, f.name@), ..st };
    let s1 = r_params(env, declare_type_params(push_layer(s0), f.generics@), f.params@);
    let s2 = match f.return_type {
        Some(t) => r_type(env, s1, t),
        None => s1,
    };
    let s3 = add_caps(s2, views(f.effect_row@), CapScopeV::Function(env.module, f.name@));
    let s4 = pop_layer(r_block(env, s3, f.body));
    ResolveState { current: st.current, ..s4 }
}

pub open spec fn r_items(env: Env, st: ResolveState, items: Seq<Item>) -> ResolveState
    decreases items.len(),
{
    if items.len() == 0 {
        st
    } else {
        let s1 = r_items(env, st, items.drop_last());
        match items.last() {
            Item::TypeAlias(ta) => r_type_alias(env, s1, ta),
            Item::Function(f) => r_function(env, s1, f),
            Item::Use(_) => s1,
        }
    }
}

// ---------------------------------------------------------------------------
// Collection
// ---------------------------------------------------------------------------

/// The name an import is known by: its alias, else its last segment.
pub open spec fn import_name(u: UseDecl) -> Option<Seq<char>> {
    match u.alias {
        Some(a) => Some(a@),
        None => if u.path@.len() > 0 {
            Some(u.path@.last()@)
        } else {
            None
        },
    }
}

/// The variant symbols of a sum type.
pub open spec fn variant_symbols(env: Env, parent: Seq<char>, vs: Seq<TypeVariant>) -> Seq<SymbolV> {
    vs.map_values(
        |v: TypeVariant| SymbolV { name: v.name@, category: CategoryV::Variant(parent), scope: ScopeV::Module(env.module) },
    )
}

/// Collecting one item into the module scope: types, functions and import
/// aliases are bound (an alias in both namespaces) and recorded; a sum
/// type's variants are recorded after it.
pub open spec fn collect_item(env: Env, st: ResolveState, item: Item) -> ResolveState {
    match item {
        Item::TypeAlias(ta) => {
            let s = SymbolV {
                name: ta.name@,
                category: CategoryV::Type(ta.is_public, views(ta.params@)),
                scope: ScopeV::Module(env.module),
            };
            let s1 = declare(st, s, true);
            match ta.value {
                TypeExpr::Sum(vs) => ResolveState { symbols: s1.symbols + variant_symbols(env, ta.name@, vs@), ..s1 },
                _ => s1,
            }
        },
        Item::Function(f) => declare(
            st,
            SymbolV { name: f.name@, category: CategoryV::Function(f.is_public), scope: ScopeV::Module(env.module) },
            false,
        ),
        Item::Use(u) => match import_name(u) {
            Some(n) => {
                let s = SymbolV {
                    name: n,
                    category: CategoryV::ImportAlias(views(u.path@)),
                    scope: ScopeV::Module(env.module),
                };
                declare(bind(st, s, false), s, true)
            },
            None => st,
        },
    }
}

pub open spec fn collect_items(env: Env, st: ResolveState, items: Seq<Item>) -> ResolveState
    decreases items.len(),
{
    if items.len() == 0 {
        st
    } else {
        collect_item(env, collect_items(env, st, items.drop_last()), items.last())
    }
}

/// The imports of a module, each with the name it is known by.
pub open spec fn imports_spec(items: Seq<Item>) -> Seq<ImportV>
    decreases items.len(),
{
    if items.len() == 0 {
        Seq::empty()
    } else {
        let rest = imports_spec(items.drop_last());
        match items.last() {
            Item::Use(u) => rest.push(ImportV { path: views(u.path@), alias: import_name(u) }),
            _ => rest,
        }
    }
}

pub open spec fn initial_state(env: Env) -> ResolveState {
    ResolveState {
        layers: seq![empty_layer()],
        symbols: Seq::empty(),
        paths: Seq::empty(),
        caps: Seq::empty(),
        current: ScopeV::Module(env.module),
    }
}

/// The whole resolution of a module under `env`: collection, then the walk
/// of every item.
pub open spec fn resolution(env: Env, items: Seq<Item>) -> ResolveState {
    r_items(env, collect_items(env, initial_state(env), items), items)
}

// ---------------------------------------------------------------------------
// Copies
// ---------------------------------------------------------------------------

pub fn copy_names(v: &Vec<String>) -> (r: Vec<String>)
    ensures
        views(r@) == views(v@),
{
    let mut r: Vec<String> = Vec::new();
    let mut i: usize = 0;
    while i < v.len()
        invariant
            i <= v.len(),
            views(r@) == views(v@.take(i as int)),
        decreases v.len() - i,
    {
        let ghost r0 = r@;
        r.push(copy_string(&v[i]));
        assert(views(r@) =~= views(r0).push(v@[i as int]@));
        assert(v@.take(i + 1) =~= v@.take(i as int).push(v@[i as int]));
        assert(views(v@.take(i + 1)) =~= views(v@.take(i as int)).push(v@[i as int]@));
        i = i + 1;
    }
    assert(v@.take(v.len() as int) =~= v@);
    r
}

fn copy_scope(s: &SymbolScope) -> (r: SymbolScope)
    ensures
        scope_v(r) == scope_v(*s),
{
    match s {
        SymbolScope::Module(p) => SymbolScope::Module(copy_names(p)),
        SymbolScope::TypeAlias { module, alias_name } => SymbolScope::TypeAlias {
            module: copy_names(module),
            alias_name: copy_string(alias_name),
        },
        SymbolScope::Function { module, function } => SymbolScope::Function {
            module: copy_names(module),
            function: copy_string(function),
        },
    }
}

fn copy_category(c: &SymbolCategory) -> (r: SymbolCategory)
    ensures
        category_v(r) == category_v(*c),
{
    match c {
        SymbolCategory::Type { is_public, params } => SymbolCategory::Type {
            is_public: *is_public,
            params: copy_names(params),
        },
        SymbolCategory::Variant { parent } => SymbolCategory::Variant { parent: copy_string(parent) },
        SymbolCategory::Function { is_public } => SymbolCategory::Function { is_public: *is_public },
        SymbolCategory::TypeParam => SymbolCategory::TypeParam,
        SymbolCategory::ValueParam => SymbolCategory::ValueParam,
        SymbolCategory::LocalBinding => SymbolCategory::LocalBinding,
        SymbolCategory::ImportAlias { target } => SymbolCategory::ImportAlias { target: copy_names(target) },
    }
}

pub fn copy_symbol(s: &SymbolInfo) -> (r: SymbolInfo)
    ensures
        symbol_v(r) == symbol_v(*s),
{
    SymbolInfo { name: copy_string(&s.name), category: copy_category(&s.category), scope: copy_scope(&s.scope) }
}

// ---------------------------------------------------------------------------
// The walker
// ---------------------------------------------------------------------------

struct Layer {
    values: Vec<(String, SymbolInfo)>,
    types: Vec<(String, SymbolInfo)>,
}

spec fn entries_v(es: Seq<(String, SymbolInfo)>) -> Seq<(Seq<char>, SymbolV)> {
    es.map_values(|e: (String, SymbolInfo)| (e.0@, symbol_v(e.1)))
}

spec fn layer_v(l: Layer) -> LayerV {
    LayerV { values: entries_v(l.values@), types: entries_v(l.types@) }
}

/// The state of a resolution walk over one module.
struct Walker {
    layers: Vec<Layer>,
    symbols: Vec<SymbolInfo>,
    paths: Vec<ResolvedPath>,
    caps: Vec<CapabilityBinding>,
    current: SymbolScope,
}

pub open spec fn env_of(module: Seq<String>, owners: Map<Seq<char>, Vec<String>>) -> Env {
    Env { module: views(module), owners: crate::semantics::resolve::name_lists(owners) }
}

fn entry_find_x(entries: &Vec<(String, SymbolInfo)>, name: &str) -> (r: Option<SymbolInfo>)
    ensures
        opt_symbol_v(r) == entry_find(entries_v(entries@), name@),
{
    let ghost ev = entries_v(entries@);
    let mut k = entries.len();
    assert(ev.take(k as int) =~= ev);
    while k > 0
        invariant
            k <= entries.len(),
            ev == entries_v(entries@),
            entry_find(ev, name@) == entry_find(ev.take(k as int), name@),
        decreases k,
    {
        assert(ev.take(k as int).drop_last() =~= ev.take(k - 1));
        if string_eq_str(&entries[k - 1].0, name) {
            return Some(copy_symbol(&entries[k - 1].1));
        }
        k = k - 1;
    }
    None
}

impl Walker {
    spec fn state(&self) -> ResolveState {
        ResolveState {
            layers: self.layers@.map_values(|l: Layer| layer_v(l)),
            symbols: symbols_v(self.symbols@),
            paths: paths_v(self.paths@),
            caps: caps_v(self.caps@),
            current: scope_v(self.current),
        }
    }

    fn layers_find_x(&self, name: &str, types: bool) -> (r: Option<SymbolInfo>)
        ensures
            opt_symbol_v(r) == layers_find(self.state().layers, name@, types),
    {
        let ghost ls = self.state().layers;
        let mut k = self.layers.len();
        assert(ls.take(k as int) =~= ls);
        while k > 0
            invariant
                k <= self.layers.len(),
                ls == self.state().layers,
                layers_find(ls, name@, types) == layers_find(ls.take(k as int), name@, types),
            decreases k,
        {
            assert(ls.take(k as int).drop_last() =~= ls.take(k - 1));
            assert(ls.take(k as int).last() == layer_v(self.layers@[k - 1]));
            let found = if types {
                entry_find_x(&self.layers[k - 1].types, name)
            } else {
                entry_find_x(&self.layers[k - 1].values, name)
            };
            match found {
                Some(s) => {
                    return Some(s);
                },
                None => {},
            }
            k = k - 1;
        }
        None
    }

    fn push_layer(&mut self)
        ensures
            final(self).state() == push_layer(old(self).state()),
    {
        self.layers.push(Layer { values: Vec::new(), types: Vec::new() });
        assert(self.state().layers =~= old(self).state().layers.push(empty_layer())) by {
            assert(layer_v(self.layers@.last()).values =~= Seq::<(Seq<char>, SymbolV)>::empty());
            assert(layer_v(self.layers@.last()).types =~= Seq::<(Seq<char>, SymbolV)>::empty());
        }
    }

    fn pop_layer(&mut self)
        ensures
            final(self).state() == pop_layer(old(self).state()),
    {
        if self.layers.len() > 0 {
            let _ = self.layers.pop();
            assert(self.state().layers =~= old(self).state().layers.drop_last());
        }
    }

    fn bind(&mut self, s: &SymbolInfo, types: bool)
        ensures
            final(self).state() == bind(old(self).state(), symbol_v(*s), types),
    {
        match self.layers.pop() {
            Some(mut l) => {
                let ghost lv = layer_v(l);
                if types {
                    l.types.push((copy_string(&s.name), copy_symbol(s)));
                    assert(layer_v(l).types =~= lv.types.push((s.name@, symbol_v(*s))));
                    assert(layer_v(l).values =~= lv.values);
                } else {
                    l.values.push((copy_string(&s.name), copy_symbol(s)));
                    assert(layer_v(l).values =~= lv.values.push((s.name@, symbol_v(*s))));
                    assert(layer_v(l).types =~= lv.types);
                }
                self.layers.push(l);
                let ghost ol = old(self).state().layers;
                assert(self.state().layers =~= ol.update(ol.len() - 1, layer_v(l)));
            },
            None => {},
        }
    }

    fn declare(&mut self, s: SymbolInfo, types: bool)
        ensures
            final(self).state() == declare(old(self).state(), symbol_v(s), types),
    {
        self.bind(&s, types);
        let ghost st = self.state();
        let ghost sv = symbol_v(s);
        self.symbols.push(s);
        assert(self.state().symbols =~= st.symbols.push(sv));
    }

    fn local(&self, name: &String) -> (s: SymbolInfo)
        ensures
            symbol_v(s) == local(self.state(), name@),
    {
        SymbolInfo { name: copy_string(name), category: SymbolCategory::LocalBinding, scope: copy_scope(&self.current) }
    }

    fn path_step(&mut self, module: &Vec<String>, owners: &StrMap<Vec<String>>, segs: Vec<String>, kind: PathKind)
        requires
            owners.wf(),
        ensures
            final(self).state() == path_step(env_of(module@, owners@), old(self).state(), views(segs@), kind),
    {
        let resolved = match kind {
            PathKind::Type => self.lookup_type_x(module, owners, &segs),
            PathKind::Value => self.lookup_value_x(module, owners, &segs),
            PathKind::Variant => lookup_variant_x(module, owners, &segs),
        };
        let ghost st = self.state();
        let ghost pv = PathV { segments: views(segs@), kind, resolved: opt_symbol_v(resolved) };
        let p = ResolvedPath { segments: segs, kind, resolved };
        self.paths.push(p);
        assert(self.state().paths =~= st.paths.push(pv));
    }

    fn lookup_type_x(&self, module: &Vec<String>, owners: &StrMap<Vec<String>>, segs: &Vec<String>) -> (r: Option<SymbolInfo>)
        requires
            owners.wf(),
        ensures
            opt_symbol_v(r) == lookup_type(env_of(module@, owners@), self.state(), views(segs@)),
    {
        if segs.len() == 0 {
            return None;
        }
        match self.layers_find_x(segs[0].as_str(), true) {
            Some(s) => Some(s),
            None => {
                if segs.len() == 2 {
                    lookup_variant_x(module, owners, segs)
                } else {
                    None
                }
            },
        }
    }

    fn lookup_value_x(&self, module: &Vec<String>, owners: &StrMap<Vec<String>>, segs: &Vec<String>) -> (r: Option<SymbolInfo>)
        requires
            owners.wf(),
        ensures
            opt_symbol_v(r) == lookup_value(env_of(module@, owners@), self.state(), views(segs@)),
    {
        if segs.len() == 0 {
            return None;
        }
        if segs.len() > 1 {
            match lookup_variant_x(module, owners, segs) {
                Some(v) => {
                    return Some(v);
                },
                None => {},
            }
        }
        match self.layers_find_x(segs[0].as_str(), false) {
            Some(s) => Some(s),
            None => {
                if segs.len() == 1 {
                    lookup_variant_x(module, owners, segs)
                } else {
                    None
                }
            },
        }
    }

    fn add_caps(&mut self, names: &Vec<String>, scope: &CapabilityScope)
        ensures
            final(self).state() == add_caps(old(self).state(), views(names@), cap_scope_v(*scope)),
    {
        let ghost st = old(self).state();
        let ghost cs = cap_scope_v(*scope);
        let mut i: usize = 0;
        while i < names.len()
            invariant
                i <= names.len(),
                cs == cap_scope_v(*scope),
                self.state() == add_caps(st, views(names@.take(i as int)), cs),
            decreases names.len() - i,
        {
            let c = CapabilityBinding { name: copy_string(&names[i]), scope: copy_cap_scope(scope) };
            let ghost c0 = self.state().caps;
            let ghost cv = cap_v(c);
            let ghost k0 = self.caps@;
            self.caps.push(c);
            assert(caps_v(self.caps@) =~= caps_v(k0).push(cv));
            proof {
                let f = |n: Seq<char>| CapV { name: n, scope: cs };
                assert(views(names@.take(i + 1)) =~= views(names@.take(i as int)).push(names@[i as int]@));
                assert(views(names@.take(i + 1)).map_values(f) =~= views(names@.take(i as int)).map_values(f).push(
                    f(names@[i as int]@),
                ));
                assert(cv == CapV { name: names@[i as int]@, scope: cs });
                assert(f(names@[i as int]@) == CapV { name: names@[i as int]@, scope: cs });
                assert(self.state().caps =~= c0.push(f(names@[i as int]@)));
                assert(st.caps + views(names@.take(i + 1)).map_values(f) =~= (st.caps + views(
                    names@.take(i as int),
                ).map_values(f)).push(f(names@[i as int]@)));
            }
            i = i + 1;
        }
        assert(names@.take(names.len() as int) =~= names@);
    }
}

fn copy_cap_scope(s: &CapabilityScope) -> (r: CapabilityScope)
    ensures
        cap_scope_v(r) == cap_scope_v(*s),
{
    match s {
        CapabilityScope::Function { module, function } => CapabilityScope::Function {
            module: copy_names(module),
            function: copy_string(function),
        },
        CapabilityScope::TypeAlias { module, alias_name } => CapabilityScope::TypeAlias {
            module: copy_names(module),
            alias_name: copy_string(alias_name),
        },
    }
}

fn names_contain(v: &Vec<String>, x: &String) -> (r: bool)
    ensures
        r == views(v@).contains(x@),
{
    let mut i: usize = 0;
    while i < v.len()
        invariant
            i <= v.len(),
            forall|k: int| 0 <= k < i ==> v@[k]@ != x@,
        decreases v.len() - i,
    {
        if string_eq_str(&v[i], x.as_str()) {
            assert(views(v@)[i as int] == x@);
            return true;
        }
        i = i + 1;
    }
    assert(!views(v@).contains(x@)) by {
        if views(v@).contains(x@) {
            let k = choose|k: int| 0 <= k < views(v@).len() && views(v@)[k] == x@;
            assert(v@[k]@ == x@);
        }
    }
    false
}

fn lookup_variant_x(module: &Vec<String>, owners: &StrMap<Vec<String>>, segs: &Vec<String>) -> (r: Option<SymbolInfo>)
    requires
        owners.wf(),
    ensures
        opt_symbol_v(r) == lookup_variant(env_of(module@, owners@), views(segs@)),
{
    if segs.len() == 0 {
        return None;
    }
    let n = segs.len();
    let variant = &segs[n - 1];
    proof {
        assert(views(segs@).last() == variant@);
    }
    match owners.get(variant.as_str()) {
        None => None,
        Some(parents) => {
            proof {
                assert(crate::semantics::resolve::name_lists(owners@)[variant@] == views(parents@));
            }
            if parents.len() == 0 {
                return None;
            }
            let parent = if n >= 2 && names_contain(parents, &segs[n - 2]) {
                copy_string(&segs[n - 2])
            } else {
                copy_string(&parents[0])
            };
            Some(SymbolInfo {
                name: copy_string(variant),
                category: SymbolCategory::Variant { parent },
                scope: SymbolScope::Module(copy_names(module)),
            })
        },
    }
}

impl Walker {
    fn r_types_x(&mut self, module: &Vec<String>, owners: &StrMap<Vec<String>>, ts: &Vec<TypeExpr>)
        requires
            owners.wf(),
        ensures
            final(self).state() == r_types(env_of(module@, owners@), old(self).state(), ts@),
        decreases ts, 0nat,
    {
        let ghost st = self.state();
        let mut i: usize = 0;
        while i < ts.len()
            invariant
                i <= ts.len(),
                owners.wf(),
                self.state() == r_types(env_of(module@, owners@), st, ts@.take(i as int)),
            decreases ts.len() - i,
        {
            proof {
                assert(decreases_to!(ts => ts@));
                assert(decreases_to!(ts@ => ts@[i as int]));
                assert(ts@.take(i + 1).drop_last() =~= ts@.take(i as int));
                assert(ts@.take(i + 1).last() == ts@[i as int]);
            }
            self.r_type_x(module, owners, &ts[i]);
            i = i + 1;
        }
        assert(ts@.take(ts.len() as int) =~= ts@);
    }

    fn r_type_x(&mut self, module: &Vec<String>, owners: &StrMap<Vec<String>>, t: &TypeExpr)
        requires
            owners.wf(),
        ensures
            final(self).state() == r_type(env_of(module@, owners@), old(self).state(), *t),
        decreases t, 1nat,
    {
        match t {
            TypeExpr::Name(n) => {
                let mut segs: Vec<String> = Vec::new();
                segs.push(copy_string(n));
                assert(views(segs@) =~= seq![n@]);
                self.path_step(module, owners, segs, PathKind::Type);
            },
            TypeExpr::Generic(n, args) => {
                let mut segs: Vec<String> = Vec::new();
                segs.push(copy_string(n));
                assert(views(segs@) =~= seq![n@]);
                self.path_step(module, owners, segs, PathKind::Type);
                self.r_types_x(module, owners, args);
            },
            TypeExpr::Record(fields) => {
                let ghost st = self.state();
                let mut i: usize = 0;
                while i < fields.len()
                    invariant
                        i <= fields.len(),
                        owners.wf(),
                        *t == TypeExpr::Record(*fields),
                        self.state() == r_field_types(env_of(module@, owners@), st, fields@.take(i as int)),
                    decreases fields.len() - i,
                {
                    proof {
                        assert(decreases_to!(*t => (*t)->Record_0));
                        assert(decreases_to!(fields => fields@));
                        assert(decreases_to!(fields@ => fields@[i as int]));
                        assert(decreases_to!(fields@[i as int] => fields@[i as int].1));
                        assert(fields@.take(i + 1).drop_last() =~= fields@.take(i as int));
                        assert(fields@.take(i + 1).last() == fields@[i as int]);
                    }
                    self.r_type_x(module, owners, &fields[i].1);
                    i = i + 1;
                }
                assert(fields@.take(fields.len() as int) =~= fields@);
            },
            TypeExpr::Sum(vars) => {
                let ghost st = self.state();
                let mut i: usize = 0;
                while i < vars.len()
                    invariant
                        i <= vars.len(),
                        owners.wf(),
                        *t == TypeExpr::Sum(*vars),
                        self.state() == r_variant_types(env_of(module@, owners@), st, vars@.take(i as int)),
                    decreases vars.len() - i,
                {
                    proof {
                        assert(decreases_to!(*t => (*t)->Sum_0));
                        assert(decreases_to!(vars => vars@));
                        assert(decreases_to!(vars@ => vars@[i as int]));
                        assert(decreases_to!(vars@[i as int] => vars@[i as int].fields));
                        assert(vars@.take(i + 1).drop_last() =~= vars@.take(i as int));
                        assert(vars@.take(i + 1).last() == vars@[i as int]);
                    }
                    self.r_types_x(module, owners, &vars[i].fields);
                    i = i + 1;
                }
                assert(vars@.take(vars.len() as int) =~= vars@);
            },
            TypeExpr::List(inner) => self.r_type_x(module, owners, inner),
            TypeExpr::Tuple(items) => self.r_types_x(module, owners, items),
            TypeExpr::Reference { is_mut: _, inner } => self.r_type_x(module, owners, inner),
            TypeExpr::Function { params, return_type, effect_row } => {
                self.r_types_x(module, owners, params);
                self.r_type_x(module, owners, return_type);
                if effect_row.len() > 0 {
                    let scope = match &self.current {
                        SymbolScope::Function { module: m, function } => Some(
                            CapabilityScope::Function { module: copy_names(m), function: copy_string(function) },
                        ),
                        SymbolScope::TypeAlias { module: m, alias_name } => Some(
                            CapabilityScope::TypeAlias { module: copy_names(m), alias_name: copy_string(alias_name) },
                        ),
                        SymbolScope::Module(_) => None,
                    };
                    match scope {
                        Some(cs) => self.add_caps(effect_row, &cs),
                        None => {},
                    }
                }
            },
            TypeExpr::Unit => {},
        }
    }

    fn r_patterns_x(&mut self, module: &Vec<String>, owners: &StrMap<Vec<String>>, ps: &Vec<Pattern>)
        requires
            owners.wf(),
        ensures
            final(self).state() == r_patterns(env_of(module@, owners@), old(self).state(), ps@),
        decreases ps, 0nat,
    {
        let ghost st = self.state();
        let mut i: usize = 0;
        while i < ps.len()
            invariant
                i <= ps.len(),
                owners.wf(),
                self.state() == r_patterns(env_of(module@, owners@), st, ps@.take(i as int)),
            decreases ps.len() - i,
        {
            proof {
                assert(decreases_to!(ps => ps@));
                assert(decreases_to!(ps@ => ps@[i as int]));
                assert(ps@.take(i + 1).drop_last() =~= ps@.take(i as int));
                assert(ps@.take(i + 1).last() == ps@[i as int]);
            }
            self.r_pattern_x(module, owners, &ps[i]);
            i = i + 1;
        }
        assert(ps@.take(ps.len() as int) =~= ps@);
    }

    fn r_pattern_x(&mut self, module: &Vec<String>, owners: &StrMap<Vec<String>>, p: &Pattern)
        requires
            owners.wf(),
        ensures
            final(self).state() == r_pattern(env_of(module@, owners@), old(self).state(), *p),
        decreases p, 1nat,
    {
        match p {
            Pattern::Wildcard => {},
            Pattern::Literal(_) => {},
            Pattern::Binding(n) => {
                let s = self.local(n);
                self.declare(s, false);
            },
            Pattern::Tuple(ps) => self.r_patterns_x(module, owners, ps),
            Pattern::Record(fs) => {
                let ghost st = self.state();
                let mut i: usize = 0;
                while i < fs.len()
                    invariant
                        i <= fs.len(),
                        owners.wf(),
                        *p == Pattern::Record(*fs),
                        self.state() == r_field_patterns(env_of(module@, owners@), st, fs@.take(i as int)),
                    decreases fs.len() - i,
                {
                    proof {
                        assert(decreases_to!(*p => (*p)->Record_0));
                        assert(decreases_to!(fs => fs@));
                        assert(decreases_to!(fs@ => fs@[i as int]));
                        assert(decreases_to!(fs@[i as int] => fs@[i as int].1));
                        assert(fs@.take(i + 1).drop_last() =~= fs@.take(i as int));
                        assert(fs@.take(i + 1).last() == fs@[i as int]);
                    }
                    self.r_pattern_x(module, owners, &fs[i].1);
                    i = i + 1;
                }
                assert(fs@.take(fs.len() as int) =~= fs@);
            },
            Pattern::EnumVariant { path, fields } => {
                self.path_step(module, owners, copy_names(&path.segments), PathKind::Variant);
                self.r_patterns_x(module, owners, fields);
            },
        }
    }

    fn r_exprs_x(&mut self, module: &Vec<String>, owners: &StrMap<Vec<String>>, es: &Vec<Expr>)
        requires
            owners.wf(),
        ensures
            final(self).state() == r_exprs(env_of(module@, owners@), old(self).state(), es@),
        decreases es, 0nat,
    {
        let ghost st = self.state();
        let mut i: usize = 0;
        while i < es.len()
            invariant
                i <= es.len(),
                owners.wf(),
                self.state() == r_exprs(env_of(module@, owners@), st, es@.take(i as int)),
            decreases es.len() - i,
        {
            proof {
                assert(decreases_to!(es => es@));
                assert(decreases_to!(es@ => es@[i as int]));
                assert(es@.take(i + 1).drop_last() =~= es@.take(i as int));
                assert(es@.take(i + 1).last() == es@[i as int]);
            }
            self.r_expr_x(module, owners, &es[i]);
            i = i + 1;
        }
        assert(es@.take(es.len() as int) =~= es@);
    }

    fn r_stmts_x(&mut self, module: &Vec<String>, owners: &StrMap<Vec<String>>, ss: &Vec<Stmt>)
        requires
            owners.wf(),
        ensures
            final(self).state() == r_stmts(env_of(module@, owners@), old(self).state(), ss@),
        decreases ss, 0nat,
    {
        let ghost st = self.state();
        let mut i: usize = 0;
        while i < ss.len()
            invariant
                i <= ss.len(),
                owners.wf(),
                self.state() == r_stmts(env_of(module@, owners@), st, ss@.take(i as int)),
            decreases ss.len() - i,
        {
            proof {
                assert(decreases_to!(ss => ss@));
                assert(decreases_to!(ss@ => ss@[i as int]));
                assert(ss@.take(i + 1).drop_last() =~= ss@.take(i as int));
                assert(ss@.take(i + 1).last() == ss@[i as int]);
            }
            let ghost prev = self.state();
            match &ss[i] {
                Stmt::Let(l) => {
                    proof {
                        assert(decreases_to!(ss@[i as int] => ss@[i as int]->Let_0));
                        assert(decreases_to!(l => l.value));
                    }
                    self.r_expr_x(module, owners, &l.value);
                    let s = self.local(&l.name);
                    self.declare(s, false);
                },
                Stmt::Expr(e) => {
                    proof {
                        assert(decreases_to!(ss@[i as int] => ss@[i as int]->Expr_0));
                    }
                    self.r_expr_x(module, owners, e);
                },
                Stmt::Return(Some(e)) => {
                    proof {
                        assert(decreases_to!(ss@[i as int] => ss@[i as int]->Return_0));
                    }
                    self.r_expr_x(module, owners, e);
                },
                Stmt::Return(None) => {},
                Stmt::Break => {},
                Stmt::Continue => {},
            }
            assert(self.state() == r_stmt(env_of(module@, owners@), prev, ss@[i as int]));
            i = i + 1;
        }
        assert(ss@.take(ss.len() as int) =~= ss@);
    }

    fn r_block_x(&mut self, module: &Vec<String>, owners: &StrMap<Vec<String>>, b: &Block)
        requires
            owners.wf(),
        ensures
            final(self).state() == r_block(env_of(module@, owners@), old(self).state(), *b),
        decreases b, 1nat,
    {
        self.push_layer();
        self.r_stmts_x(module, owners, &b.statements);
        self.pop_layer();
    }

    fn r_arms_x(&mut self, module: &Vec<String>, owners: &StrMap<Vec<String>>, arms: &Vec<MatchArm>)
        requires
            owners.wf(),
        ensures
            final(self).state() == r_arms(env_of(module@, owners@), old(self).state(), arms@),
        decreases arms, 0nat,
    {
        let ghost st = self.state();
        let mut i: usize = 0;
        while i < arms.len()
            invariant
                i <= arms.len(),
                owners.wf(),
                self.state() == r_arms(env_of(module@, owners@), st, arms@.take(i as int)),
            decreases arms.len() - i,
        {
            proof {
                assert(decreases_to!(arms => arms@));
                assert(decreases_to!(arms@ => arms@[i as int]));
                assert(decreases_to!(arms@[i as int] => arms@[i as int].body));
                assert(arms@.take(i + 1).drop_last() =~= arms@.take(i as int));
                assert(arms@.take(i + 1).last() == arms@[i as int]);
            }
            let a = &arms[i];
            let ghost prev = self.state();
            self.push_layer();
            self.r_pattern_x(module, owners, &a.pattern);
            match &a.guard {
                Some(g) => {
                    proof {
                        assert(decreases_to!(arms@[i as int] => arms@[i as int].guard));
                        assert(decreases_to!(arms@[i as int].guard => arms@[i as int].guard->Some_0));
                    }
                    self.r_expr_x(module, owners, g);
                },
                None => {},
            }
            self.r_expr_x(module, owners, &a.body);
            self.pop_layer();
            assert(self.state() == r_arm(env_of(module@, owners@), prev, arms@[i as int]));
            i = i + 1;
        }
        assert(arms@.take(arms.len() as int) =~= arms@);
    }

    fn r_expr_x(&mut self, module: &Vec<String>, owners: &StrMap<Vec<String>>, e: &Expr)
        requires
            owners.wf(),
        ensures
            final(self).state() == r_expr(env_of(module@, owners@), old(self).state(), *e),
        decreases e, 2nat,
    {
        match e {
            Expr::Block(b) => self.r_block_x(module, owners, b),
            Expr::Literal(_) => {},
            Expr::Path(p) => self.path_step(module, owners, copy_names(&p.segments), PathKind::Value),
            Expr::Binary { lhs, op: _, rhs } => {
                self.r_expr_x(module, owners, lhs);
                self.r_expr_x(module, owners, rhs);
            },
            Expr::Unary { op: _, expr } => self.r_expr_x(module, owners, expr),
            Expr::Call { callee, args } => {
                self.r_expr_x(module, owners, callee);
                self.r_exprs_x(module, owners, args);
            },
            Expr::Field { expr, name: _ } => self.r_expr_x(module, owners, expr),
            Expr::Index { expr, index } => {
                self.r_expr_x(module, owners, expr);
                self.r_expr_x(module, owners, index);
            },
            Expr::If { condition, then_branch, else_branch } => {
                self.r_expr_x(module, owners, condition);
                self.r_expr_x(module, owners, then_branch);
                match else_branch {
                    Some(b) => self.r_expr_x(module, owners, b),
                    None => {},
                }
            },
            Expr::Match { scrutinee, arms } => {
                self.r_expr_x(module, owners, scrutinee);
                self.r_arms_x(module, owners, arms);
            },
            Expr::For { binding, iterable, body } => {
                self.r_expr_x(module, owners, iterable);
                self.push_layer();
                let s = self.local(binding);
                self.declare(s, false);
                self.r_expr_x(module, owners, body);
                self.pop_layer();
            },
            Expr::While { condition, body } => {
                self.r_expr_x(module, owners, condition);
                self.r_expr_x(module, owners, body);
            },
            Expr::Loop { body } => self.r_expr_x(module, owners, body),
            Expr::Assignment { target, value } => {
                self.r_expr_x(module, owners, target);
                self.r_expr_x(module, owners, value);
            },
            Expr::Spawn(x) => self.r_expr_x(module, owners, x),
            Expr::Await(x) => self.r_expr_x(module, owners, x),
            Expr::Try(x) => self.r_expr_x(module, owners, x),
            Expr::Chan { ty, capacity } => {
                self.r_type_x(module, owners, ty);
                match capacity {
                    Some(c) => self.r_expr_x(module, owners, c),
                    None => {},
                }
            },
            Expr::Using { binding, expr, body } => {
                self.r_expr_x(module, owners, expr);
                self.push_layer();
                match binding {
                    Some(n) => {
                        let s = self.local(n);
                        self.declare(s, false);
                    },
                    None => {},
                }
                self.r_block_x(module, owners, body);
                self.pop_layer();
            },
        }
    }
}

impl Walker {
    fn declare_type_params_x(&mut self, names: &Vec<String>)
        ensures
            final(self).state() == declare_type_params(old(self).state(), names@),
    {
        let ghost st = self.state();
        let mut i: usize = 0;
        while i < names.len()
            invariant
                i <= names.len(),
                self.state() == declare_type_params(st, names@.take(i as int)),
            decreases names.len() - i,
        {
            proof {
                assert(names@.take(i + 1).drop_last() =~= names@.take(i as int));
                assert(names@.take(i + 1).last() == names@[i as int]);
            }
            let s = SymbolInfo {
                name: copy_string(&names[i]),
                category: SymbolCategory::TypeParam,
                scope: copy_scope(&self.current),
            };
            self.declare(s, true);
            i = i + 1;
        }
        assert(names@.take(names.len() as int) =~= names@);
    }

    fn r_params_x(&mut self, module: &Vec<String>, owners: &StrMap<Vec<String>>, ps: &Vec<crate::syntax::ast::Param>)
        requires
            owners.wf(),
        ensures
            final(self).state() == r_params(env_of(module@, owners@), old(self).state(), ps@),
    {
        let ghost st = self.state();
        let mut i: usize = 0;
        while i < ps.len()
            invariant
                i <= ps.len(),
                owners.wf(),
                self.state() == r_params(env_of(module@, owners@), st, ps@.take(i as int)),
            decreases ps.len() - i,
        {
            proof {
                assert(ps@.take(i + 1).drop_last() =~= ps@.take(i as int));
                assert(ps@.take(i + 1).last() == ps@[i as int]);
            }
            self.r_type_x(module, owners, &ps[i].ty);
            let s = SymbolInfo {
                name: copy_string(&ps[i].name),
                category: SymbolCategory::ValueParam,
                scope: copy_scope(&self.current),
            };
            self.declare(s, false);
            i = i + 1;
        }
        assert(ps@.take(ps.len() as int) =~= ps@);
    }

    fn set_current(&mut self, scope: SymbolScope)
        ensures
            final(self).state() == (ResolveState { current: scope_v(scope), ..old(self).state() }),
    {
        self.current = scope;
    }

    fn r_type_alias_x(&mut self, module: &Vec<String>, owners: &StrMap<Vec<String>>, ta: &TypeAlias)
        requires
            owners.wf(),
        ensures
            final(self).state() == r_type_alias(env_of(module@, owners@), old(self).state(), *ta),
    {
        let prev = copy_scope(&self.current);
        self.set_current(SymbolScope::TypeAlias { module: copy_names(module), alias_name: copy_string(&ta.name) });
        self.push_layer();
        self.declare_type_params_x(&ta.params);
        self.r_type_x(module, owners, &ta.value);
        self.pop_layer();
        self.set_current(prev);
    }

    fn r_function_x(&mut self, module: &Vec<String>, owners: &StrMap<Vec<String>>, f: &Function)
        requires
            owners.wf(),
        ensures
            final(self).state() == r_function(env_of(module@, owners@), old(self).state(), *f),
    {
        let prev = copy_scope(&self.current);
        self.set_current(SymbolScope::Function { module: copy_names(module), function: copy_string(&f.name) });
        self.push_layer();
        self.declare_type_params_x(&f.generics);
        self.r_params_x(module, owners, &f.params);
        match &f.return_type {
            Some(t) => self.r_type_x(module, owners, t),
            None => {},
        }
        let cs = CapabilityScope::Function { module: copy_names(module), function: copy_string(&f.name) };
        self.add_caps(&f.effect_row, &cs);
        self.r_block_x(module, owners, &f.body);
        self.pop_layer();
        self.set_current(prev);
    }

    fn collect_item_x(&mut self, module: &Vec<String>, owners: &StrMap<Vec<String>>, item: &Item)
        ensures
            final(self).state() == collect_item(env_of(module@, owners@), old(self).state(), *item),
    {
        match item {
            Item::TypeAlias(ta) => {
                let s = SymbolInfo {
                    name: copy_string(&ta.name),
                    category: SymbolCategory::Type { is_public: ta.is_public, params: copy_names(&ta.params) },
                    scope: SymbolScope::Module(copy_names(module)),
                };
                self.declare(s, true);
                match &ta.value {
                    TypeExpr::Sum(vs) => {
                        let ghost s1 = self.state();
                        let ghost env = env_of(module@, owners@);
                        let mut k: usize = 0;
                        while k < vs.len()
                            invariant
                                k <= vs.len(),
                                env == env_of(module@, owners@),
                                self.state() == (ResolveState {
                                    symbols: s1.symbols + variant_symbols(env, ta.name@, vs@.take(k as int)),
                                    ..s1
                                }),
                            decreases vs.len() - k,
                        {
                            let v = SymbolInfo {
                                name: copy_string(&vs[k].name),
                                category: SymbolCategory::Variant { parent: copy_string(&ta.name) },
                                scope: SymbolScope::Module(copy_names(module)),
                            };
                            let ghost sv = symbol_v(v);
                            let ghost k0 = self.symbols@;
                            self.symbols.push(v);
                            proof {
                                assert(symbols_v(self.symbols@) =~= symbols_v(k0).push(sv));
                                assert(vs@.take(k + 1) =~= vs@.take(k as int).push(vs@[k as int]));
                                assert(variant_symbols(env, ta.name@, vs@.take(k + 1)) =~= variant_symbols(
                                    env,
                                    ta.name@,
                                    vs@.take(k as int),
                                ).push(sv));
                                assert(s1.symbols + variant_symbols(env, ta.name@, vs@.take(k + 1)) =~= (s1.symbols
                                    + variant_symbols(env, ta.name@, vs@.take(k as int))).push(sv));
                            }
                            k = k + 1;
                        }
                        assert(vs@.take(vs.len() as int) =~= vs@);
                    },
                    _ => {},
                }
            },
            Item::Function(f) => {
                let s = SymbolInfo {
                    name: copy_string(&f.name),
                    category: SymbolCategory::Function { is_public: f.is_public },
                    scope: SymbolScope::Module(copy_names(module)),
                };
                self.declare(s, false);
            },
            Item::Use(u) => {
                let name = match &u.alias {
                    Some(a) => Some(copy_string(a)),
                    None => if u.path.len() > 0 {
                        Some(copy_string(&u.path[u.path.len() - 1]))
                    } else {
                        None
                    },
                };
                match name {
                    Some(n) => {
                        let s = SymbolInfo {
                            name: n,
                            category: SymbolCategory::ImportAlias { target: copy_names(&u.path) },
                            scope: SymbolScope::Module(copy_names(module)),
                        };
                        self.bind(&s, false);
                        self.declare(s, true);
                    },
                    None => {},
                }
            },
        }
    }
}

/// The symbols, resolved paths and capability bindings of a module's
/// items, under `module` and the variant owners `owners`.
pub fn resolve_items(module: &Vec<String>, owners: &StrMap<Vec<String>>, items: &Vec<Item>) -> (r: (
    Vec<SymbolInfo>,
    Vec<ResolvedPath>,
    Vec<CapabilityBinding>,
))
    requires
        owners.wf(),
    ensures
        symbols_v(r.0@) == resolution(env_of(module@, owners@), items@).symbols,
        paths_v(r.1@) == resolution(env_of(module@, owners@), items@).paths,
        caps_v(r.2@) == resolution(env_of(module@, owners@), items@).caps,
{
    let mut layers: Vec<Layer> = Vec::new();
    layers.push(Layer { values: Vec::new(), types: Vec::new() });
    let mut w = Walker {
        layers,
        symbols: Vec::new(),
        paths: Vec::new(),
        caps: Vec::new(),
        current: SymbolScope::Module(copy_names(module)),
    };
    let ghost env = env_of(module@, owners@);
    proof {
        assert(w.state().layers =~= seq![empty_layer()]) by {
            assert(layer_v(w.layers@[0]).values =~= Seq::<(Seq<char>, SymbolV)>::empty());
            assert(layer_v(w.layers@[0]).types =~= Seq::<(Seq<char>, SymbolV)>::empty());
        }
        assert(w.state().symbols =~= Seq::<SymbolV>::empty());
        assert(w.state().paths =~= Seq::<PathV>::empty());
        assert(w.state().caps =~= Seq::<CapV>::empty());
        assert(w.state() == initial_state(env));
    }
    let mut i: usize = 0;
    while i < items.len()
        invariant
            i <= items.len(),
            env == env_of(module@, owners@),
            w.state() == collect_items(env, initial_state(env), items@.take(i as int)),
        decreases items.len() - i,
    {
        proof {
            assert(items@.take(i + 1).drop_last() =~= items@.take(i as int));
            assert(items@.take(i + 1).last() == items@[i as int]);
        }
        w.collect_item_x(module, owners, &items[i]);
        i = i + 1;
    }
    assert(items@.take(items.len() as int) =~= items@);
    let ghost collected = w.state();
    let mut j: usize = 0;
    while j < items.len()
        invariant
            j <= items.len(),
            owners.wf(),
            env == env_of(module@, owners@),
            w.state() == r_items(env, collected, items@.take(j as int)),
        decreases items.len() - j,
    {
        proof {
            assert(items@.take(j + 1).drop_last() =~= items@.take(j as int));
            assert(items@.take(j + 1).last() == items@[j as int]);
        }
        match &items[j] {
            Item::TypeAlias(ta) => w.r_type_alias_x(module, owners, ta),
            Item::Function(f) => w.r_function_x(module, owners, f),
            Item::Use(_) => {},
        }
        j = j + 1;
    }
    assert(items@.take(items.len() as int) =~= items@);
    (w.symbols, w.paths, w.caps)
}

/// The imports of a module, each with the name it is known by.
pub fn collect_imports(items: &Vec<Item>) -> (r: Vec<ResolvedImport>)
    ensures
        imports_v(r@) == imports_spec(items@),
{
    let mut r: Vec<ResolvedImport> = Vec::new();
    let mut i: usize = 0;
    while i < items.len()
        invariant
            i <= items.len(),
            imports_v(r@) == imports_spec(items@.take(i as int)),
        decreases items.len() - i,
    {
        proof {
            assert(items@.take(i + 1).drop_last() =~= items@.take(i as int));
            assert(items@.take(i + 1).last() == items@[i as int]);
        }
        match &items[i] {
            Item::Use(u) => {
                let alias = match &u.alias {
                    Some(a) => Some(copy_string(a)),
                    None => if u.path.len() > 0 {
                        Some(copy_string(&u.path[u.path.len() - 1]))
                    } else {
                        None
                    },
                };
                let imp = ResolvedImport { path: copy_names(&u.path), alias };
                let ghost iv = import_v(imp);
                let ghost r0 = r@;
                r.push(imp);
                assert(imports_v(r@) =~= imports_v(r0).push(iv));
            },
            _ => {},
        }
        i = i + 1;
    }
    assert(items@.take(items.len() as int) =~= items@);
    r
}

} // verus!
