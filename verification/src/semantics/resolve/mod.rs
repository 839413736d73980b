//! What name resolution learns about a module.
pub mod data;
pub mod resolver;

pub use data::{
    CapabilityBinding, CapabilityScope, ModuleExports, PathKind, Resolved, ResolvedImport,
    ResolvedPath, SymbolCategory, SymbolInfo, SymbolScope,
};

use vstd::prelude::*;

use crate::runtime::store::{as_map, StrMap};
use crate::syntax::ast::{Item, Module, TypeExpr, TypeVariant};
use crate::text::{copy_string, views};
use crate::semantics::resolve::resolver::{
    caps_v, collect_imports, env_of, imports_spec, imports_v, paths_v, resolution, resolve_items,
    symbols_v, Env,
};

verus! {

/// The sum types among `items`, in order: each alias whose value is a sum,
/// with the names of its variants.
pub open spec fn sums(items: Seq<Item>) -> Seq<(Seq<char>, Seq<Seq<char>>)>
    decreases items.len(),
{
    if items.len() == 0 {
        Seq::empty()
    } else {
        let rest = sums(items.drop_last());
        match items.last() {
            Item::TypeAlias(ta) => match ta.value {
                TypeExpr::Sum(vs) => rest.push((ta.name@, vs@.map_values(|v: TypeVariant| v.name@))),
                _ => rest,
            },
            _ => rest,
        }
    }
}

/// `m` with `adt` appended to the owners of each of `variants`, in order.
pub open spec fn add_owner(m: Map<Seq<char>, Seq<Seq<char>>>, adt: Seq<char>, variants: Seq<Seq<char>>) -> Map<
    Seq<char>,
    Seq<Seq<char>>,
>
    decreases variants.len(),
{
    if variants.len() == 0 {
        m
    } else {
        let m1 = add_owner(m, adt, variants.drop_last());
        let v = variants.last();
        m1.insert(
            v,
            (if m1.contains_key(v) {
                m1[v]
            } else {
                Seq::empty()
            }).push(adt),
        )
    }
}

/// For each variant name, the sum types that declare it, in order.
pub open spec fn owners(s: Seq<(Seq<char>, Seq<Seq<char>>)>) -> Map<Seq<char>, Seq<Seq<char>>>
    decreases s.len(),
{
    if s.len() == 0 {
        Map::empty()
    } else {
        add_owner(owners(s.drop_last()), s.last().0, s.last().1)
    }
}

/// The names a map of string vectors holds, as sequences.
pub open spec fn name_lists(m: Map<Seq<char>, Vec<String>>) -> Map<Seq<char>, Seq<Seq<char>>> {
    m.map_values(|v: Vec<String>| views(v@))
}

fn copy_names(v: &Vec<String>) -> (r: Vec<String>)
    ensures
        views(r@) == views(v@),
{
    let mut r: Vec<String> = Vec::new();
    let mut i: usize = 0;
    while i < v.len()
        invariant
            i <= v.len(),
            views(r@) == views(v@.take(i as int)),
        decreases v.len() - i,
    {
        let ghost r0 = r@;
        let c = copy_string(&v[i]);
        r.push(c);
        assert(views(r@) =~= views(r0).push(c@));
        assert(v@.take(i + 1) =~= v@.take(i as int).push(v@[i as int]));
        assert(views(r@) =~= views(v@.take(i + 1)));
        i = i + 1;
    }
    assert(v@.take(v.len() as int) =~= v@);
    r
}

/// Appends `adt` to the owners of `variant`.
fn push_owner(m: &mut StrMap<Vec<String>>, variant: &String, adt: &String)
    requires
        old(m).wf(),
    ensures
        final(m).wf(),
        name_lists(final(m)@) == name_lists(old(m)@).insert(
            variant@,
            (if name_lists(old(m)@).contains_key(variant@) {
                name_lists(old(m)@)[variant@]
            } else {
                Seq::empty()
            }).push(adt@),
        ),
{
    let mut list = match m.get(variant.as_str()) {
        Some(existing) => copy_names(existing),
        None => Vec::new(),
    };
    let ghost l0 = views(list@);
    assert(l0 == (if name_lists(m@).contains_key(variant@) {
        name_lists(m@)[variant@]
    } else {
        Seq::empty()
    }));
    let a = copy_string(adt);
    list.push(a);
    assert(views(list@) =~= l0.push(adt@));
    let ghost before = m@;
    m.insert(copy_string(variant), list);
    assert(name_lists(m@) =~= name_lists(before).insert(variant@, l0.push(adt@)));
}

/// What the walk of a module reads: its path and the owners of each
/// variant name.
pub open spec fn module_env(m: Module) -> Env {
    Env { module: views(m.name@), owners: owners(sums(m.items@)) }
}

/// Resolves a module. Its sum types are collected with their variant names,
/// and each variant name with the sum types that declare it (a later type of
/// the same name replaces an earlier one). Its imports are listed with the
/// name each is known by. Then its declarations are bound in a module scope
/// and every item is walked (see `resolution`): each binding becomes a
/// symbol, each path is recorded with what it resolves to, and each effect
/// row binds its capabilities to its function or type alias.
pub fn resolve_module(m: &Module) -> (r: Resolved)
    ensures
        views(r.module@) == views(m.name@),
        r.adts.wf(),
        r.variant_to_adt.wf(),
        name_lists(r.adts@) == as_map(sums(m.items@)),
        name_lists(r.variant_to_adt@) == owners(sums(m.items@)),
        imports_v(r.imports@) == imports_spec(m.items@),
        symbols_v(r.symbols@) == resolution(module_env(*m), m.items@).symbols,
        paths_v(r.resolved_paths@) == resolution(module_env(*m), m.items@).paths,
        caps_v(r.capabilities@) == resolution(module_env(*m), m.items@).caps,
{
    let mut adts: StrMap<Vec<String>> = StrMap::new();
    let mut variant_to_adt: StrMap<Vec<String>> = StrMap::new();
    assert(name_lists(adts@) =~= Map::<Seq<char>, Seq<Seq<char>>>::empty());
    assert(name_lists(variant_to_adt@) =~= Map::<Seq<char>, Seq<Seq<char>>>::empty());
    let mut i: usize = 0;
    while i < m.items.len()
        invariant
            i <= m.items.len(),
            adts.wf(),
            variant_to_adt.wf(),
            name_lists(adts@) == as_map(sums(m.items@.take(i as int))),
            name_lists(variant_to_adt@) == owners(sums(m.items@.take(i as int))),
        decreases m.items.len() - i,
    {
        let ghost p = m.items@.take(i + 1);
        assert(p.drop_last() =~= m.items@.take(i as int));
        assert(p.last() == m.items@[i as int]);
        match &m.items[i] {
            Item::TypeAlias(ta) => match &ta.value {
                TypeExpr::Sum(vars) => {
                    let ghost vnames = vars@.map_values(|v: TypeVariant| v.name@);
                    let mut names: Vec<String> = Vec::new();
                    let ghost own0 = name_lists(variant_to_adt@);
                    let mut k: usize = 0;
                    while k < vars.len()
                        invariant
                            k <= vars.len(),
                            variant_to_adt.wf(),
                            vnames == vars@.map_values(|v: TypeVariant| v.name@),
                            views(names@) == vnames.take(k as int),
                            name_lists(variant_to_adt@) == add_owner(own0, ta.name@, vnames.take(k as int)),
                        decreases vars.len() - k,
                    {
                        let ghost n0 = views(names@);
                        names.push(copy_string(&vars[k].name));
                        assert(views(names@) =~= n0.push(vnames[k as int]));
                        assert(vnames.take(k + 1) =~= vnames.take(k as int).push(vnames[k as int]));
                        assert(vnames.take(k + 1).drop_last() =~= vnames.take(k as int));
                        push_owner(&mut variant_to_adt, &vars[k].name, &ta.name);
                        k = k + 1;
                    }
                    assert(vnames.take(vars.len() as int) =~= vnames);
                    let ghost before = adts@;
                    adts.insert(copy_string(&ta.name), names);
                    assert(name_lists(adts@) =~= name_lists(before).insert(ta.name@, vnames));
                    proof {
                        let s0 = sums(m.items@.take(i as int));
                        assert(sums(p) == s0.push((ta.name@, vnames)));
                        assert(s0.push((ta.name@, vnames)).drop_last() =~= s0);
                    }
                },
                _ => {
                    assert(sums(p) == sums(m.items@.take(i as int)));
                },
            },
            _ => {
                assert(sums(p) == sums(m.items@.take(i as int)));
            },
        }
        i = i + 1;
    }
    assert(m.items@.take(m.items.len() as int) =~= m.items@);
    let module = copy_names(&m.name);
    let (symbols, resolved_paths, capabilities) = resolve_items(&module, &variant_to_adt, &m.items);
    assert(env_of(module@, variant_to_adt@) == module_env(*m));
    let imports = collect_imports(&m.items);
    Resolved { module, adts, variant_to_adt, imports, symbols, resolved_paths, capabilities }
}

/// What resolving `m` gives: everything `resolve_module` states.
pub open spec fn resolves(m: Module, r: Resolved) -> bool {
    &&& views(r.module@) == views(m.name@)
    &&& r.adts.wf()
    &&& r.variant_to_adt.wf()
    &&& name_lists(r.adts@) == as_map(sums(m.items@))
    &&& name_lists(r.variant_to_adt@) == owners(sums(m.items@))
    &&& imports_v(r.imports@) == imports_spec(m.items@)
    &&& symbols_v(r.symbols@) == resolution(module_env(m), m.items@).symbols
    &&& paths_v(r.resolved_paths@) == resolution(module_env(m), m.items@).paths
    &&& caps_v(r.capabilities@) == resolution(module_env(m), m.items@).caps
}

/// Resolves each module of a workspace on its own, in order.
pub fn resolve_modules(ms: &Vec<Module>) -> (r: Vec<Resolved>)
    ensures
        r@.len() == ms@.len(),
        forall|i: int| 0 <= i < ms@.len() ==> resolves(#[trigger] ms@[i], r@[i]),
{
    let mut r: Vec<Resolved> = Vec::new();
    let mut i: usize = 0;
    while i < ms.len()
        invariant
            i <= ms.len(),
            r@.len() == i,
            forall|k: int| 0 <= k < i ==> resolves(#[trigger] ms@[k], r@[k]),
        decreases ms.len() - i,
    {
        let x = resolve_module(&ms[i]);
        r.push(x);
        i = i + 1;
    }
    r
}

} // verus!
