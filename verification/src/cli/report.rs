//! What the driver prints about name resolution: a plain-text summary and
//! a JSON document.
use vstd::prelude::*;

use crate::cli::{array_text, json_array, json_object, json_string, json_string_array, object_text, quoted, strs};
use crate::semantics::resolve::{
    CapabilityBinding, CapabilityScope, PathKind, Resolved, ResolvedImport, ResolvedPath, SymbolCategory,
    SymbolInfo, SymbolScope,
};
use crate::text::{bool_text, copy_string, join, push_joined, push_str, text_less, text_lt, views};

verus! {

// ---------------------------------------------------------------------------
// Objects of a few members
// ---------------------------------------------------------------------------

pub fn obj1(k1: &str, v1: String) -> (s: String)
    ensures
        s@ == object_text(seq![(k1@, v1@)]),
{
    let ghost e = seq![(k1@, v1@)];
    let fields = vec![(k1, v1)];
    assert(fields@.map_values(|p: (&str, String)| (p.0@, p.1@)) =~= e);
    json_object(fields)
}

pub fn obj2(k1: &str, v1: String, k2: &str, v2: String) -> (s: String)
    ensures
        s@ == object_text(seq![(k1@, v1@), (k2@, v2@)]),
{
    let ghost e = seq![(k1@, v1@), (k2@, v2@)];
    let fields = vec![(k1, v1), (k2, v2)];
    assert(fields@.map_values(|p: (&str, String)| (p.0@, p.1@)) =~= e);
    json_object(fields)
}

pub fn obj3(k1: &str, v1: String, k2: &str, v2: String, k3: &str, v3: String) -> (s: String)
    ensures
        s@ == object_text(seq![(k1@, v1@), (k2@, v2@), (k3@, v3@)]),
{
    let ghost e = seq![(k1@, v1@), (k2@, v2@), (k3@, v3@)];
    let fields = vec![(k1, v1), (k2, v2), (k3, v3)];
    assert(fields@.map_values(|p: (&str, String)| (p.0@, p.1@)) =~= e);
    json_object(fields)
}

pub fn obj4(k1: &str, v1: String, k2: &str, v2: String, k3: &str, v3: String, k4: &str, v4: String) -> (s: String)
    ensures
        s@ == object_text(seq![(k1@, v1@), (k2@, v2@), (k3@, v3@), (k4@, v4@)]),
{
    let ghost e = seq![(k1@, v1@), (k2@, v2@), (k3@, v3@), (k4@, v4@)];
    let fields = vec![(k1, v1), (k2, v2), (k3, v3), (k4, v4)];
    assert(fields@.map_values(|p: (&str, String)| (p.0@, p.1@)) =~= e);
    json_object(fields)
}

pub fn obj5(
    k1: &str,
    v1: String,
    k2: &str,
    v2: String,
    k3: &str,
    v3: String,
    k4: &str,
    v4: String,
    k5: &str,
    v5: String,
) -> (s: String)
    ensures
        s@ == object_text(seq![(k1@, v1@), (k2@, v2@), (k3@, v3@), (k4@, v4@), (k5@, v5@)]),
{
    let ghost e = seq![(k1@, v1@), (k2@, v2@), (k3@, v3@), (k4@, v4@), (k5@, v5@)];
    let fields = vec![(k1, v1), (k2, v2), (k3, v3), (k4, v4), (k5, v5)];
    assert(fields@.map_values(|p: (&str, String)| (p.0@, p.1@)) =~= e);
    json_object(fields)
}

/// The texts of a vector of strings.
pub open spec fn texts(v: Vec<String>) -> Seq<Seq<char>> {
    views(v@)
}

// ---------------------------------------------------------------------------
// Ordering by key
// ---------------------------------------------------------------------------

/// `x` placed after every entry of `s` whose key does not come after its
/// own, `s` being ordered.
pub open spec fn insert_keyed(s: Seq<(Seq<char>, Seq<char>)>, x: (Seq<char>, Seq<char>)) -> Seq<(Seq<char>, Seq<char>)>
    decreases s.len(),
{
    if s.len() == 0 {
        seq![x]
    } else if text_lt(x.0, s[0].0) {
        seq![x] + s
    } else {
        seq![s[0]] + insert_keyed(s.drop_first(), x)
    }
}

/// The entries ordered by key; entries with equal keys keep their order.
pub open spec fn sort_keyed(s: Seq<(Seq<char>, Seq<char>)>) -> Seq<(Seq<char>, Seq<char>)>
    decreases s.len(),
{
    if s.len() == 0 {
        Seq::empty()
    } else {
        insert_keyed(sort_keyed(s.drop_last()), s.last())
    }
}

pub open spec fn pair_views(v: Seq<(String, String)>) -> Seq<(Seq<char>, Seq<char>)> {
    v.map_values(|p: (String, String)| (p.0@, p.1@))
}

proof fn lemma_insert_at(s: Seq<(Seq<char>, Seq<char>)>, x: (Seq<char>, Seq<char>), j: int)
    requires
        0 <= j <= s.len(),
        forall|k: int| 0 <= k < j ==> !text_lt(x.0, #[trigger] s[k].0),
        j < s.len() ==> text_lt(x.0, s[j].0),
    ensures
        insert_keyed(s, x) == s.take(j) + seq![x] + s.skip(j),
    decreases s.len(),
{
    if s.len() == 0 {
        assert(s.take(j) + seq![x] + s.skip(j) =~= seq![x]);
    } else if j == 0 {
        assert(s.take(0) + seq![x] + s.skip(0) =~= seq![x] + s);
    } else {
        let t = s.drop_first();
        assert forall|k: int| 0 <= k < j - 1 implies !text_lt(x.0, #[trigger] t[k].0) by {
            assert(t[k] == s[k + 1]);
        }
        lemma_insert_at(t, x, j - 1);
        assert(s.take(j) + seq![x] + s.skip(j) =~= seq![s[0]] + (t.take(j - 1) + seq![x] + t.skip(j - 1)));
    }
}

/// The pairs ordered by key, equal keys keeping their order.
pub fn sort_pairs(v: Vec<(String, String)>) -> (r: Vec<(String, String)>)
    ensures
        pair_views(r@) == sort_keyed(pair_views(v@)),
{
    let ghost pv = pair_views(v@);
    let mut r: Vec<(String, String)> = Vec::new();
    let mut i: usize = 0;
    assert(pair_views(r@) =~= sort_keyed(pv.take(0)));
    while i < v.len()
        invariant
            i <= v.len(),
            pv == pair_views(v@),
            pair_views(r@) == sort_keyed(pv.take(i as int)),
        decreases v.len() - i,
    {
        let key = copy_string(&v[i].0);
        let val = copy_string(&v[i].1);
        let ghost x = (key@, val@);
        assert(x == pv[i as int]);
        let ghost rv = pair_views(r@);
        let mut j: usize = 0;
        while j < r.len() && !text_less(key.as_str(), r[j].0.as_str())
            invariant
                j <= r.len(),
                rv == pair_views(r@),
                forall|k: int| 0 <= k < j ==> !text_lt(x.0, #[trigger] rv[k].0),
                x.0 == key@,
            decreases r.len() - j,
        {
            assert(rv[j as int].0 == r@[j as int].0@);
            j = j + 1;
        }
        proof {
            lemma_insert_at(rv, x, j as int);
        }
        r.insert(j, (key, val));
        proof {
            assert(pair_views(r@) =~= rv.take(j as int) + seq![x] + rv.skip(j as int));
            let p = pv.take(i + 1);
            assert(p.drop_last() =~= pv.take(i as int));
        }
        i = i + 1;
    }
    assert(pv.take(v.len() as int) =~= pv);
    r
}

// ---------------------------------------------------------------------------
// JSON
// ---------------------------------------------------------------------------

pub open spec fn path_kind_text(k: PathKind) -> Seq<char> {
    match k {
        PathKind::Type => "Type"@,
        PathKind::Value => "Value"@,
        PathKind::Variant => "Variant"@,
    }
}

pub open spec fn category_json(c: SymbolCategory) -> Seq<char> {
    match c {
        SymbolCategory::Type { is_public, params } => object_text(
            seq![("type"@, quoted("Type"@)), ("is_public"@, bool_text(is_public)), ("params"@, strs(texts(params)))],
        ),
        SymbolCategory::Variant { parent } => object_text(seq![("type"@, quoted("Variant"@)), ("parent"@, quoted(parent@))]),
        SymbolCategory::Function { is_public } => object_text(
            seq![("type"@, quoted("Function"@)), ("is_public"@, bool_text(is_public))],
        ),
        SymbolCategory::TypeParam => object_text(seq![("type"@, quoted("TypeParam"@))]),
        SymbolCategory::ValueParam => object_text(seq![("type"@, quoted("ValueParam"@))]),
        SymbolCategory::LocalBinding => object_text(seq![("type"@, quoted("LocalBinding"@))]),
        SymbolCategory::ImportAlias { target } => object_text(
            seq![("type"@, quoted("ImportAlias"@)), ("target"@, strs(texts(target)))],
        ),
    }
}

pub open spec fn scope_json(s: SymbolScope) -> Seq<char> {
    match s {
        SymbolScope::Module(path) => object_text(seq![("type"@, quoted("Module"@)), ("path"@, strs(texts(path)))]),
        SymbolScope::TypeAlias { module, alias_name } => object_text(
            seq![
                ("type"@, quoted("TypeAlias"@)),
                ("module_path"@, strs(texts(module))),
                ("type_name"@, quoted(alias_name@)),
            ],
        ),
        SymbolScope::Function { module, function } => object_text(
            seq![
                ("type"@, quoted("Function"@)),
                ("module_path"@, strs(texts(module))),
                ("function"@, quoted(function@)),
            ],
        ),
    }
}

pub open spec fn cap_scope_json(s: CapabilityScope) -> Seq<char> {
    match s {
        CapabilityScope::Function { module, function } => object_text(
            seq![
                ("type"@, quoted("Function"@)),
                ("module_path"@, strs(texts(module))),
                ("function"@, quoted(function@)),
            ],
        ),
        CapabilityScope::TypeAlias { module, alias_name } => object_text(
            seq![
                ("type"@, quoted("TypeAlias"@)),
                ("module_path"@, strs(texts(module))),
                ("type_name"@, quoted(alias_name@)),
            ],
        ),
    }
}

pub open spec fn symbol_json(s: SymbolInfo) -> Seq<char> {
    object_text(seq![("name"@, quoted(s.name@)), ("category"@, category_json(s.category)), ("scope"@, scope_json(s.scope))])
}

pub open spec fn import_json(i: ResolvedImport) -> Seq<char> {
    object_text(
        seq![
            ("path"@, strs(texts(i.path))),
            ("alias"@, match i.alias {
                Some(a) => quoted(a@),
                None => "null"@,
            }),
        ],
    )
}

pub open spec fn path_json(p: ResolvedPath) -> Seq<char> {
    object_text(
        seq![
            ("segments"@, strs(texts(p.segments))),
            ("kind"@, quoted(path_kind_text(p.kind))),
            ("resolved"@, match p.resolved {
                Some(s) => symbol_json(s),
                None => "null"@,
            }),
        ],
    )
}

pub open spec fn binding_json(b: CapabilityBinding) -> Seq<char> {
    object_text(seq![("name"@, quoted(b.name@)), ("scope"@, cap_scope_json(b.scope))])
}

/// A map's entries as keys and JSON arrays of their strings, ordered by
/// key.
pub open spec fn list_map_json(es: Seq<(Seq<char>, Vec<String>)>) -> Seq<char> {
    object_text(sort_keyed(es.map_values(|e: (Seq<char>, Vec<String>)| (e.0, strs(texts(e.1))))))
}

/// The JSON document of a resolution.
pub open spec fn resolved_json(r: Resolved) -> Seq<char> {
    object_text(
        seq![
            ("module_path"@, strs(texts(r.module))),
            ("adts"@, list_map_json(r.adts.entries_view())),
            ("variant_to_adt"@, list_map_json(r.variant_to_adt.entries_view())),
            ("imports"@, array_text(r.imports@.map_values(|i: ResolvedImport| import_json(i)))),
            ("symbols"@, array_text(r.symbols@.map_values(|s: SymbolInfo| symbol_json(s)))),
            ("resolved_paths"@, array_text(r.resolved_paths@.map_values(|p: ResolvedPath| path_json(p)))),
            ("capabilities"@, array_text(r.capabilities@.map_values(|b: CapabilityBinding| binding_json(b)))),
            ("diagnostics"@, array_text(Seq::empty())),
        ],
    )
}

fn path_kind_name(k: PathKind) -> (s: &'static str)
    ensures
        s@ == path_kind_text(k),
{
    match k {
        PathKind::Type => "Type",
        PathKind::Value => "Value",
        PathKind::Variant => "Variant",
    }
}

fn category_to_json(c: &SymbolCategory) -> (s: String)
    ensures
        s@ == category_json(*c),
{
    match c {
        SymbolCategory::Type { is_public, params } => obj3(
            "type",
            json_string("Type"),
            "is_public",
            crate::cli::bool_string(*is_public),
            "params",
            json_string_array(params),
        ),
        SymbolCategory::Variant { parent } => obj2("type", json_string("Variant"), "parent", json_string(parent.as_str())),
        SymbolCategory::Function { is_public } => obj2(
            "type",
            json_string("Function"),
            "is_public",
            crate::cli::bool_string(*is_public),
        ),
        SymbolCategory::TypeParam => obj1("type", json_string("TypeParam")),
        SymbolCategory::ValueParam => obj1("type", json_string("ValueParam")),
        SymbolCategory::LocalBinding => obj1("type", json_string("LocalBinding")),
        SymbolCategory::ImportAlias { target } => obj2("type", json_string("ImportAlias"), "target", json_string_array(target)),
    }
}

fn scope_to_json(s: &SymbolScope) -> (r: String)
    ensures
        r@ == scope_json(*s),
{
    match s {
        SymbolScope::Module(path) => obj2("type", json_string("Module"), "path", json_string_array(path)),
        SymbolScope::TypeAlias { module, alias_name } => obj3(
            "type",
            json_string("TypeAlias"),
            "module_path",
            json_string_array(module),
            "type_name",
            json_string(alias_name.as_str()),
        ),
        SymbolScope::Function { module, function } => obj3(
            "type",
            json_string("Function"),
            "module_path",
            json_string_array(module),
            "function",
            json_string(function.as_str()),
        ),
    }
}

fn cap_scope_to_json(s: &CapabilityScope) -> (r: String)
    ensures
        r@ == cap_scope_json(*s),
{
    match s {
        CapabilityScope::Function { module, function } => obj3(
            "type",
            json_string("Function"),
            "module_path",
            json_string_array(module),
            "function",
            json_string(function.as_str()),
        ),
        CapabilityScope::TypeAlias { module, alias_name } => obj3(
            "type",
            json_string("TypeAlias"),
            "module_path",
            json_string_array(module),
            "type_name",
            json_string(alias_name.as_str()),
        ),
    }
}

/// A symbol as JSON: its name, category and scope.
pub fn symbol_to_json(s: &SymbolInfo) -> (r: String)
    ensures
        r@ == symbol_json(*s),
{
    obj3("name", json_string(s.name.as_str()), "category", category_to_json(&s.category), "scope", scope_to_json(&s.scope))
}

fn list_map_to_json(es: &Vec<(String, Vec<String>)>) -> (r: String)
    ensures
        r@ == list_map_json(es@.map_values(|e: (String, Vec<String>)| (e.0@, e.1))),
{
    let ghost ev = es@.map_values(|e: (String, Vec<String>)| (e.0@, e.1));
    let ghost target = ev.map_values(|e: (Seq<char>, Vec<String>)| (e.0, strs(texts(e.1))));
    let mut pairs: Vec<(String, String)> = Vec::new();
    let mut i: usize = 0;
    while i < es.len()
        invariant
            i <= es.len(),
            ev == es@.map_values(|e: (String, Vec<String>)| (e.0@, e.1)),
            target == ev.map_values(|e: (Seq<char>, Vec<String>)| (e.0, strs(texts(e.1)))),
            pair_views(pairs@) == target.take(i as int),
        decreases es.len() - i,
    {
        let ghost p0 = pair_views(pairs@);
        let k = copy_string(&es[i].0);
        let v = json_string_array(&es[i].1);
        let ghost x = (k@, v@);
        pairs.push((k, v));
        assert(x == target[i as int]);
        assert(pair_views(pairs@) =~= p0.push(x));
        assert(target.take(i + 1) =~= target.take(i as int).push(target[i as int]));
        i = i + 1;
    }
    assert(target.take(es.len() as int) =~= target);
    let sorted = sort_pairs(pairs);
    crate::cli::json_object_pairs(sorted)
}

fn imports_to_json(v: &Vec<ResolvedImport>) -> (s: String)
    ensures
        s@ == array_text(v@.map_values(|i: ResolvedImport| import_json(i))),
{
    let mut out: Vec<String> = Vec::new();
    let mut i: usize = 0;
    while i < v.len()
        invariant
            i <= v.len(),
            views(out@) == v@.take(i as int).map_values(|x: ResolvedImport| import_json(x)),
        decreases v.len() - i,
    {
        let im = &v[i];
        let alias = match &im.alias {
            Some(a) => json_string(a.as_str()),
            None => crate::text::to_owned_string("null"),
        };
        let ghost av = alias@;
        assert(av == match im.alias {
            Some(a) => quoted(a@),
            None => "null"@,
        });
        let ps = json_string_array(&im.path);
        assert(ps@ == strs(texts(im.path)));
        let ghost psv = ps@;
        let j = obj2("path", ps, "alias", alias);
        let ghost j0 = views(out@);
        assert(j@ == object_text(seq![("path"@, psv), ("alias"@, av)]));
        assert(seq![("path"@, psv), ("alias"@, av)] =~= seq![("path"@, strs(texts(im.path))), ("alias"@, match im.alias {
                Some(a) => quoted(a@),
                None => "null"@,
            })]);
        assert(j@ == import_json(*im));
        out.push(j);
        proof {
            let f = |x: ResolvedImport| import_json(x);
            assert(views(out@) =~= j0.push(f(v@[i as int])));
            assert(v@.take(i + 1).map_values(f) =~= v@.take(i as int).map_values(f).push(f(v@[i as int])));
        }
        i = i + 1;
    }
    assert(v@.take(v.len() as int) =~= v@);
    assert(v@.map_values(|x: ResolvedImport| import_json(x)) =~= v@.map_values(|i: ResolvedImport| import_json(i)));
    json_array(out)
}

fn symbols_to_json(v: &Vec<SymbolInfo>) -> (s: String)
    ensures
        s@ == array_text(v@.map_values(|s: SymbolInfo| symbol_json(s))),
{
    let mut out: Vec<String> = Vec::new();
    let mut i: usize = 0;
    while i < v.len()
        invariant
            i <= v.len(),
            views(out@) == v@.take(i as int).map_values(|x: SymbolInfo| symbol_json(x)),
        decreases v.len() - i,
    {
        let ghost j0 = views(out@);
        out.push(symbol_to_json(&v[i]));
        proof {
            let f = |x: SymbolInfo| symbol_json(x);
            assert(views(out@) =~= j0.push(f(v@[i as int])));
            assert(v@.take(i + 1).map_values(f) =~= v@.take(i as int).map_values(f).push(f(v@[i as int])));
        }
        i = i + 1;
    }
    assert(v@.take(v.len() as int) =~= v@);
    assert(v@.map_values(|x: SymbolInfo| symbol_json(x)) =~= v@.map_values(|s: SymbolInfo| symbol_json(s)));
    json_array(out)
}

fn paths_to_json(v: &Vec<ResolvedPath>) -> (s: String)
    ensures
        s@ == array_text(v@.map_values(|p: ResolvedPath| path_json(p))),
{
    let mut out: Vec<String> = Vec::new();
    let mut i: usize = 0;
    while i < v.len()
        invariant
            i <= v.len(),
            views(out@) == v@.take(i as int).map_values(|x: ResolvedPath| path_json(x)),
        decreases v.len() - i,
    {
        let p = &v[i];
        let resolved = match &p.resolved {
            Some(s) => symbol_to_json(s),
            None => crate::text::to_owned_string("null"),
        };
        let ghost rv = resolved@;
        assert(rv == match p.resolved {
            Some(s) => symbol_json(s),
            None => "null"@,
        });
        let segs = json_string_array(&p.segments);
        let kind = json_string(path_kind_name(p.kind));
        let ghost sv = segs@;
        let ghost kv = kind@;
        let j = obj3("segments", segs, "kind", kind, "resolved", resolved);
        let ghost j0 = views(out@);
        assert(seq![("segments"@, sv), ("kind"@, kv), ("resolved"@, rv)] =~= seq![
            ("segments"@, strs(texts(p.segments))),
            ("kind"@, quoted(path_kind_text(p.kind))),
            ("resolved"@, match p.resolved {
                Some(s) => symbol_json(s),
                None => "null"@,
            }),
        ]);
        assert(j@ == path_json(*p));
        out.push(j);
        proof {
            let f = |x: ResolvedPath| path_json(x);
            assert(views(out@) =~= j0.push(f(v@[i as int])));
            assert(v@.take(i + 1).map_values(f) =~= v@.take(i as int).map_values(f).push(f(v@[i as int])));
        }
        i = i + 1;
    }
    assert(v@.take(v.len() as int) =~= v@);
    assert(v@.map_values(|x: ResolvedPath| path_json(x)) =~= v@.map_values(|p: ResolvedPath| path_json(p)));
    json_array(out)
}

fn bindings_to_json(v: &Vec<CapabilityBinding>) -> (s: String)
    ensures
        s@ == array_text(v@.map_values(|b: CapabilityBinding| binding_json(b))),
{
    let mut out: Vec<String> = Vec::new();
    let mut i: usize = 0;
    while i < v.len()
        invariant
            i <= v.len(),
            views(out@) == v@.take(i as int).map_values(|x: CapabilityBinding| binding_json(x)),
        decreases v.len() - i,
    {
        let b = &v[i];
        let j = obj2("name", json_string(b.name.as_str()), "scope", cap_scope_to_json(&b.scope));
        let ghost j0 = views(out@);
        assert(j@ == binding_json(v@[i as int]));
        out.push(j);
        proof {
            let f = |x: CapabilityBinding| binding_json(x);
            assert(views(out@) =~= j0.push(f(v@[i as int])));
            assert(v@.take(i + 1).map_values(f) =~= v@.take(i as int).map_values(f).push(f(v@[i as int])));
        }
        i = i + 1;
    }
    assert(v@.take(v.len() as int) =~= v@);
    assert(v@.map_values(|x: CapabilityBinding| binding_json(x)) =~= v@.map_values(|b: CapabilityBinding| binding_json(b)));
    json_array(out)
}

/// The resolution as one JSON object: module path, sum types and variant
/// owners (ordered by name), imports, symbols, resolved paths,
/// capabilities, and an empty list of diagnostics.
pub fn resolved_to_json(r: &Resolved) -> (s: String)
    ensures
        s@ == resolved_json(*r),
{
    let imports = imports_to_json(&r.imports);
    let symbols = symbols_to_json(&r.symbols);
    let paths = paths_to_json(&r.resolved_paths);
    let caps = bindings_to_json(&r.capabilities);
    let adts = list_map_to_json(r.adts.entries());
    let owners = list_map_to_json(r.variant_to_adt.entries());
    let none: Vec<String> = Vec::new();
    assert(views(none@) =~= Seq::<Seq<char>>::empty());
    let fields = vec![
        ("module_path", json_string_array(&r.module)),
        ("adts", adts),
        ("variant_to_adt", owners),
        ("imports", imports),
        ("symbols", symbols),
        ("resolved_paths", paths),
        ("capabilities", caps),
        ("diagnostics", json_array(none)),
    ];
    let ghost fv = fields@.map_values(|p: (&str, String)| (p.0@, p.1@));
    let s = json_object(fields);
    proof {
        let e = seq![
            ("module_path"@, strs(texts(r.module))),
            ("adts"@, list_map_json(r.adts.entries_view())),
            ("variant_to_adt"@, list_map_json(r.variant_to_adt.entries_view())),
            ("imports"@, array_text(r.imports@.map_values(|i: ResolvedImport| import_json(i)))),
            ("symbols"@, array_text(r.symbols@.map_values(|s: SymbolInfo| symbol_json(s)))),
            ("resolved_paths"@, array_text(r.resolved_paths@.map_values(|p: ResolvedPath| path_json(p)))),
            ("capabilities"@, array_text(r.capabilities@.map_values(|b: CapabilityBinding| binding_json(b)))),
            ("diagnostics"@, array_text(Seq::empty())),
        ];
        assert(fv =~= e);
    }
    s
}


// ---------------------------------------------------------------------------
// The plain-text summary
// ---------------------------------------------------------------------------

/// Lines, each followed by a line break.
pub open spec fn cat_lines(ls: Seq<Seq<char>>) -> Seq<char>
    decreases ls.len(),
{
    if ls.len() == 0 {
        Seq::empty()
    } else {
        cat_lines(ls.drop_last()) + ls.last() + "\n"@
    }
}

/// A titled section of lines; nothing when there are no lines.
pub open spec fn section(title: Seq<char>, ls: Seq<Seq<char>>) -> Seq<char> {
    if ls.len() == 0 {
        Seq::empty()
    } else {
        title + "\n"@ + cat_lines(ls)
    }
}

/// A name between double quotes, as names are shown inside a category.
pub open spec fn dq(s: Seq<char>) -> Seq<char> {
    "\""@ + s + "\""@
}

/// A list of names, `["a", "b"]`.
pub open spec fn debug_list(v: Seq<Seq<char>>) -> Seq<char> {
    "["@ + join(v.map_values(|x: Seq<char>| dq(x)), ", "@) + "]"@
}

/// A symbol category as the summary shows it: its variant and fields.
pub open spec fn category_text(c: SymbolCategory) -> Seq<char> {
    match c {
        SymbolCategory::Type { is_public, params } => "Type { is_public: "@ + bool_text(is_public) + ", params: "@
            + debug_list(texts(params)) + " }"@,
        SymbolCategory::Variant { parent } => "Variant { parent: "@ + dq(parent@) + " }"@,
        SymbolCategory::Function { is_public } => "Function { is_public: "@ + bool_text(is_public) + " }"@,
        SymbolCategory::TypeParam => "TypeParam"@,
        SymbolCategory::ValueParam => "ValueParam"@,
        SymbolCategory::LocalBinding => "LocalBinding"@,
        SymbolCategory::ImportAlias { target } => "ImportAlias { target: "@ + debug_list(texts(target)) + " }"@,
    }
}

pub open spec fn import_line(i: ResolvedImport) -> Seq<char> {
    "  use "@ + join(texts(i.path), "::"@) + match i.alias {
        Some(a) => " as "@ + a@,
        None => Seq::empty(),
    }
}

pub open spec fn type_line(e: (Seq<char>, Vec<String>)) -> Seq<char> {
    if e.1@.len() == 0 {
        "  type "@ + e.0
    } else {
        "  type "@ + e.0 + " = "@ + join(texts(e.1), " | "@)
    }
}

pub open spec fn scope_text(s: SymbolScope) -> Seq<char> {
    match s {
        SymbolScope::Module(p) => join(texts(p), "::"@),
        SymbolScope::Function { module, function } => join(texts(module), "::"@) + "::"@ + function@,
        SymbolScope::TypeAlias { module, alias_name } => join(texts(module), "::"@) + "::"@ + alias_name@,
    }
}

/// The functions among the symbols, each with its line: name first.
pub open spec fn fn_entries(ss: Seq<SymbolInfo>) -> Seq<(Seq<char>, Seq<char>)>
    decreases ss.len(),
{
    if ss.len() == 0 {
        Seq::empty()
    } else {
        let rest = fn_entries(ss.drop_last());
        let s = ss.last();
        match s.category {
            SymbolCategory::Function { is_public } => rest.push(
                (
                    s.name@,
                    "  "@ + (if is_public {
                        "pub "@
                    } else {
                        Seq::empty()
                    }) + "fn "@ + s.name@ + " (scope: "@ + scope_text(s.scope) + ")"@,
                ),
            ),
            _ => rest,
        }
    }
}

pub open spec fn cap_line(b: CapabilityBinding) -> Seq<char> {
    "  "@ + match b.scope {
        CapabilityScope::Function { module, function } => "fn "@ + join(texts(module), "::"@) + "::"@ + function@,
        CapabilityScope::TypeAlias { module, alias_name } => "type "@ + join(texts(module), "::"@) + "::"@ + alias_name@,
    } + " requires "@ + b.name@
}

pub open spec fn kind_word(k: PathKind) -> Seq<char> {
    match k {
        PathKind::Type => "type"@,
        PathKind::Value => "value"@,
        PathKind::Variant => "variant"@,
    }
}

pub open spec fn path_line(p: ResolvedPath) -> Seq<char> {
    match p.resolved {
        Some(s) => "  "@ + join(texts(p.segments), "::"@) + " -> "@ + s.name@ + " ("@ + category_text(s.category) + ")"@,
        None => "  "@ + join(texts(p.segments), "::"@) + " -> <unresolved "@ + kind_word(p.kind) + ">"@,
    }
}

/// The summary of a resolution: the module, then its imports, sum types
/// (in the order the map holds them), functions (ordered by name),
/// capabilities and resolved paths, each section only when not empty.
pub open spec fn resolve_summary(r: Resolved) -> Seq<char> {
    "module: "@ + join(texts(r.module), "."@) + "\n"@
        + section("imports:"@, r.imports@.map_values(|i: ResolvedImport| import_line(i)))
        + section("types:"@, r.adts.entries_view().map_values(|e: (Seq<char>, Vec<String>)| type_line(e)))
        + section("functions:"@, sort_keyed(fn_entries(r.symbols@)).map_values(|e: (Seq<char>, Seq<char>)| e.1))
        + section("capabilities:"@, r.capabilities@.map_values(|b: CapabilityBinding| cap_line(b)))
        + section("paths:"@, r.resolved_paths@.map_values(|p: ResolvedPath| path_line(p)))
}

fn push_section(out: &mut String, title: &str, lines: &Vec<String>)
    ensures
        final(out)@ == old(out)@ + section(title@, views(lines@)),
{
    if lines.len() == 0 {
        assert(views(lines@) =~= Seq::<Seq<char>>::empty());
        assert(final(out)@ =~= old(out)@ + section(title@, views(lines@)));
        return;
    }
    push_str(out, title);
    push_str(out, "\n");
    let ghost head = out@;
    let mut i: usize = 0;
    assert(cat_lines(views(lines@).take(0)) =~= Seq::<char>::empty());
    while i < lines.len()
        invariant
            i <= lines.len(),
            out@ == head + cat_lines(views(lines@).take(i as int)),
        decreases lines.len() - i,
    {
        push_str(out, lines[i].as_str());
        push_str(out, "\n");
        proof {
            let t = views(lines@).take(i + 1);
            assert(t.drop_last() =~= views(lines@).take(i as int));
        }
        i = i + 1;
    }
    assert(views(lines@).take(lines.len() as int) =~= views(lines@));
}

fn push_debug_list(out: &mut String, v: &Vec<String>)
    ensures
        final(out)@ == old(out)@ + debug_list(texts(*v)),
{
    let mut qs: Vec<String> = Vec::new();
    let mut i: usize = 0;
    while i < v.len()
        invariant
            i <= v.len(),
            views(qs@) == views(v@).take(i as int).map_values(|x: Seq<char>| dq(x)),
        decreases v.len() - i,
    {
        let mut q = String::new();
        push_str(&mut q, "\"");
        push_str(&mut q, v[i].as_str());
        push_str(&mut q, "\"");
        let ghost q0 = views(qs@);
        let ghost qv = q@;
        qs.push(q);
        proof {
            let f = |x: Seq<char>| dq(x);
            assert(qv =~= dq(v@[i as int]@));
            assert(views(qs@) =~= q0.push(qv));
            assert(views(v@).take(i + 1).map_values(f) =~= views(v@).take(i as int).map_values(f).push(f(v@[i as int]@)));
        }
        i = i + 1;
    }
    assert(views(v@).take(v.len() as int) =~= views(v@));
    push_str(out, "[");
    push_joined(out, &qs, ", ");
    push_str(out, "]");
    assert(final(out)@ =~= old(out)@ + debug_list(texts(*v)));
}

fn push_category(out: &mut String, c: &SymbolCategory)
    ensures
        final(out)@ == old(out)@ + category_text(*c),
{
    match c {
        SymbolCategory::Type { is_public, params } => {
            push_str(out, "Type { is_public: ");
            push_str(out, crate::cli::bool_string(*is_public).as_str());
            push_str(out, ", params: ");
            push_debug_list(out, params);
            push_str(out, " }");
        },
        SymbolCategory::Variant { parent } => {
            push_str(out, "Variant { parent: \"");
            push_str(out, parent.as_str());
            push_str(out, "\" }");
        },
        SymbolCategory::Function { is_public } => {
            push_str(out, "Function { is_public: ");
            push_str(out, crate::cli::bool_string(*is_public).as_str());
            push_str(out, " }");
        },
        SymbolCategory::TypeParam => push_str(out, "TypeParam"),
        SymbolCategory::ValueParam => push_str(out, "ValueParam"),
        SymbolCategory::LocalBinding => push_str(out, "LocalBinding"),
        SymbolCategory::ImportAlias { target } => {
            push_str(out, "ImportAlias { target: ");
            push_debug_list(out, target);
            push_str(out, " }");
        },
    }
    proof {
        reveal_strlit("Variant { parent: \"");
        reveal_strlit("\" }");
        reveal_strlit("Variant { parent: ");
        reveal_strlit(" }");
        reveal_strlit("\"");
    }
    assert(final(out)@ =~= old(out)@ + category_text(*c));
}

fn push_scope(out: &mut String, s: &SymbolScope)
    ensures
        final(out)@ == old(out)@ + scope_text(*s),
{
    match s {
        SymbolScope::Module(p) => push_joined(out, p, "::"),
        SymbolScope::Function { module, function } => {
            push_joined(out, module, "::");
            push_str(out, "::");
            push_str(out, function.as_str());
        },
        SymbolScope::TypeAlias { module, alias_name } => {
            push_joined(out, module, "::");
            push_str(out, "::");
            push_str(out, alias_name.as_str());
        },
    }
    assert(final(out)@ =~= old(out)@ + scope_text(*s));
}

fn import_lines(v: &Vec<ResolvedImport>) -> (ls: Vec<String>)
    ensures
        views(ls@) == v@.map_values(|i: ResolvedImport| import_line(i)),
{
    let mut ls: Vec<String> = Vec::new();
    let mut i: usize = 0;
    while i < v.len()
        invariant
            i <= v.len(),
            views(ls@) == v@.take(i as int).map_values(|x: ResolvedImport| import_line(x)),
        decreases v.len() - i,
    {
        let mut l = String::new();
        push_str(&mut l, "  use ");
        push_joined(&mut l, &v[i].path, "::");
        match &v[i].alias {
            Some(a) => {
                push_str(&mut l, " as ");
                push_str(&mut l, a.as_str());
            },
            None => {},
        }
        let ghost lv = l@;
        let ghost l0 = views(ls@);
        ls.push(l);
        proof {
            let f = |x: ResolvedImport| import_line(x);
            assert(lv =~= f(v@[i as int]));
            assert(views(ls@) =~= l0.push(lv));
            assert(v@.take(i + 1).map_values(f) =~= v@.take(i as int).map_values(f).push(f(v@[i as int])));
        }
        i = i + 1;
    }
    assert(v@.take(v.len() as int) =~= v@);
    assert(v@.map_values(|x: ResolvedImport| import_line(x)) =~= v@.map_values(|i: ResolvedImport| import_line(i)));
    ls
}

fn type_lines(es: &Vec<(String, Vec<String>)>) -> (ls: Vec<String>)
    ensures
        views(ls@) == es@.map_values(|e: (String, Vec<String>)| (e.0@, e.1)).map_values(
            |e: (Seq<char>, Vec<String>)| type_line(e),
        ),
{
    let ghost ev = es@.map_values(|e: (String, Vec<String>)| (e.0@, e.1));
    let mut ls: Vec<String> = Vec::new();
    let mut i: usize = 0;
    while i < es.len()
        invariant
            i <= es.len(),
            ev == es@.map_values(|e: (String, Vec<String>)| (e.0@, e.1)),
            views(ls@) == ev.take(i as int).map_values(|e: (Seq<char>, Vec<String>)| type_line(e)),
        decreases es.len() - i,
    {
        let mut l = String::new();
        push_str(&mut l, "  type ");
        push_str(&mut l, es[i].0.as_str());
        if es[i].1.len() > 0 {
            push_str(&mut l, " = ");
            push_joined(&mut l, &es[i].1, " | ");
        }
        let ghost lv = l@;
        let ghost l0 = views(ls@);
        ls.push(l);
        proof {
            let f = |e: (Seq<char>, Vec<String>)| type_line(e);
            assert(lv =~= f(ev[i as int]));
            assert(views(ls@) =~= l0.push(lv));
            assert(ev.take(i + 1).map_values(f) =~= ev.take(i as int).map_values(f).push(f(ev[i as int])));
        }
        i = i + 1;
    }
    assert(ev.take(es.len() as int) =~= ev);
    ls
}

fn function_lines(ss: &Vec<SymbolInfo>) -> (ls: Vec<String>)
    ensures
        views(ls@) == sort_keyed(fn_entries(ss@)).map_values(|e: (Seq<char>, Seq<char>)| e.1),
{
    let mut entries: Vec<(String, String)> = Vec::new();
    let mut i: usize = 0;
    assert(pair_views(entries@) =~= fn_entries(ss@.take(0)));
    while i < ss.len()
        invariant
            i <= ss.len(),
            pair_views(entries@) == fn_entries(ss@.take(i as int)),
        decreases ss.len() - i,
    {
        let s = &ss[i];
        let ghost t = ss@.take(i + 1);
        assert(t.drop_last() =~= ss@.take(i as int));
        match &s.category {
            SymbolCategory::Function { is_public } => {
                let mut l = String::new();
                push_str(&mut l, "  ");
                if *is_public {
                    push_str(&mut l, "pub ");
                }
                push_str(&mut l, "fn ");
                push_str(&mut l, s.name.as_str());
                push_str(&mut l, " (scope: ");
                push_scope(&mut l, &s.scope);
                push_str(&mut l, ")");
                let ghost e0 = pair_views(entries@);
                let ghost x = (s.name@, l@);
                entries.push((copy_string(&s.name), l));
                proof {
                    assert(pair_views(entries@) =~= e0.push(x));
                    assert(x.1 =~= "  "@ + (if *is_public {
                        "pub "@
                    } else {
                        Seq::empty()
                    }) + "fn "@ + s.name@ + " (scope: "@ + scope_text(s.scope) + ")"@);
                }
            },
            _ => {},
        }
        i = i + 1;
    }
    assert(ss@.take(ss.len() as int) =~= ss@);
    let sorted = sort_pairs(entries);
    let mut ls: Vec<String> = Vec::new();
    let ghost sv = pair_views(sorted@);
    let mut k: usize = 0;
    while k < sorted.len()
        invariant
            k <= sorted.len(),
            sv == pair_views(sorted@),
            views(ls@) == sv.take(k as int).map_values(|e: (Seq<char>, Seq<char>)| e.1),
        decreases sorted.len() - k,
    {
        let ghost l0 = views(ls@);
        ls.push(copy_string(&sorted[k].1));
        proof {
            let f = |e: (Seq<char>, Seq<char>)| e.1;
            assert(views(ls@) =~= l0.push(f(sv[k as int])));
            assert(sv.take(k + 1).map_values(f) =~= sv.take(k as int).map_values(f).push(f(sv[k as int])));
        }
        k = k + 1;
    }
    assert(sv.take(sorted.len() as int) =~= sv);
    ls
}

fn capability_lines(v: &Vec<CapabilityBinding>) -> (ls: Vec<String>)
    ensures
        views(ls@) == v@.map_values(|b: CapabilityBinding| cap_line(b)),
{
    let mut ls: Vec<String> = Vec::new();
    let mut i: usize = 0;
    while i < v.len()
        invariant
            i <= v.len(),
            views(ls@) == v@.take(i as int).map_values(|x: CapabilityBinding| cap_line(x)),
        decreases v.len() - i,
    {
        let b = &v[i];
        let mut l = String::new();
        push_str(&mut l, "  ");
        match &b.scope {
            CapabilityScope::Function { module, function } => {
                push_str(&mut l, "fn ");
                push_joined(&mut l, module, "::");
                push_str(&mut l, "::");
                push_str(&mut l, function.as_str());
            },
            CapabilityScope::TypeAlias { module, alias_name } => {
                push_str(&mut l, "type ");
                push_joined(&mut l, module, "::");
                push_str(&mut l, "::");
                push_str(&mut l, alias_name.as_str());
            },
        }
        push_str(&mut l, " requires ");
        push_str(&mut l, b.name.as_str());
        let ghost lv = l@;
        let ghost l0 = views(ls@);
        ls.push(l);
        proof {
            let f = |x: CapabilityBinding| cap_line(x);
            assert(lv =~= f(v@[i as int]));
            assert(views(ls@) =~= l0.push(lv));
            assert(v@.take(i + 1).map_values(f) =~= v@.take(i as int).map_values(f).push(f(v@[i as int])));
        }
        i = i + 1;
    }
    assert(v@.take(v.len() as int) =~= v@);
    assert(v@.map_values(|x: CapabilityBinding| cap_line(x)) =~= v@.map_values(|b: CapabilityBinding| cap_line(b)));
    ls
}

fn path_lines(v: &Vec<ResolvedPath>) -> (ls: Vec<String>)
    ensures
        views(ls@) == v@.map_values(|p: ResolvedPath| path_line(p)),
{
    let mut ls: Vec<String> = Vec::new();
    let mut i: usize = 0;
    while i < v.len()
        invariant
            i <= v.len(),
            views(ls@) == v@.take(i as int).map_values(|x: ResolvedPath| path_line(x)),
        decreases v.len() - i,
    {
        let p = &v[i];
        let mut l = String::new();
        push_str(&mut l, "  ");
        push_joined(&mut l, &p.segments, "::");
        match &p.resolved {
            Some(s) => {
                push_str(&mut l, " -> ");
                push_str(&mut l, s.name.as_str());
                push_str(&mut l, " (");
                push_category(&mut l, &s.category);
                push_str(&mut l, ")");
            },
            None => {
                push_str(&mut l, " -> <unresolved ");
                match p.kind {
                    PathKind::Type => push_str(&mut l, "type"),
                    PathKind::Value => push_str(&mut l, "value"),
                    PathKind::Variant => push_str(&mut l, "variant"),
                }
                push_str(&mut l, ">");
            },
        }
        let ghost lv = l@;
        let ghost l0 = views(ls@);
        ls.push(l);
        proof {
            let f = |x: ResolvedPath| path_line(x);
            assert(lv =~= f(v@[i as int]));
            assert(views(ls@) =~= l0.push(lv));
            assert(v@.take(i + 1).map_values(f) =~= v@.take(i as int).map_values(f).push(f(v@[i as int])));
        }
        i = i + 1;
    }
    assert(v@.take(v.len() as int) =~= v@);
    assert(v@.map_values(|x: ResolvedPath| path_line(x)) =~= v@.map_values(|p: ResolvedPath| path_line(p)));
    ls
}

/// The plain-text summary of a resolution the driver prints.
pub fn resolve_summary_text(r: &Resolved) -> (s: String)
    ensures
        s@ == resolve_summary(*r),
{
    let mut s = String::new();
    push_str(&mut s, "module: ");
    push_joined(&mut s, &r.module, ".");
    push_str(&mut s, "\n");
    push_section(&mut s, "imports:", &import_lines(&r.imports));
    let es = r.adts.entries();
    let tl = type_lines(es);
    push_section(&mut s, "types:", &tl);
    push_section(&mut s, "functions:", &function_lines(&r.symbols));
    push_section(&mut s, "capabilities:", &capability_lines(&r.capabilities));
    push_section(&mut s, "paths:", &path_lines(&r.resolved_paths));
    assert(s@ =~= resolve_summary(*r));
    s
}

} // verus!
