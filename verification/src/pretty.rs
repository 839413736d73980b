//! A one-line-per-item rendering of a module: imports, type aliases with
//! their full type expressions, and function signatures with elided bodies.
use vstd::prelude::*;

use crate::syntax::ast::{Function, Item, Module, Param, TypeExpr, TypeVariant};
use crate::text::{join, push_joined, push_str, views};

verus! {

/// The effect row of a signature, `" !{a, b}"`, or nothing when it is empty.
pub open spec fn effects_suffix(effects: Seq<String>) -> Seq<char> {
    if effects.len() == 0 {
        Seq::empty()
    } else {
        " !{"@ + join(views(effects), ", "@) + "}"@
    }
}

/// A type expression as source text.
pub open spec fn pretty_type(t: TypeExpr) -> Seq<char>
    decreases t,
{
    match t {
        TypeExpr::Name(n) => n@,
        TypeExpr::Generic(n, args) => n@ + "["@ + pretty_types(args@) + "]"@,
        TypeExpr::Record(fields) => "{ "@ + pretty_fields(fields@) + " }"@,
        TypeExpr::Sum(vars) => pretty_variants(vars@),
        TypeExpr::List(inner) => "["@ + pretty_type(*inner) + "]"@,
        TypeExpr::Tuple(items) => "("@ + pretty_types(items@) + ")"@,
        TypeExpr::Reference { is_mut, inner } => "&"@ + (if is_mut {
            "mut "@
        } else {
            Seq::empty()
        }) + pretty_type(*inner),
        TypeExpr::Function { params, return_type, effect_row } => "fn("@ + pretty_types(params@)
            + ") -> "@ + pretty_type(*return_type) + effects_suffix(effect_row@),
        TypeExpr::Unit => "()"@,
    }
}

/// Type expressions separated by `", "`.
pub open spec fn pretty_types(ts: Seq<TypeExpr>) -> Seq<char>
    decreases ts,
{
    if ts.len() == 0 {
        Seq::empty()
    } else if ts.len() == 1 {
        pretty_type(ts.last())
    } else {
        pretty_types(ts.drop_last()) + ", "@ + pretty_type(ts.last())
    }
}

/// Record fields `name: type` separated by `", "`.
pub open spec fn pretty_fields(fs: Seq<(String, TypeExpr)>) -> Seq<char>
    decreases fs,
{
    if fs.len() == 0 {
        Seq::empty()
    } else {
        let f = fs.last();
        (if fs.len() == 1 {
            Seq::empty()
        } else {
            pretty_fields(fs.drop_last()) + ", "@
        }) + f.0@ + ": "@ + pretty_type(f.1)
    }
}

/// Sum variants separated by `" | "`, each with its fields in parentheses
/// when it has any.
pub open spec fn pretty_variants(vs: Seq<TypeVariant>) -> Seq<char>
    decreases vs,
{
    if vs.len() == 0 {
        Seq::empty()
    } else {
        let v = vs.last();
        (if vs.len() == 1 {
            Seq::empty()
        } else {
            pretty_variants(vs.drop_last()) + " | "@
        }) + v.name@ + (if v.fields.len() == 0 {
            Seq::empty()
        } else {
            "("@ + pretty_types(v.fields@) + ")"@
        })
    }
}

/// Parameters `name: type` separated by `", "`.
pub open spec fn pretty_params(ps: Seq<Param>) -> Seq<char>
    decreases ps.len(),
{
    if ps.len() == 0 {
        Seq::empty()
    } else {
        (if ps.len() == 1 {
            Seq::empty()
        } else {
            pretty_params(ps.drop_last()) + ", "@
        }) + ps.last().name@ + ": "@ + pretty_type(ps.last().ty)
    }
}

/// `"pub "` for a public item, nothing otherwise.
pub open spec fn visibility(is_public: bool) -> Seq<char> {
    if is_public {
        "pub "@
    } else {
        Seq::empty()
    }
}

/// Type parameters in square brackets, or nothing when there are none.
pub open spec fn type_params(ps: Seq<String>) -> Seq<char> {
    if ps.len() == 0 {
        Seq::empty()
    } else {
        "["@ + join(views(ps), ", "@) + "]"@
    }
}

/// `" -> T"` for a declared result type, nothing otherwise.
pub open spec fn result_suffix(r: Option<TypeExpr>) -> Seq<char> {
    match r {
        Some(t) => " -> "@ + pretty_type(t),
        None => Seq::empty(),
    }
}

/// A function's signature: visibility, name, type parameters, parameters,
/// result type and effect row.
pub open spec fn fn_signature(f: Function) -> Seq<char> {
    visibility(f.is_public) + "fn "@ + f.name@ + type_params(f.generics@) + "("@ + pretty_params(
        f.params@,
    ) + ")"@ + result_suffix(f.return_type) + effects_suffix(f.effect_row@)
}

/// The line that stands for one item.
pub open spec fn item_line(i: Item) -> Seq<char> {
    match i {
        Item::Use(u) => "use "@ + join(views(u.path@), "."@) + (match u.alias {
            Some(a) => " as "@ + a@,
            None => Seq::empty(),
        }) + ";\n"@,
        Item::TypeAlias(ta) => visibility(ta.is_public) + "type "@ + ta.name@ + type_params(
            ta.params@,
        ) + " = "@ + pretty_type(ta.value) + "\n"@,
        Item::Function(f) => fn_signature(f) + " { … }\n"@,
    }
}

/// The lines of the items, in order.
pub open spec fn item_lines(items: Seq<Item>) -> Seq<char>
    decreases items.len(),
{
    if items.len() == 0 {
        Seq::empty()
    } else {
        item_lines(items.drop_last()) + item_line(items.last())
    }
}

/// The whole rendering: a `module` header line, then one line per item.
pub open spec fn module_text(m: Module) -> Seq<char> {
    "module "@ + join(views(m.name@), "."@) + "\n"@ + item_lines(m.items@)
}

fn push_effects(out: &mut String, effects: &Vec<String>)
    ensures
        final(out)@ == old(out)@ + effects_suffix(effects@),
{
    if effects.len() > 0 {
        push_str(out, " !{");
        push_joined(out, effects, ", ");
        push_str(out, "}");
    }
}

fn push_types(out: &mut String, ts: &Vec<TypeExpr>)
    ensures
        final(out)@ == old(out)@ + pretty_types(ts@),
    decreases ts, 0nat,
{
    let ghost start = out@;
    let mut i: usize = 0;
    while i < ts.len()
        invariant
            i <= ts.len(),
            out@ == start + pretty_types(ts@.take(i as int)),
        decreases ts.len() - i,
    {
        proof {
            assert(decreases_to!(ts => ts@));
            assert(decreases_to!(ts@ => ts@[i as int]));
        }
        if i > 0 {
            push_str(out, ", ");
        }
        push_type(out, &ts[i]);
        proof {
            let next = ts@.take(i + 1);
            assert(next.drop_last() =~= ts@.take(i as int));
            assert(next.last() == ts@[i as int]);
        }
        i = i + 1;
    }
    assert(ts@.take(ts.len() as int) =~= ts@);
}

fn push_type(out: &mut String, t: &TypeExpr)
    ensures
        final(out)@ == old(out)@ + pretty_type(*t),
    decreases t, 1nat,
{
    let ghost start = out@;
    match t {
        TypeExpr::Name(n) => push_str(out, n.as_str()),
        TypeExpr::Generic(n, args) => {
            push_str(out, n.as_str());
            push_str(out, "[");
            push_types(out, args);
            push_str(out, "]");
        },
        TypeExpr::Record(fields) => {
            push_str(out, "{ ");
            let ghost open = out@;
            let mut i: usize = 0;
            while i < fields.len()
                invariant
                    i <= fields.len(),
                    *t == TypeExpr::Record(*fields),
                    out@ == open + pretty_fields(fields@.take(i as int)),
                decreases fields.len() - i,
            {
                proof {
                    assert(decreases_to!(*t => (*t)->Record_0));
                    assert(decreases_to!(fields => fields@));
                    assert(decreases_to!(fields@ => fields@[i as int]));
                    assert(decreases_to!(fields@[i as int] => fields@[i as int].1));
                }
                if i > 0 {
                    push_str(out, ", ");
                }
                push_str(out, fields[i].0.as_str());
                push_str(out, ": ");
                push_type(out, &fields[i].1);
                proof {
                    let next = fields@.take(i + 1);
                    assert(next.drop_last() =~= fields@.take(i as int));
                    assert(next.last() == fields@[i as int]);
                }
                i = i + 1;
            }
            assert(fields@.take(fields.len() as int) =~= fields@);
            push_str(out, " }");
        },
        TypeExpr::Sum(vars) => {
            let mut i: usize = 0;
            while i < vars.len()
                invariant
                    i <= vars.len(),
                    *t == TypeExpr::Sum(*vars),
                    out@ == start + pretty_variants(vars@.take(i as int)),
                decreases vars.len() - i,
            {
                proof {
                    assert(decreases_to!(*t => (*t)->Sum_0));
                    assert(decreases_to!(vars => vars@));
                    assert(decreases_to!(vars@ => vars@[i as int]));
                    assert(decreases_to!(vars@[i as int] => vars@[i as int].fields));
                }
                if i > 0 {
                    push_str(out, " | ");
                }
                push_str(out, vars[i].name.as_str());
                if vars[i].fields.len() > 0 {
                    push_str(out, "(");
                    push_types(out, &vars[i].fields);
                    push_str(out, ")");
                }
                proof {
                    let next = vars@.take(i + 1);
                    assert(next.drop_last() =~= vars@.take(i as int));
                    assert(next.last() == vars@[i as int]);
                }
                i = i + 1;
            }
            assert(vars@.take(vars.len() as int) =~= vars@);
        },
        TypeExpr::List(inner) => {
            push_str(out, "[");
            push_type(out, inner);
            push_str(out, "]");
        },
        TypeExpr::Tuple(items) => {
            push_str(out, "(");
            push_types(out, items);
            push_str(out, ")");
        },
        TypeExpr::Reference { is_mut, inner } => {
            push_str(out, "&");
            if *is_mut {
                push_str(out, "mut ");
            }
            push_type(out, inner);
        },
        TypeExpr::Function { params, return_type, effect_row } => {
            push_str(out, "fn(");
            push_types(out, params);
            push_str(out, ") -> ");
            push_type(out, return_type);
            push_effects(out, effect_row);
        },
        TypeExpr::Unit => push_str(out, "()"),
    }
}

fn push_params(out: &mut String, ps: &Vec<Param>)
    ensures
        final(out)@ == old(out)@ + pretty_params(ps@),
{
    let ghost start = out@;
    let mut i: usize = 0;
    while i < ps.len()
        invariant
            i <= ps.len(),
            out@ == start + pretty_params(ps@.take(i as int)),
        decreases ps.len() - i,
    {
        if i > 0 {
            push_str(out, ", ");
        }
        push_str(out, ps[i].name.as_str());
        push_str(out, ": ");
        push_type(out, &ps[i].ty);
        proof {
            let next = ps@.take(i + 1);
            assert(next.drop_last() =~= ps@.take(i as int));
            assert(next.last() == ps@[i as int]);
        }
        i = i + 1;
    }
    assert(ps@.take(ps.len() as int) =~= ps@);
}

fn push_type_params(out: &mut String, ps: &Vec<String>)
    ensures
        final(out)@ == old(out)@ + type_params(ps@),
{
    if ps.len() > 0 {
        push_str(out, "[");
        push_joined(out, ps, ", ");
        push_str(out, "]");
    }
}

fn push_visibility(out: &mut String, is_public: bool)
    ensures
        final(out)@ == old(out)@ + visibility(is_public),
{
    if is_public {
        push_str(out, "pub ");
    }
}

#[verifier::spinoff_prover]
fn push_signature(out: &mut String, f: &Function)
    ensures
        final(out)@ == old(out)@ + fn_signature(*f),
{
    let ghost s0 = out@;
    push_visibility(out, f.is_public);
    push_str(out, "fn ");
    push_str(out, f.name.as_str());
    push_type_params(out, &f.generics);
    let ghost s1 = out@;
    push_str(out, "(");
    push_params(out, &f.params);
    push_str(out, ")");
    let ghost s2 = out@;
    match &f.return_type {
        Some(t) => {
            push_str(out, " -> ");
            push_type(out, t);
        },
        None => {},
    }
    let ghost s3 = out@;
    push_effects(out, &f.effect_row);
    assert(s3 =~= s2 + result_suffix(f.return_type));
    assert(out@ =~= s0 + (visibility(f.is_public) + "fn "@ + f.name@ + type_params(f.generics@))
        + ("("@ + pretty_params(f.params@) + ")"@) + result_suffix(f.return_type) + effects_suffix(
        f.effect_row@,
    ));
}

fn push_item(out: &mut String, item: &Item)
    ensures
        final(out)@ == old(out)@ + item_line(*item),
{
    match item {
        Item::Use(u) => {
            push_str(out, "use ");
            push_joined(out, &u.path, ".");
            match &u.alias {
                Some(a) => {
                    push_str(out, " as ");
                    push_str(out, a.as_str());
                },
                None => {},
            }
            push_str(out, ";\n");
        },
        Item::TypeAlias(ta) => {
            push_visibility(out, ta.is_public);
            push_str(out, "type ");
            push_str(out, ta.name.as_str());
            push_type_params(out, &ta.params);
            push_str(out, " = ");
            push_type(out, &ta.value);
            push_str(out, "\n");
        },
        Item::Function(f) => {
            push_signature(out, f);
            push_str(out, " { … }\n");
        },
    }
}

/// Renders a module: its name after `module`, then each item on a line of
/// its own — imports with their alias, type aliases with their parameters
/// and value, functions as their signature with the body elided.
pub fn module_to_string(m: &Module) -> (s: String)
    ensures
        s@ == module_text(*m),
{
    let mut s = String::new();
    push_str(&mut s, "module ");
    push_joined(&mut s, &m.name, ".");
    push_str(&mut s, "\n");
    let ghost head = s@;
    let mut i: usize = 0;
    while i < m.items.len()
        invariant
            i <= m.items.len(),
            s@ == head + item_lines(m.items@.take(i as int)),
        decreases m.items.len() - i,
    {
        push_item(&mut s, &m.items[i]);
        proof {
            let next = m.items@.take(i + 1);
            assert(next.drop_last() =~= m.items@.take(i as int));
        }
        i = i + 1;
    }
    assert(m.items@.take(m.items.len() as int) =~= m.items@);
    assert(s@ =~= module_text(*m));
    s
}

} // verus!
