//! The checks run on a parsed module before lowering: a type checker for
//! function bodies and an exhaustiveness check for matches on sum types.
use vstd::prelude::*;

use crate::syntax::ast::{
    binary_symbol, BinaryOp, Block, Expr, Function, Item, Literal, MatchArm, Module, Path,
    Pattern, Stmt, TypeAlias, TypeExpr, TypeVariant, UnaryOp,
};
use crate::text::{
    copy_string, join, lemma_join_push, nat_digits, push_joined, push_nat, push_str, to_owned_string, views,
};

verus! {

/// A problem the checks found.
#[derive(Debug)]
pub struct Diagnostic {
    pub message: String,
}

/// All problems the checks found, in the order they were found.
#[derive(Debug)]
pub struct CheckResult {
    pub diagnostics: Vec<Diagnostic>,
}

/// A primitive type.
#[derive(Debug, Clone, Copy, PartialEq, Eq, Structural)]
pub enum PrimitiveType {
    Int,
    Float,
    Bool,
    String,
}

/// A type as the checker understands it.
#[derive(Debug)]
pub enum TypeRepr {
    Unit,
    Primitive(PrimitiveType),
    Named(Vec<String>, Vec<TypeRepr>),
    Tuple(Vec<TypeRepr>),
    List(Box<TypeRepr>),
    Record(Vec<(String, TypeRepr)>),
    Function { params: Vec<TypeRepr>, return_type: Box<TypeRepr>, effects: Vec<String> },
    Generic(String),
    Unknown,
}

/// A checker type with its names as character sequences.
pub enum Ty {
    Unit,
    Primitive(PrimitiveType),
    Named(Seq<Seq<char>>, Seq<Ty>),
    Tuple(Seq<Ty>),
    List(Box<Ty>),
    Record(Seq<(Seq<char>, Ty)>),
    Function { params: Seq<Ty>, ret: Box<Ty>, effects: Seq<Seq<char>> },
    Generic(Seq<char>),
    Unknown,
}

pub open spec fn ty_of(t: TypeRepr) -> Ty
    decreases t,
{
    match t {
        TypeRepr::Unit => Ty::Unit,
        TypeRepr::Primitive(p) => Ty::Primitive(p),
        TypeRepr::Named(path, args) => Ty::Named(views(path@), tys_of(args@)),
        TypeRepr::Tuple(items) => Ty::Tuple(tys_of(items@)),
        TypeRepr::List(inner) => Ty::List(Box::new(ty_of(*inner))),
        TypeRepr::Record(fields) => Ty::Record(field_tys_of(fields@)),
        TypeRepr::Function { params, return_type, effects } => Ty::Function {
            params: tys_of(params@),
            ret: Box::new(ty_of(*return_type)),
            effects: views(effects@),
        },
        TypeRepr::Generic(n) => Ty::Generic(n@),
        TypeRepr::Unknown => Ty::Unknown,
    }
}

pub open spec fn tys_of(ts: Seq<TypeRepr>) -> Seq<Ty>
    decreases ts,
{
    if ts.len() == 0 {
        Seq::empty()
    } else {
        tys_of(ts.drop_last()).push(ty_of(ts.last()))
    }
}

pub open spec fn field_tys_of(fs: Seq<(String, TypeRepr)>) -> Seq<(Seq<char>, Ty)>
    decreases fs,
{
    if fs.len() == 0 {
        Seq::empty()
    } else {
        field_tys_of(fs.drop_last()).push((fs.last().0@, ty_of(fs.last().1)))
    }
}

impl View for TypeRepr {
    type V = Ty;

    open spec fn view(&self) -> Ty {
        ty_of(*self)
    }
}


pub proof fn lemma_tys_of(ts: Seq<TypeRepr>)
    ensures
        tys_of(ts).len() == ts.len(),
        forall|i: int| 0 <= i < ts.len() ==> #[trigger] tys_of(ts)[i] == ty_of(ts[i]),
    decreases ts.len(),
{
    if ts.len() > 0 {
        lemma_tys_of(ts.drop_last());
        assert forall|i: int| 0 <= i < ts.len() implies #[trigger] tys_of(ts)[i] == ty_of(ts[i]) by {
            if i < ts.len() - 1 {
                assert(ts.drop_last()[i] == ts[i]);
            }
        }
    }
}

pub proof fn lemma_field_tys_of(fs: Seq<(String, TypeRepr)>)
    ensures
        field_tys_of(fs).len() == fs.len(),
        forall|i: int| 0 <= i < fs.len() ==> #[trigger] field_tys_of(fs)[i] == (fs[i].0@, ty_of(fs[i].1)),
    decreases fs.len(),
{
    if fs.len() > 0 {
        lemma_field_tys_of(fs.drop_last());
        assert forall|i: int| 0 <= i < fs.len() implies #[trigger] field_tys_of(fs)[i] == (fs[i].0@, ty_of(fs[i].1)) by {
            if i < fs.len() - 1 {
                assert(fs.drop_last()[i] == fs[i]);
            }
        }
    }
}

/// A copy of a list of types.
fn copy_reprs(ts: &Vec<TypeRepr>) -> (r: Vec<TypeRepr>)
    ensures
        tys_of(r@) == tys_of(ts@),
    decreases ts, 0nat,
{
    let mut r: Vec<TypeRepr> = Vec::new();
    let mut i: usize = 0;
    while i < ts.len()
        invariant
            i <= ts.len(),
            tys_of(r@) == tys_of(ts@.take(i as int)),
        decreases ts.len() - i,
    {
        proof {
            assert(decreases_to!(ts => ts@));
            assert(decreases_to!(ts@ => ts@[i as int]));
        }
        let c = copy_repr(&ts[i]);
        let ghost r0 = r@;
        r.push(c);
        proof {
            assert(r@.drop_last() =~= r0);
            assert(ts@.take(i + 1).drop_last() =~= ts@.take(i as int));
        }
        i = i + 1;
    }
    assert(ts@.take(ts.len() as int) =~= ts@);
    r
}

fn copy_strings(v: &Vec<String>) -> (r: Vec<String>)
    ensures
        views(r@) == views(v@),
{
    let mut r: Vec<String> = Vec::new();
    let mut i: usize = 0;
    while i < v.len()
        invariant
            i <= v.len(),
            views(r@) == views(v@.take(i as int)),
        decreases v.len() - i,
    {
        let ghost r0 = r@;
        let c = copy_string(&v[i]);
        r.push(c);
        assert(views(r@) =~= views(r0).push(c@));
        assert(v@.take(i + 1) =~= v@.take(i as int).push(v@[i as int]));
        assert(views(r@) =~= views(v@.take(i + 1)));
        i = i + 1;
    }
    assert(v@.take(v.len() as int) =~= v@);
    r
}

/// A copy of a type.
pub fn copy_repr(t: &TypeRepr) -> (r: TypeRepr)
    ensures
        r@ == t@,
    decreases t, 1nat,
{
    match t {
        TypeRepr::Unit => TypeRepr::Unit,
        TypeRepr::Primitive(p) => TypeRepr::Primitive(*p),
        TypeRepr::Named(path, args) => TypeRepr::Named(copy_strings(path), copy_reprs(args)),
        TypeRepr::Tuple(items) => TypeRepr::Tuple(copy_reprs(items)),
        TypeRepr::List(inner) => TypeRepr::List(Box::new(copy_repr(inner))),
        TypeRepr::Record(fields) => {
            let mut r: Vec<(String, TypeRepr)> = Vec::new();
            let mut i: usize = 0;
            while i < fields.len()
                invariant
                    i <= fields.len(),
                    *t == TypeRepr::Record(*fields),
                    field_tys_of(r@) == field_tys_of(fields@.take(i as int)),
                decreases fields.len() - i,
            {
                proof {
                    assert(decreases_to!(*t => (*t)->Record_0));
                    assert(decreases_to!(fields => fields@));
                    assert(decreases_to!(fields@ => fields@[i as int]));
                    assert(decreases_to!(fields@[i as int] => fields@[i as int].1));
                }
                let c = copy_repr(&fields[i].1);
                let ghost r0 = r@;
                r.push((copy_string(&fields[i].0), c));
                proof {
                    assert(r@.drop_last() =~= r0);
                    assert(fields@.take(i + 1).drop_last() =~= fields@.take(i as int));
                }
                i = i + 1;
            }
            assert(fields@.take(fields.len() as int) =~= fields@);
            TypeRepr::Record(r)
        },
        TypeRepr::Function { params, return_type, effects } => TypeRepr::Function {
            params: copy_reprs(params),
            return_type: Box::new(copy_repr(return_type)),
            effects: copy_strings(effects),
        },
        TypeRepr::Generic(n) => TypeRepr::Generic(copy_string(n)),
        TypeRepr::Unknown => TypeRepr::Unknown,
    }
}

// ---------------------------------------------------------------------------
// Describing types
// ---------------------------------------------------------------------------

pub open spec fn prim_name(p: PrimitiveType) -> Seq<char> {
    match p {
        PrimitiveType::Int => "Int"@,
        PrimitiveType::Float => "Float"@,
        PrimitiveType::Bool => "Bool"@,
        PrimitiveType::String => "String"@,
    }
}

/// How a type is written in diagnostics.
pub open spec fn describe(t: Ty) -> Seq<char>
    decreases t,
{
    match t {
        Ty::Unit => "Unit"@,
        Ty::Primitive(p) => prim_name(p),
        Ty::Named(path, args) => join(path, "::"@) + if args.len() > 0 {
            "["@ + join(describe_all(args), ", "@) + "]"@
        } else {
            Seq::empty()
        },
        Ty::Tuple(items) => "("@ + join(describe_all(items), ", "@) + ")"@,
        Ty::List(inner) => "["@ + describe(*inner) + "]"@,
        Ty::Record(fields) => "{"@ + join(describe_fields(fields), ", "@) + "}"@,
        Ty::Function { params, ret, effects } => "fn("@ + join(describe_all(params), ", "@) + ") -> "@
            + describe(*ret) + if effects.len() > 0 {
            " !{"@ + join(effects, ", "@) + "}"@
        } else {
            Seq::empty()
        },
        Ty::Generic(n) => n,
        Ty::Unknown => "<unknown>"@,
    }
}

pub open spec fn describe_all(ts: Seq<Ty>) -> Seq<Seq<char>>
    decreases ts,
{
    if ts.len() == 0 {
        Seq::empty()
    } else {
        describe_all(ts.drop_last()).push(describe(ts.last()))
    }
}

pub open spec fn describe_fields(fs: Seq<(Seq<char>, Ty)>) -> Seq<Seq<char>>
    decreases fs,
{
    if fs.len() == 0 {
        Seq::empty()
    } else {
        describe_fields(fs.drop_last()).push(fs.last().0 + ": "@ + describe(fs.last().1))
    }
}

fn push_describe_all(out: &mut String, ts: &Vec<TypeRepr>)
    ensures
        final(out)@ == old(out)@ + join(describe_all(tys_of(ts@)), ", "@),
    decreases ts, 0nat,
{
    let ghost start = out@;
    let mut i: usize = 0;
    while i < ts.len()
        invariant
            i <= ts.len(),
            out@ == start + join(describe_all(tys_of(ts@.take(i as int))), ", "@),
        decreases ts.len() - i,
    {
        if i > 0 {
            push_str(out, ", ");
        }
        proof {
            assert(decreases_to!(ts => ts@));
            assert(decreases_to!(ts@ => ts@[i as int]));
        }
        push_describe(out, &ts[i]);
        proof {
            let p = ts@.take(i + 1);
            assert(p.drop_last() =~= ts@.take(i as int));
            assert(p.last() == ts@[i as int]);
            let x = tys_of(ts@.take(i as int));
            assert(tys_of(p) == x.push(ts@[i as int]@));
            assert(x.push(ts@[i as int]@).drop_last() =~= x);
            assert(describe_all(x.push(ts@[i as int]@)) == describe_all(x).push(describe(ts@[i as int]@)));
            lemma_join_push(describe_all(x), ", "@, describe(ts@[i as int]@));
        }
        i = i + 1;
    }
    assert(ts@.take(ts.len() as int) =~= ts@);
}

/// Appends how `t` is written in diagnostics.
fn push_describe(out: &mut String, t: &TypeRepr)
    ensures
        final(out)@ == old(out)@ + describe(t@),
    decreases t, 1nat,
{
    match t {
        TypeRepr::Unit => push_str(out, "Unit"),
        TypeRepr::Primitive(p) => match p {
            PrimitiveType::Int => push_str(out, "Int"),
            PrimitiveType::Float => push_str(out, "Float"),
            PrimitiveType::Bool => push_str(out, "Bool"),
            PrimitiveType::String => push_str(out, "String"),
        },
        TypeRepr::Named(path, args) => {
            push_joined(out, path, "::");
            if args.len() > 0 {
                push_str(out, "[");
                push_describe_all(out, args);
                push_str(out, "]");
            }
            proof {
                lemma_tys_of(args@);
            }
        },
        TypeRepr::Tuple(items) => {
            push_str(out, "(");
            push_describe_all(out, items);
            push_str(out, ")");
        },
        TypeRepr::List(inner) => {
            push_str(out, "[");
            push_describe(out, inner);
            push_str(out, "]");
        },
        TypeRepr::Record(fields) => {
            push_str(out, "{");
            let ghost start = out@;
            let mut i: usize = 0;
            while i < fields.len()
                invariant
                    i <= fields.len(),
                    *t == TypeRepr::Record(*fields),
                    out@ == start + join(describe_fields(field_tys_of(fields@.take(i as int))), ", "@),
                decreases fields.len() - i,
            {
                if i > 0 {
                    push_str(out, ", ");
                }
                proof {
                    assert(decreases_to!(*t => (*t)->Record_0));
                    assert(decreases_to!(fields => fields@));
                    assert(decreases_to!(fields@ => fields@[i as int]));
                    assert(decreases_to!(fields@[i as int] => fields@[i as int].1));
                }
                let ghost mid = out@;
                push_str(out, fields[i].0.as_str());
                push_str(out, ": ");
                push_describe(out, &fields[i].1);
                proof {
                    let p = fields@.take(i + 1);
                    assert(p.drop_last() =~= fields@.take(i as int));
                    assert(p.last() == fields@[i as int]);
                    let x = field_tys_of(fields@.take(i as int));
                    let y = (fields@[i as int].0@, fields@[i as int].1@);
                    assert(field_tys_of(p) == x.push(y));
                    assert(x.push(y).drop_last() =~= x);
                    let item = fields@[i as int].0@ + ": "@ + describe(fields@[i as int].1@);
                    assert(describe_fields(x.push(y)) == describe_fields(x).push(item));
                    assert(out@ =~= mid + item);
                    lemma_join_push(describe_fields(x), ", "@, item);
                }
                i = i + 1;
            }
            assert(fields@.take(fields.len() as int) =~= fields@);
            push_str(out, "}");
        },
        TypeRepr::Function { params, return_type, effects } => {
            push_str(out, "fn(");
            push_describe_all(out, params);
            push_str(out, ") -> ");
            push_describe(out, return_type);
            if effects.len() > 0 {
                push_str(out, " !{");
                push_joined(out, effects, ", ");
                push_str(out, "}");
            }
        },
        TypeRepr::Generic(n) => push_str(out, n.as_str()),
        TypeRepr::Unknown => push_str(out, "<unknown>"),
    }
    proof {
        match t {
            TypeRepr::Named(_, args) => lemma_tys_of(args@),
            _ => {},
        }
    }
    assert(final(out)@ =~= old(out)@ + describe(t@));
}

/// How a type is written in diagnostics.
pub fn describe_type(t: &TypeRepr) -> (s: String)
    ensures
        s@ == describe(t@),
{
    let mut s = String::new();
    push_describe(&mut s, t);
    assert(s@ =~= describe(t@));
    s
}


// ---------------------------------------------------------------------------
// Compatibility
// ---------------------------------------------------------------------------

/// Whether a value of type `b` may stand where `a` is expected: an unknown
/// type on either side or an expected generic accepts anything; otherwise
/// the types must have the same shape, names and effects, with compatible
/// components.
pub open spec fn compatible(a: Ty, b: Ty) -> bool
    decreases a,
{
    if b is Unknown || a is Unknown || a is Generic {
        true
    } else {
        match a {
            Ty::Unit => b is Unit,
            Ty::Primitive(x) => b matches Ty::Primitive(y) && x == y,
            Ty::Named(p1, a1) => match b {
                Ty::Named(p2, a2) => p1 == p2 && a1.len() == a2.len() && all_compatible(a1, a2),
                _ => false,
            },
            Ty::Tuple(x) => match b {
                Ty::Tuple(y) => x.len() == y.len() && all_compatible(x, y),
                _ => false,
            },
            Ty::List(x) => match b {
                Ty::List(y) => compatible(*x, *y),
                _ => false,
            },
            Ty::Record(x) => match b {
                Ty::Record(y) => x.len() == y.len() && fields_compatible(x, y),
                _ => false,
            },
            Ty::Function { params: p1, ret: r1, effects: e1 } => match b {
                Ty::Function { params: p2, ret: r2, effects: e2 } => p1.len() == p2.len() && all_compatible(p1, p2)
                    && compatible(*r1, *r2) && e1 == e2,
                _ => false,
            },
            _ => false,
        }
    }
}

/// Pairwise compatibility of two lists of the same length.
pub open spec fn all_compatible(xs: Seq<Ty>, ys: Seq<Ty>) -> bool
    decreases xs,
{
    if xs.len() == 0 {
        true
    } else {
        all_compatible(xs.drop_last(), ys.drop_last()) && compatible(xs.last(), ys[xs.len() - 1])
    }
}

/// Pairwise equal names and compatible types of two field lists of the same
/// length.
pub open spec fn fields_compatible(xs: Seq<(Seq<char>, Ty)>, ys: Seq<(Seq<char>, Ty)>) -> bool
    decreases xs,
{
    if xs.len() == 0 {
        true
    } else {
        fields_compatible(xs.drop_last(), ys.drop_last()) && xs.last().0 == ys[xs.len() - 1].0
            && compatible(xs.last().1, ys[xs.len() - 1].1)
    }
}

fn same_strings(a: &Vec<String>, b: &Vec<String>) -> (r: bool)
    ensures
        r == (views(a@) == views(b@)),
{
    if a.len() != b.len() {
        proof {
            if views(a@) == views(b@) {
                assert(views(a@).len() == views(b@).len());
            }
        }
        return false;
    }
    let mut i: usize = 0;
    while i < a.len()
        invariant
            i <= a.len(),
            a.len() == b.len(),
            forall|k: int| 0 <= k < i ==> a@[k]@ == b@[k]@,
        decreases a.len() - i,
    {
        if !crate::text::str_eq(a[i].as_str(), b[i].as_str()) {
            proof {
                if views(a@) == views(b@) {
                    assert(views(a@)[i as int] == views(b@)[i as int]);
                }
            }
            return false;
        }
        i = i + 1;
    }
    assert(views(a@) =~= views(b@));
    true
}

fn all_types_compatible(xs: &Vec<TypeRepr>, ys: &Vec<TypeRepr>) -> (r: bool)
    requires
        xs.len() == ys.len(),
    ensures
        r == all_compatible(tys_of(xs@), tys_of(ys@)),
    decreases xs, 0nat,
{
    proof {
        lemma_tys_of(xs@);
        lemma_tys_of(ys@);
    }
    let mut i: usize = 0;
    while i < xs.len()
        invariant
            i <= xs.len(),
            xs.len() == ys.len(),
            all_compatible(tys_of(xs@.take(i as int)), tys_of(ys@.take(i as int))),
        decreases xs.len() - i,
    {
        proof {
            assert(decreases_to!(xs => xs@));
            assert(decreases_to!(xs@ => xs@[i as int]));
        }
        let ok = types_compatible(&xs[i], &ys[i]);
        proof {
            let p = xs@.take(i + 1);
            let q = ys@.take(i + 1);
            assert(p.drop_last() =~= xs@.take(i as int));
            assert(q.drop_last() =~= ys@.take(i as int));
            lemma_tys_of(p);
            lemma_tys_of(q);
            lemma_tys_of(xs@.take(i as int));
            lemma_tys_of(ys@.take(i as int));
            assert(tys_of(p).drop_last() =~= tys_of(xs@.take(i as int)));
            assert(tys_of(q).drop_last() =~= tys_of(ys@.take(i as int)));
        }
        if !ok {
            proof {
                lemma_tys_of(xs@);
                lemma_tys_of(ys@);
                if all_compatible(tys_of(xs@), tys_of(ys@)) {
                    lemma_all_compatible_prefix(tys_of(xs@), tys_of(ys@), i + 1);
                    assert(tys_of(xs@).take(i + 1) =~= tys_of(xs@.take(i + 1)));
                    assert(tys_of(ys@).take(i + 1) =~= tys_of(ys@.take(i + 1)));
                }
            }
            return false;
        }
        i = i + 1;
    }
    assert(xs@.take(xs.len() as int) =~= xs@);
    assert(ys@.take(ys.len() as int) =~= ys@);
    true
}

proof fn lemma_all_compatible_prefix(xs: Seq<Ty>, ys: Seq<Ty>, k: int)
    requires
        0 <= k <= xs.len(),
        xs.len() == ys.len(),
        all_compatible(xs, ys),
    ensures
        all_compatible(xs.take(k), ys.take(k)),
    decreases xs.len() - k,
{
    if k < xs.len() {
        lemma_all_compatible_prefix(xs, ys, k + 1);
        assert(xs.take(k + 1).drop_last() =~= xs.take(k));
        assert(ys.take(k + 1).drop_last() =~= ys.take(k));
    } else {
        assert(xs.take(k) =~= xs);
        assert(ys.take(k) =~= ys);
    }
}

proof fn lemma_fields_compatible_prefix(xs: Seq<(Seq<char>, Ty)>, ys: Seq<(Seq<char>, Ty)>, k: int)
    requires
        0 <= k <= xs.len(),
        xs.len() == ys.len(),
        fields_compatible(xs, ys),
    ensures
        fields_compatible(xs.take(k), ys.take(k)),
    decreases xs.len() - k,
{
    if k < xs.len() {
        lemma_fields_compatible_prefix(xs, ys, k + 1);
        assert(xs.take(k + 1).drop_last() =~= xs.take(k));
        assert(ys.take(k + 1).drop_last() =~= ys.take(k));
    } else {
        assert(xs.take(k) =~= xs);
        assert(ys.take(k) =~= ys);
    }
}

/// Whether a value of type `b` may stand where `a` is expected.
pub fn types_compatible(a: &TypeRepr, b: &TypeRepr) -> (r: bool)
    ensures
        r == compatible(a@, b@),
    decreases a, 1nat,
{
    match b {
        TypeRepr::Unknown => {
            return true;
        },
        _ => {},
    }
    match a {
        TypeRepr::Unknown | TypeRepr::Generic(_) => true,
        TypeRepr::Unit => match b {
            TypeRepr::Unit => true,
            _ => false,
        },
        TypeRepr::Primitive(x) => match b {
            TypeRepr::Primitive(y) => *x == *y,
            _ => false,
        },
        TypeRepr::Named(p1, a1) => match b {
            TypeRepr::Named(p2, a2) => {
                proof {
                    lemma_tys_of(a1@);
                    lemma_tys_of(a2@);
                }
                same_strings(p1, p2) && a1.len() == a2.len() && all_types_compatible(a1, a2)
            },
            _ => false,
        },
        TypeRepr::Tuple(x) => match b {
            TypeRepr::Tuple(y) => {
                proof {
                    lemma_tys_of(x@);
                    lemma_tys_of(y@);
                }
                x.len() == y.len() && all_types_compatible(x, y)
            },
            _ => false,
        },
        TypeRepr::List(x) => match b {
            TypeRepr::List(y) => types_compatible(x, y),
            _ => false,
        },
        TypeRepr::Record(x) => match b {
            TypeRepr::Record(y) => {
                proof {
                    lemma_field_tys_of(x@);
                    lemma_field_tys_of(y@);
                }
                if x.len() != y.len() {
                    return false;
                }
                let mut i: usize = 0;
                while i < x.len()
                    invariant
                        i <= x.len(),
                        x.len() == y.len(),
                        *a == TypeRepr::Record(*x),
                        *b == TypeRepr::Record(*y),
                        fields_compatible(field_tys_of(x@.take(i as int)), field_tys_of(y@.take(i as int))),
                    decreases x.len() - i,
                {
                    proof {
                        assert(decreases_to!(*a => (*a)->Record_0));
                        assert(decreases_to!(x => x@));
                        assert(decreases_to!(x@ => x@[i as int]));
                        assert(decreases_to!(x@[i as int] => x@[i as int].1));
                    }
                    let ok = crate::text::str_eq(x[i].0.as_str(), y[i].0.as_str()) && types_compatible(&x[i].1, &y[i].1);
                    proof {
                        let p = x@.take(i + 1);
                        let q = y@.take(i + 1);
                        assert(p.drop_last() =~= x@.take(i as int));
                        assert(q.drop_last() =~= y@.take(i as int));
                        lemma_field_tys_of(p);
                        lemma_field_tys_of(q);
                        lemma_field_tys_of(x@.take(i as int));
                        lemma_field_tys_of(y@.take(i as int));
                        assert(field_tys_of(p).drop_last() =~= field_tys_of(x@.take(i as int)));
                        assert(field_tys_of(q).drop_last() =~= field_tys_of(y@.take(i as int)));
                    }
                    if !ok {
                        proof {
                            lemma_field_tys_of(x@);
                            lemma_field_tys_of(y@);
                            if fields_compatible(field_tys_of(x@), field_tys_of(y@)) {
                                lemma_fields_compatible_prefix(field_tys_of(x@), field_tys_of(y@), i + 1);
                                assert(field_tys_of(x@).take(i + 1) =~= field_tys_of(x@.take(i + 1)));
                                assert(field_tys_of(y@).take(i + 1) =~= field_tys_of(y@.take(i + 1)));
                            }
                        }
                        return false;
                    }
                    i = i + 1;
                }
                assert(x@.take(x.len() as int) =~= x@);
                assert(y@.take(y.len() as int) =~= y@);
                true
            },
            _ => false,
        },
        TypeRepr::Function { params: p1, return_type: r1, effects: e1 } => match b {
            TypeRepr::Function { params: p2, return_type: r2, effects: e2 } => {
                proof {
                    lemma_tys_of(p1@);
                    lemma_tys_of(p2@);
                }
                p1.len() == p2.len() && all_types_compatible(p1, p2) && types_compatible(r1, r2) && same_strings(e1, e2)
            },
            _ => false,
        },
    }
}

// ---------------------------------------------------------------------------
// Type expressions
// ---------------------------------------------------------------------------

/// The primitive a name stands for.
pub open spec fn prim_of(n: Seq<char>) -> Option<PrimitiveType> {
    if n == "Int"@ {
        Some(PrimitiveType::Int)
    } else if n == "F64"@ || n == "Float"@ {
        Some(PrimitiveType::Float)
    } else if n == "Bool"@ {
        Some(PrimitiveType::Bool)
    } else if n == "String"@ {
        Some(PrimitiveType::String)
    } else {
        None
    }
}

/// The primitive a name stands for.
pub fn primitive_from_name(name: &str) -> (p: Option<PrimitiveType>)
    ensures
        p == prim_of(name@),
{
    if crate::text::str_eq(name, "Int") {
        Some(PrimitiveType::Int)
    } else if crate::text::str_eq(name, "F64") || crate::text::str_eq(name, "Float") {
        Some(PrimitiveType::Float)
    } else if crate::text::str_eq(name, "Bool") {
        Some(PrimitiveType::Bool)
    } else if crate::text::str_eq(name, "String") {
        Some(PrimitiveType::String)
    } else {
        None
    }
}

/// The checker type a type expression stands for, where `generics` are the
/// names of type parameters in scope.
pub open spec fn parse_ty(e: TypeExpr, generics: Seq<Seq<char>>) -> Ty
    decreases e,
{
    match e {
        TypeExpr::Name(n) => match prim_of(n@) {
            Some(p) => Ty::Primitive(p),
            None => if generics.contains(n@) {
                Ty::Generic(n@)
            } else {
                Ty::Named(seq![n@], Seq::empty())
            },
        },
        TypeExpr::Generic(n, args) => Ty::Named(seq![n@], parse_tys(args@, generics)),
        TypeExpr::Record(fields) => Ty::Record(parse_fields(fields@, generics)),
        TypeExpr::Sum(_) => Ty::Named(seq!["<sum>"@], Seq::empty()),
        TypeExpr::List(inner) => Ty::List(Box::new(parse_ty(*inner, generics))),
        TypeExpr::Tuple(items) => Ty::Tuple(parse_tys(items@, generics)),
        TypeExpr::Reference { inner, .. } => Ty::Named(seq!["Ref"@], seq![parse_ty(*inner, generics)]),
        TypeExpr::Function { params, return_type, effect_row } => Ty::Function {
            params: parse_tys(params@, generics),
            ret: Box::new(parse_ty(*return_type, generics)),
            effects: views(effect_row@),
        },
        TypeExpr::Unit => Ty::Unit,
    }
}

pub open spec fn parse_tys(es: Seq<TypeExpr>, generics: Seq<Seq<char>>) -> Seq<Ty>
    decreases es,
{
    if es.len() == 0 {
        Seq::empty()
    } else {
        parse_tys(es.drop_last(), generics).push(parse_ty(es.last(), generics))
    }
}

pub open spec fn parse_fields(fs: Seq<(String, TypeExpr)>, generics: Seq<Seq<char>>) -> Seq<(Seq<char>, Ty)>
    decreases fs,
{
    if fs.len() == 0 {
        Seq::empty()
    } else {
        parse_fields(fs.drop_last(), generics).push((fs.last().0@, parse_ty(fs.last().1, generics)))
    }
}

fn contains_str(v: &Vec<String>, t: &str) -> (r: bool)
    ensures
        r == views(v@).contains(t@),
{
    let mut i: usize = 0;
    while i < v.len()
        invariant
            i <= v.len(),
            forall|k: int| 0 <= k < i ==> v@[k]@ != t@,
        decreases v.len() - i,
    {
        if crate::text::str_eq(v[i].as_str(), t) {
            assert(views(v@)[i as int] == t@);
            return true;
        }
        i = i + 1;
    }
    proof {
        if views(v@).contains(t@) {
            let k = choose|k: int| 0 <= k < views(v@).len() && views(v@)[k] == t@;
            assert(v@[k]@ == t@);
        }
    }
    false
}

fn parse_type_exprs(es: &Vec<TypeExpr>, generics: &Vec<String>) -> (r: Vec<TypeRepr>)
    ensures
        tys_of(r@) == parse_tys(es@, views(generics@)),
    decreases es, 0nat,
{
    let mut r: Vec<TypeRepr> = Vec::new();
    let mut i: usize = 0;
    while i < es.len()
        invariant
            i <= es.len(),
            tys_of(r@) == parse_tys(es@.take(i as int), views(generics@)),
        decreases es.len() - i,
    {
        proof {
            assert(decreases_to!(es => es@));
            assert(decreases_to!(es@ => es@[i as int]));
        }
        let t = parse_type_expr(&es[i], generics);
        let ghost r0 = r@;
        r.push(t);
        proof {
            assert(r@.drop_last() =~= r0);
            assert(es@.take(i + 1).drop_last() =~= es@.take(i as int));
        }
        i = i + 1;
    }
    assert(es@.take(es.len() as int) =~= es@);
    r
}

/// The checker type a type expression stands for, where `generics` are the
/// names of type parameters in scope.
pub fn parse_type_expr(e: &TypeExpr, generics: &Vec<String>) -> (t: TypeRepr)
    ensures
        t@ == parse_ty(*e, views(generics@)),
    decreases e, 1nat,
{
    match e {
        TypeExpr::Name(n) => match primitive_from_name(n.as_str()) {
            Some(p) => TypeRepr::Primitive(p),
            None => if contains_str(generics, n.as_str()) {
                TypeRepr::Generic(copy_string(n))
            } else {
                let path = vec![copy_string(n)];
                let t = TypeRepr::Named(path, Vec::new());
                assert(views(path@) =~= seq![n@]);
                assert(tys_of(Seq::<TypeRepr>::empty()) =~= Seq::<Ty>::empty());
                t
            },
        },
        TypeExpr::Generic(n, args) => {
            let path = vec![copy_string(n)];
            assert(views(path@) =~= seq![n@]);
            TypeRepr::Named(path, parse_type_exprs(args, generics))
        },
        TypeExpr::Record(fields) => {
            let mut r: Vec<(String, TypeRepr)> = Vec::new();
            let mut i: usize = 0;
            while i < fields.len()
                invariant
                    i <= fields.len(),
                    *e == TypeExpr::Record(*fields),
                    field_tys_of(r@) == parse_fields(fields@.take(i as int), views(generics@)),
                decreases fields.len() - i,
            {
                proof {
                    assert(decreases_to!(*e => (*e)->Record_0));
                    assert(decreases_to!(fields => fields@));
                    assert(decreases_to!(fields@ => fields@[i as int]));
                    assert(decreases_to!(fields@[i as int] => fields@[i as int].1));
                }
                let t = parse_type_expr(&fields[i].1, generics);
                let ghost r0 = r@;
                r.push((copy_string(&fields[i].0), t));
                proof {
                    assert(r@.drop_last() =~= r0);
                    assert(fields@.take(i + 1).drop_last() =~= fields@.take(i as int));
                }
                i = i + 1;
            }
            assert(fields@.take(fields.len() as int) =~= fields@);
            TypeRepr::Record(r)
        },
        TypeExpr::Sum(_) => {
            let path = vec![to_owned_string("<sum>")];
            assert(views(path@) =~= seq!["<sum>"@]);
            assert(tys_of(Seq::<TypeRepr>::empty()) =~= Seq::<Ty>::empty());
            TypeRepr::Named(path, Vec::new())
        },
        TypeExpr::List(inner) => TypeRepr::List(Box::new(parse_type_expr(inner, generics))),
        TypeExpr::Tuple(items) => TypeRepr::Tuple(parse_type_exprs(items, generics)),
        TypeExpr::Reference { inner, .. } => {
            let path = vec![to_owned_string("Ref")];
            let args = vec![parse_type_expr(inner, generics)];
            assert(views(path@) =~= seq!["Ref"@]);
            assert(tys_of(args@) =~= seq![args@[0]@]) by {
                assert(args@.drop_last() =~= Seq::<TypeRepr>::empty());
                assert(args@.last() == args@[0]);
                assert(tys_of(args@.drop_last()) =~= Seq::<Ty>::empty());
                assert(seq![args@[0]@] =~= Seq::<Ty>::empty().push(args@[0]@));
            }
            TypeRepr::Named(path, args)
        },
        TypeExpr::Function { params, return_type, effect_row } => TypeRepr::Function {
            params: parse_type_exprs(params, generics),
            return_type: Box::new(parse_type_expr(return_type, generics)),
            effects: copy_strings(effect_row),
        },
        TypeExpr::Unit => TypeRepr::Unit,
    }
}


// ---------------------------------------------------------------------------
// Exhaustiveness of matches
// ---------------------------------------------------------------------------

/// The messages of diagnostics.
pub open spec fn messages(ds: Seq<Diagnostic>) -> Seq<Seq<char>> {
    ds.map_values(|d: Diagnostic| d.message@)
}

/// The sum types declared by `items`, with their variant names, in order.
pub open spec fn module_adts(items: Seq<Item>) -> Seq<(Seq<char>, Seq<Seq<char>>)>
    decreases items.len(),
{
    if items.len() == 0 {
        Seq::empty()
    } else {
        let rest = module_adts(items.drop_last());
        match items.last() {
            Item::TypeAlias(ta) => match ta.value {
                TypeExpr::Sum(vars) => rest.push((ta.name@, vars@.map_values(|v: TypeVariant| v.name@))),
                _ => rest,
            },
            _ => rest,
        }
    }
}

/// The variants named by the arms' patterns (the last segment of each
/// variant pattern's path), in order.
pub open spec fn arm_variants(arms: Seq<MatchArm>) -> Seq<Seq<char>>
    decreases arms.len(),
{
    if arms.len() == 0 {
        Seq::empty()
    } else {
        let rest = arm_variants(arms.drop_last());
        match arms.last().pattern {
            Pattern::EnumVariant { path, .. } => if path.segments@.len() > 0 {
                rest.push(path.segments@.last()@)
            } else {
                rest
            },
            _ => rest,
        }
    }
}

/// Some arm matches anything: a wildcard or a binding.
pub open spec fn has_catch_all(arms: Seq<MatchArm>) -> bool {
    exists|i: int| 0 <= i < arms.len() && (#[trigger] arms[i]).pattern matches (Pattern::Wildcard | Pattern::Binding(_))
}

/// The first sum type, from `i` on, that has every variant in `seen`.
pub open spec fn first_covering(adts: Seq<(Seq<char>, Seq<Seq<char>>)>, seen: Seq<Seq<char>>, i: int) -> Option<int>
    decreases adts.len() - i,
{
    if i < 0 || i >= adts.len() {
        None
    } else if forall|k: int| 0 <= k < seen.len() ==> adts[i].1.contains(#[trigger] seen[k]) {
        Some(i)
    } else {
        first_covering(adts, seen, i + 1)
    }
}

/// The variants of `all` not in `seen`, in order.
pub open spec fn missing_variants(all: Seq<Seq<char>>, seen: Seq<Seq<char>>) -> Seq<Seq<char>>
    decreases all.len(),
{
    if all.len() == 0 {
        Seq::empty()
    } else if seen.contains(all.last()) {
        missing_variants(all.drop_last(), seen)
    } else {
        missing_variants(all.drop_last(), seen).push(all.last())
    }
}

/// The diagnostic of a match whose arms name variants but none matches
/// anything: the first sum type having all of them, if it has more.
pub open spec fn match_diag(adts: Seq<(Seq<char>, Seq<Seq<char>>)>, arms: Seq<MatchArm>) -> Seq<Seq<char>> {
    let seen = arm_variants(arms);
    if !has_catch_all(arms) && seen.len() > 0 {
        match first_covering(adts, seen, 0) {
            Some(i) => {
                let missing = missing_variants(adts[i].1, seen);
                if missing.len() > 0 {
                    seq!["non-exhaustive match for "@ + adts[i].0 + ": missing variants "@ + join(missing, ", "@)]
                } else {
                    Seq::empty()
                }
            },
            None => Seq::empty(),
        }
    } else {
        Seq::empty()
    }
}

/// The exhaustiveness diagnostics of an expression, inner ones first.
pub open spec fn visit_expr_spec(adts: Seq<(Seq<char>, Seq<Seq<char>>)>, e: Expr) -> Seq<Seq<char>>
    decreases e,
{
    match e {
        Expr::Match { arms, .. } => visit_arms_spec(adts, arms@) + match_diag(adts, arms@),
        Expr::Block(b) => visit_stmts_spec(adts, b.statements@),
        Expr::Binary { lhs, rhs, .. } => visit_expr_spec(adts, *lhs) + visit_expr_spec(adts, *rhs),
        Expr::Unary { expr, .. } => visit_expr_spec(adts, *expr),
        Expr::Call { callee, args } => visit_expr_spec(adts, *callee) + visit_exprs_spec(adts, args@),
        Expr::Field { expr, .. } => visit_expr_spec(adts, *expr),
        Expr::Index { expr, index } => visit_expr_spec(adts, *expr) + visit_expr_spec(adts, *index),
        Expr::If { condition, then_branch, else_branch } => visit_expr_spec(adts, *condition)
            + visit_expr_spec(adts, *then_branch) + match else_branch {
            Some(x) => visit_expr_spec(adts, *x),
            None => Seq::empty(),
        },
        Expr::For { iterable, body, .. } => visit_expr_spec(adts, *iterable) + visit_expr_spec(adts, *body),
        Expr::While { condition, body } => visit_expr_spec(adts, *condition) + visit_expr_spec(adts, *body),
        Expr::Loop { body } => visit_expr_spec(adts, *body),
        Expr::Assignment { target, value } => visit_expr_spec(adts, *target) + visit_expr_spec(adts, *value),
        Expr::Spawn(x) => visit_expr_spec(adts, *x),
        Expr::Await(x) => visit_expr_spec(adts, *x),
        Expr::Try(x) => visit_expr_spec(adts, *x),
        Expr::Chan { capacity, .. } => match capacity {
            Some(c) => visit_expr_spec(adts, *c),
            None => Seq::empty(),
        },
        Expr::Using { expr, body, .. } => visit_expr_spec(adts, *expr) + visit_using_spec(adts, body.statements@),
        _ => Seq::empty(),
    }
}

/// The diagnostics of expressions one after another.
pub open spec fn visit_exprs_spec(adts: Seq<(Seq<char>, Seq<Seq<char>>)>, es: Seq<Expr>) -> Seq<Seq<char>>
    decreases es,
{
    if es.len() == 0 {
        Seq::empty()
    } else {
        visit_exprs_spec(adts, es.drop_last()) + visit_expr_spec(adts, es.last())
    }
}

/// The diagnostics of the arms' bodies one after another.
pub open spec fn visit_arms_spec(adts: Seq<(Seq<char>, Seq<Seq<char>>)>, arms: Seq<MatchArm>) -> Seq<Seq<char>>
    decreases arms,
{
    if arms.len() == 0 {
        Seq::empty()
    } else {
        visit_arms_spec(adts, arms.drop_last()) + visit_expr_spec(adts, arms.last().body)
    }
}

/// The expression a statement evaluates, if any.
pub open spec fn stmt_expr(s: Stmt) -> Option<Expr> {
    match s {
        Stmt::Expr(e) => Some(e),
        Stmt::Let(l) => Some(l.value),
        Stmt::Return(Some(e)) => Some(e),
        _ => None,
    }
}

/// The diagnostics of a block's statements one after another.
pub open spec fn visit_stmts_spec(adts: Seq<(Seq<char>, Seq<Seq<char>>)>, ss: Seq<Stmt>) -> Seq<Seq<char>>
    decreases ss,
{
    if ss.len() == 0 {
        Seq::empty()
    } else {
        visit_stmts_spec(adts, ss.drop_last()) + match ss.last() {
            Stmt::Expr(e) => visit_expr_spec(adts, e),
            Stmt::Let(l) => visit_expr_spec(adts, l.value),
            Stmt::Return(Some(e)) => visit_expr_spec(adts, e),
            _ => Seq::empty(),
        }
    }
}

/// The diagnostics of the expression statements of a `using` body.
pub open spec fn visit_using_spec(adts: Seq<(Seq<char>, Seq<Seq<char>>)>, ss: Seq<Stmt>) -> Seq<Seq<char>>
    decreases ss,
{
    if ss.len() == 0 {
        Seq::empty()
    } else {
        visit_using_spec(adts, ss.drop_last()) + match ss.last() {
            Stmt::Expr(e) => visit_expr_spec(adts, e),
            _ => Seq::empty(),
        }
    }
}

/// The exhaustiveness diagnostics of the functions of `items`, in order.
pub open spec fn visit_items_spec(adts: Seq<(Seq<char>, Seq<Seq<char>>)>, items: Seq<Item>) -> Seq<Seq<char>>
    decreases items.len(),
{
    if items.len() == 0 {
        Seq::empty()
    } else {
        visit_items_spec(adts, items.drop_last()) + match items.last() {
            Item::Function(f) => visit_stmts_spec(adts, f.body.statements@),
            _ => Seq::empty(),
        }
    }
}

/// The exhaustiveness diagnostics of a module.
pub open spec fn exhaustiveness(m: Module) -> Seq<Seq<char>> {
    visit_items_spec(module_adts(m.items@), m.items@)
}

pub open spec fn adts_view(adts: Seq<(String, Vec<String>)>) -> Seq<(Seq<char>, Seq<Seq<char>>)> {
    adts.map_values(|a: (String, Vec<String>)| (a.0@, views(a.1@)))
}

fn push_diag(diags: &mut Vec<Diagnostic>, message: String)
    ensures
        messages(final(diags)@) == messages(old(diags)@).push(message@),
{
    diags.push(Diagnostic { message });
    assert(messages(diags@) =~= messages(old(diags)@).push(message@));
}

fn visit_match(arms: &Vec<MatchArm>, adts: &Vec<(String, Vec<String>)>, diags: &mut Vec<Diagnostic>)
    ensures
        messages(final(diags)@) == messages(old(diags)@) + match_diag(adts_view(adts@), arms@),
{
    let ghost av = adts_view(adts@);
    let mut seen: Vec<String> = Vec::new();
    let mut catch_all = false;
    let mut i: usize = 0;
    while i < arms.len()
        invariant
            i <= arms.len(),
            views(seen@) == arm_variants(arms@.take(i as int)),
            catch_all == exists|k: int| 0 <= k < i && (#[trigger] arms@[k]).pattern matches (Pattern::Wildcard | Pattern::Binding(_)),
        decreases arms.len() - i,
    {
        let ghost pre = arms@.take(i as int);
        assert(arms@.take(i + 1).drop_last() =~= pre);
        assert(arms@.take(i + 1).last() == arms@[i as int]);
        match &arms[i].pattern {
            Pattern::EnumVariant { path, .. } => {
                if path.segments.len() > 0 {
                    let last = copy_string(&path.segments[path.segments.len() - 1]);
                    let ghost s0 = views(seen@);
                    seen.push(last);
                    assert(views(seen@) =~= s0.push(last@));
                }
            },
            Pattern::Wildcard | Pattern::Binding(_) => {
                catch_all = true;
            },
            _ => {},
        }
        i = i + 1;
    }
    assert(arms@.take(arms.len() as int) =~= arms@);
    if catch_all || seen.len() == 0 {
        assert(messages(diags@) =~= messages(old(diags)@) + match_diag(av, arms@));
        return;
    }
    let ghost sv = views(seen@);
    proof {
        if has_catch_all(arms@) {
            let k = choose|k: int| 0 <= k < arms@.len() && (#[trigger] arms@[k]).pattern matches (Pattern::Wildcard | Pattern::Binding(_));
            assert(arms@[k].pattern matches (Pattern::Wildcard | Pattern::Binding(_)));
        }
    }
    let mut j: usize = 0;
    assert(first_covering(av, sv, 0) == first_covering(av, sv, 0));
    while j < adts.len()
        invariant
            j <= adts.len(),
            av == adts_view(adts@),
            sv == views(seen@),
            first_covering(av, sv, 0) == first_covering(av, sv, j as int),
            messages(diags@) == messages(old(diags)@),
            !has_catch_all(arms@),
            sv == arm_variants(arms@),
            sv.len() > 0,
        decreases adts.len() - j,
    {
        let all = &adts[j].1;
        assert(av[j as int] == (adts@[j as int].0@, views(all@)));
        let mut covers = true;
        let mut k: usize = 0;
        while k < seen.len() && covers
            invariant
                k <= seen.len(),
                sv == views(seen@),
                covers == forall|x: int| 0 <= x < k ==> views(all@).contains(#[trigger] sv[x]),
            decreases seen.len() - k,
        {
            assert(sv[k as int] == seen@[k as int]@);
            if !contains_str(all, seen[k].as_str()) {
                covers = false;
            }
            k = k + 1;
        }
        if covers {
            assert(first_covering(av, sv, j as int) == Some(j as int));
            let mut missing: Vec<String> = Vec::new();
            let mut m: usize = 0;
            while m < all.len()
                invariant
                    m <= all.len(),
                    sv == views(seen@),
                    views(missing@) == missing_variants(views(all@).take(m as int), sv),
                decreases all.len() - m,
            {
                let ghost p = views(all@).take(m + 1);
                assert(p.drop_last() =~= views(all@).take(m as int));
                assert(p.last() == all@[m as int]@);
                if !contains_str(&seen, all[m].as_str()) {
                    let ghost m0 = views(missing@);
                    missing.push(copy_string(&all[m]));
                    assert(views(missing@) =~= m0.push(all@[m as int]@));
                }
                m = m + 1;
            }
            assert(views(all@).take(all.len() as int) =~= views(all@));
            if missing.len() > 0 {
                let mut msg = String::new();
                push_str(&mut msg, "non-exhaustive match for ");
                push_str(&mut msg, adts[j].0.as_str());
                push_str(&mut msg, ": missing variants ");
                push_joined(&mut msg, &missing, ", ");
                push_diag(diags, msg);
            }
            assert(messages(diags@) =~= messages(old(diags)@) + match_diag(av, arms@));
            return;
        }
        j = j + 1;
    }
    assert(messages(diags@) =~= messages(old(diags)@) + match_diag(av, arms@));
}

fn visit_exprs(es: &Vec<Expr>, adts: &Vec<(String, Vec<String>)>, diags: &mut Vec<Diagnostic>)
    ensures
        messages(final(diags)@) == messages(old(diags)@) + visit_exprs_spec(adts_view(adts@), es@),
    decreases es, 0nat,
{
    let mut i: usize = 0;
    while i < es.len()
        invariant
            i <= es.len(),
            messages(diags@) == messages(old(diags)@) + visit_exprs_spec(adts_view(adts@), es@.take(i as int)),
        decreases es.len() - i,
    {
        proof {
            assert(decreases_to!(es => es@));
            assert(decreases_to!(es@ => es@[i as int]));
        }
        visit_expr(&es[i], adts, diags);
        proof {
            let p = es@.take(i + 1);
            assert(p.drop_last() =~= es@.take(i as int));
            assert(p.last() == es@[i as int]);
        }
        i = i + 1;
    }
    assert(es@.take(es.len() as int) =~= es@);
}

fn visit_arms(arms: &Vec<MatchArm>, adts: &Vec<(String, Vec<String>)>, diags: &mut Vec<Diagnostic>)
    ensures
        messages(final(diags)@) == messages(old(diags)@) + visit_arms_spec(adts_view(adts@), arms@),
    decreases arms, 0nat,
{
    let mut i: usize = 0;
    while i < arms.len()
        invariant
            i <= arms.len(),
            messages(diags@) == messages(old(diags)@) + visit_arms_spec(adts_view(adts@), arms@.take(i as int)),
        decreases arms.len() - i,
    {
        proof {
            assert(decreases_to!(arms => arms@));
            assert(decreases_to!(arms@ => arms@[i as int]));
            assert(decreases_to!(arms@[i as int] => arms@[i as int].body));
        }
        visit_expr(&arms[i].body, adts, diags);
        proof {
            let p = arms@.take(i + 1);
            assert(p.drop_last() =~= arms@.take(i as int));
            assert(p.last() == arms@[i as int]);
        }
        i = i + 1;
    }
    assert(arms@.take(arms.len() as int) =~= arms@);
}

fn visit_stmts(ss: &Vec<Stmt>, adts: &Vec<(String, Vec<String>)>, diags: &mut Vec<Diagnostic>, only_exprs: bool)
    ensures
        messages(final(diags)@) == messages(old(diags)@) + if only_exprs {
            visit_using_spec(adts_view(adts@), ss@)
        } else {
            visit_stmts_spec(adts_view(adts@), ss@)
        },
    decreases ss, 0nat,
{
    let mut i: usize = 0;
    while i < ss.len()
        invariant
            i <= ss.len(),
            messages(diags@) == messages(old(diags)@) + if only_exprs {
                visit_using_spec(adts_view(adts@), ss@.take(i as int))
            } else {
                visit_stmts_spec(adts_view(adts@), ss@.take(i as int))
            },
        decreases ss.len() - i,
    {
        proof {
            assert(decreases_to!(ss => ss@));
            assert(decreases_to!(ss@ => ss@[i as int]));
        }
        match &ss[i] {
            Stmt::Expr(e) => {
                proof {
                    assert(decreases_to!(ss@[i as int] => (ss@[i as int])->Expr_0));
                }
                visit_expr(e, adts, diags);
            },
            Stmt::Let(l) => {
                if !only_exprs {
                    proof {
                        assert(decreases_to!(ss@[i as int] => (ss@[i as int])->Let_0));
                        assert(decreases_to!((ss@[i as int])->Let_0 => (ss@[i as int])->Let_0.value));
                    }
                    visit_expr(&l.value, adts, diags);
                }
            },
            Stmt::Return(Some(e)) => {
                if !only_exprs {
                    proof {
                        assert(decreases_to!(ss@[i as int] => (ss@[i as int])->Return_0));
                        assert(decreases_to!((ss@[i as int])->Return_0 => (ss@[i as int])->Return_0->Some_0));
                    }
                    visit_expr(e, adts, diags);
                }
            },
            _ => {},
        }
        proof {
            let p = ss@.take(i + 1);
            assert(p.drop_last() =~= ss@.take(i as int));
            assert(p.last() == ss@[i as int]);
        }
        i = i + 1;
    }
    assert(ss@.take(ss.len() as int) =~= ss@);
}

/// Appends the exhaustiveness diagnostics of an expression.
fn visit_expr(e: &Expr, adts: &Vec<(String, Vec<String>)>, diags: &mut Vec<Diagnostic>)
    ensures
        messages(final(diags)@) == messages(old(diags)@) + visit_expr_spec(adts_view(adts@), *e),
    decreases e, 1nat,
{
    let ghost av = adts_view(adts@);
    match e {
        Expr::Match { arms, .. } => {
            visit_arms(arms, adts, diags);
            visit_match(arms, adts, diags);
        },
        Expr::Block(b) => visit_stmts(&b.statements, adts, diags, false),
        Expr::Binary { lhs, rhs, .. } => {
            visit_expr(lhs, adts, diags);
            visit_expr(rhs, adts, diags);
        },
        Expr::Unary { expr, .. } => visit_expr(expr, adts, diags),
        Expr::Call { callee, args } => {
            visit_expr(callee, adts, diags);
            visit_exprs(args, adts, diags);
        },
        Expr::Field { expr, .. } => visit_expr(expr, adts, diags),
        Expr::Index { expr, index } => {
            visit_expr(expr, adts, diags);
            visit_expr(index, adts, diags);
        },
        Expr::If { condition, then_branch, else_branch } => {
            visit_expr(condition, adts, diags);
            visit_expr(then_branch, adts, diags);
            match else_branch {
                Some(x) => visit_expr(x, adts, diags),
                None => {},
            }
        },
        Expr::For { iterable, body, .. } => {
            visit_expr(iterable, adts, diags);
            visit_expr(body, adts, diags);
        },
        Expr::While { condition, body } => {
            visit_expr(condition, adts, diags);
            visit_expr(body, adts, diags);
        },
        Expr::Loop { body } => visit_expr(body, adts, diags),
        Expr::Assignment { target, value } => {
            visit_expr(target, adts, diags);
            visit_expr(value, adts, diags);
        },
        Expr::Spawn(x) => visit_expr(x, adts, diags),
        Expr::Await(x) => visit_expr(x, adts, diags),
        Expr::Try(x) => visit_expr(x, adts, diags),
        Expr::Chan { capacity, .. } => match capacity {
            Some(c) => visit_expr(c, adts, diags),
            None => {},
        },
        Expr::Using { expr, body, .. } => {
            visit_expr(expr, adts, diags);
            visit_stmts(&body.statements, adts, diags, true);
        },
        _ => {},
    }
    assert(messages(diags@) =~= messages(old(diags)@) + visit_expr_spec(av, *e));
}

fn collect_adts(module: &Module) -> (adts: Vec<(String, Vec<String>)>)
    ensures
        adts_view(adts@) == module_adts(module.items@),
{
    let mut adts: Vec<(String, Vec<String>)> = Vec::new();
    let mut i: usize = 0;
    while i < module.items.len()
        invariant
            i <= module.items.len(),
            adts_view(adts@) == module_adts(module.items@.take(i as int)),
        decreases module.items.len() - i,
    {
        let ghost p = module.items@.take(i + 1);
        assert(p.drop_last() =~= module.items@.take(i as int));
        assert(p.last() == module.items@[i as int]);
        match &module.items[i] {
            Item::TypeAlias(ta) => match &ta.value {
                TypeExpr::Sum(vars) => {
                    let mut names: Vec<String> = Vec::new();
                    let mut k: usize = 0;
                    while k < vars.len()
                        invariant
                            k <= vars.len(),
                            views(names@) == vars@.take(k as int).map_values(|v: TypeVariant| v.name@),
                        decreases vars.len() - k,
                    {
                        let ghost n0 = views(names@);
                        names.push(copy_string(&vars[k].name));
                        assert(views(names@) =~= n0.push(vars@[k as int].name@));
                        assert(vars@.take(k + 1).map_values(|v: TypeVariant| v.name@) =~= vars@.take(k as int).map_values(|v: TypeVariant| v.name@).push(vars@[k as int].name@));
                        k = k + 1;
                    }
                    assert(vars@.take(vars.len() as int) =~= vars@);
                    let ghost a0 = adts_view(adts@);
                    adts.push((copy_string(&ta.name), names));
                    assert(adts_view(adts@) =~= a0.push((ta.name@, vars@.map_values(|v: TypeVariant| v.name@))));
                },
                _ => {},
            },
            _ => {},
        }
        i = i + 1;
    }
    assert(module.items@.take(module.items.len() as int) =~= module.items@);
    adts
}

/// The exhaustiveness diagnostics of a module: for each match in a function
/// body whose arms name variants and none matches anything, the variants of
/// the first sum type having all those it names that no arm names.
pub fn check_exhaustiveness(module: &Module) -> (diags: Vec<Diagnostic>)
    ensures
        messages(diags@) == exhaustiveness(*module),
{
    let adts = collect_adts(module);
    let mut diags: Vec<Diagnostic> = Vec::new();
    let mut i: usize = 0;
    assert(messages(diags@) =~= Seq::<Seq<char>>::empty());
    while i < module.items.len()
        invariant
            i <= module.items.len(),
            adts_view(adts@) == module_adts(module.items@),
            messages(diags@) == visit_items_spec(adts_view(adts@), module.items@.take(i as int)),
        decreases module.items.len() - i,
    {
        let ghost p = module.items@.take(i + 1);
        assert(p.drop_last() =~= module.items@.take(i as int));
        assert(p.last() == module.items@[i as int]);
        match &module.items[i] {
            Item::Function(f) => visit_stmts(&f.body.statements, &adts, &mut diags, false),
            _ => {},
        }
        i = i + 1;
    }
    assert(module.items@.take(module.items.len() as int) =~= module.items@);
    diags
}


// ---------------------------------------------------------------------------
// The type checker: its model
// ---------------------------------------------------------------------------

/// A function's signature: its parameters, its declared return type, its
/// type as a value, its effects.
#[derive(Debug)]
pub struct FunctionSig {
    pub params: Vec<(String, TypeRepr)>,
    pub return_type: Option<TypeRepr>,
    pub function_type: TypeRepr,
    pub effects: Vec<String>,
}

/// A variant constructor: its field types and the sum type it builds.
#[derive(Debug)]
pub struct VariantInfo {
    pub fields: Vec<TypeRepr>,
    pub ty: TypeRepr,
}

pub struct SigView {
    pub params: Seq<(Seq<char>, Ty)>,
    pub ret: Option<Ty>,
    pub fn_type: Ty,
    pub effects: Seq<Seq<char>>,
}

pub struct VariantView {
    pub fields: Seq<Ty>,
    pub ty: Ty,
}

pub open spec fn opt_ty(o: Option<TypeRepr>) -> Option<Ty> {
    match o {
        Some(t) => Some(t@),
        None => None,
    }
}

impl View for FunctionSig {
    type V = SigView;

    open spec fn view(&self) -> SigView {
        SigView {
            params: field_tys_of(self.params@),
            ret: opt_ty(self.return_type),
            fn_type: self.function_type@,
            effects: views(self.effects@),
        }
    }
}

impl View for VariantInfo {
    type V = VariantView;

    open spec fn view(&self) -> VariantView {
        VariantView { fields: tys_of(self.fields@), ty: self.ty@ }
    }
}

/// What checking one function knows: its name, parameters, declared return
/// type and effects, the module path, and the module's signatures and
/// variants (later entries supersede earlier ones with the same key).
pub struct Ctx {
    pub name: Seq<char>,
    pub params: Seq<(Seq<char>, Ty)>,
    pub ret: Option<Ty>,
    pub effects: Seq<Seq<char>>,
    pub module: Seq<Seq<char>>,
    pub functions: Seq<(Seq<char>, SigView)>,
    pub variants: Seq<(Seq<Seq<char>>, VariantView)>,
}

/// The checker's state: the scopes of bindings, innermost last (a later
/// binding in a scope supersedes an earlier one), and the diagnostics so
/// far.
pub struct St {
    pub scopes: Seq<Seq<(Seq<char>, Ty)>>,
    pub diags: Seq<Seq<char>>,
}

/// The value last bound to `k`.
pub open spec fn find_last<K, V>(entries: Seq<(K, V)>, k: K) -> Option<V>
    decreases entries.len(),
{
    if entries.len() == 0 {
        None
    } else if entries.last().0 == k {
        Some(entries.last().1)
    } else {
        find_last(entries.drop_last(), k)
    }
}

/// The type bound to `name` in the innermost scope that binds it.
pub open spec fn lookup_scopes(scopes: Seq<Seq<(Seq<char>, Ty)>>, name: Seq<char>) -> Option<Ty>
    decreases scopes.len(),
{
    if scopes.len() == 0 {
        None
    } else {
        match find_last(scopes.last(), name) {
            Some(t) => Some(t),
            None => lookup_scopes(scopes.drop_last(), name),
        }
    }
}

pub open spec fn bind_st(st: St, name: Seq<char>, t: Ty) -> St {
    if st.scopes.len() > 0 {
        St { scopes: st.scopes.update(st.scopes.len() - 1, st.scopes.last().push((name, t))), ..st }
    } else {
        st
    }
}

pub open spec fn push_scope_st(st: St) -> St {
    St { scopes: st.scopes.push(Seq::empty()), ..st }
}

pub open spec fn pop_scope_st(st: St) -> St {
    if st.scopes.len() > 0 {
        St { scopes: st.scopes.drop_last(), ..st }
    } else {
        st
    }
}

pub open spec fn diag_st(st: St, msg: Seq<char>) -> St {
    St { diags: st.diags.push(msg), ..st }
}

/// A parameter or a binding in scope has the capability's name.
pub open spec fn has_cap(c: Ctx, st: St, name: Seq<char>) -> bool {
    (exists|i: int| 0 <= i < c.params.len() && (#[trigger] c.params[i]).0 == name) || lookup_scopes(st.scopes, name) is Some
}

pub open spec fn unknown_or(o: Option<Ty>) -> Ty {
    match o {
        Some(t) => t,
        None => Ty::Unknown,
    }
}

pub open spec fn q(s: Seq<char>) -> Seq<char> {
    "'"@ + s + "'"@
}

/// The variant a path names: the path itself, the path qualified by the
/// module, or its last segment alone.
pub open spec fn lookup_variant_spec(c: Ctx, path: Seq<Seq<char>>) -> Option<VariantView> {
    match find_last(c.variants, path) {
        Some(v) => Some(v),
        None => match (if path.len() > 1 {
            find_last(c.variants, c.module + path)
        } else {
            None
        }) {
            Some(v) => Some(v),
            None => if path.len() > 0 {
                find_last(c.variants, seq![path.last()])
            } else {
                None
            },
        },
    }
}

/// The type a single-segment path has: a binding in scope, else a function.
pub open spec fn check_path_spec(c: Ctx, st: St, segments: Seq<Seq<char>>) -> Option<Ty> {
    if segments.len() == 1 {
        match lookup_scopes(st.scopes, segments[0]) {
            Some(t) => Some(t),
            None => match find_last(c.functions, segments[0]) {
                Some(sig) => Some(sig.fn_type),
                None => None,
            },
        }
    } else {
        None
    }
}

pub open spec fn bool_ty() -> Ty {
    Ty::Primitive(PrimitiveType::Bool)
}

pub open spec fn check_binary_spec(c: Ctx, st: St, op: BinaryOp, l: Option<Ty>, r: Option<Ty>) -> (Option<Ty>, St) {
    let l = unknown_or(l);
    let r = unknown_or(r);
    match op {
        BinaryOp::Add | BinaryOp::Sub | BinaryOp::Mul | BinaryOp::Div | BinaryOp::Mod => (
            Some(l),
            if !compatible(l, r) {
                diag_st(
                    st,
                    "binary operator "@ + q(binary_symbol(op)) + " in "@ + q(c.name) + " used with "@ + q(describe(l))
                        + " and "@ + q(describe(r)),
                )
            } else {
                st
            },
        ),
        BinaryOp::Eq | BinaryOp::Ne => (Some(bool_ty()), st),
        BinaryOp::Lt | BinaryOp::Le | BinaryOp::Gt | BinaryOp::Ge => (
            Some(bool_ty()),
            if !compatible(l, r) {
                diag_st(
                    st,
                    "comparison operator "@ + q(binary_symbol(op)) + " in "@ + q(c.name) + " used with "@ + q(
                        describe(l),
                    ) + " and "@ + q(describe(r)),
                )
            } else {
                st
            },
        ),
        BinaryOp::And | BinaryOp::Or => {
            let st1 = if !compatible(bool_ty(), l) {
                diag_st(st, "operator "@ + q(binary_symbol(op)) + " in "@ + q(c.name) + " expects Bool but found "@ + q(describe(l)))
            } else {
                st
            };
            let st2 = if !compatible(bool_ty(), r) {
                diag_st(st1, "operator "@ + q(binary_symbol(op)) + " in "@ + q(c.name) + " expects Bool but found "@ + q(describe(r)))
            } else {
                st1
            };
            (Some(bool_ty()), st2)
        },
    }
}

pub open spec fn check_unary_spec(c: Ctx, st: St, op: UnaryOp, t: Option<Ty>) -> (Option<Ty>, St) {
    let t = unknown_or(t);
    match op {
        UnaryOp::Neg => (Some(t), st),
        UnaryOp::Not => (
            Some(bool_ty()),
            if !compatible(bool_ty(), t) {
                diag_st(st, "operator '!' in "@ + q(c.name) + " expects Bool but found "@ + q(describe(t)))
            } else {
                st
            },
        ),
        _ => (Some(Ty::Unknown), st),
    }
}

/// The capabilities a called function uses, each checked against the
/// caller's effect row and the capabilities in scope.
pub open spec fn call_effects_spec(c: Ctx, st: St, effects: Seq<Seq<char>>) -> St
    decreases effects.len(),
{
    if effects.len() == 0 {
        st
    } else {
        let st1 = call_effects_spec(c, st, effects.drop_last());
        let cap = effects.last();
        let st2 = if !c.effects.contains(cap) {
            diag_st(
                st1,
                "call in "@ + q(c.name) + " uses capability "@ + q(cap)
                    + " but the function does not declare it in its effect row"@,
            )
        } else {
            st1
        };
        if !has_cap(c, st2, cap) {
            diag_st(st2, "call in "@ + q(c.name) + " requires capability "@ + q(cap) + " which is not in scope"@)
        } else {
            st2
        }
    }
}

/// A comparison or equality has type `Bool` whatever its operand types; a
/// comparison of compatible operands reports nothing.
pub proof fn lemma_comparison_is_bool(c: Ctx, st: St, op: BinaryOp, l: Option<Ty>, r: Option<Ty>)
    requires
        op is Lt || op is Le || op is Gt || op is Ge || op is Eq || op is Ne,
    ensures
        check_binary_spec(c, st, op, l, r).0 == Some(Ty::Primitive(PrimitiveType::Bool)),
        compatible(unknown_or(l), unknown_or(r)) ==> check_binary_spec(c, st, op, l, r).1 == st,
{
}

/// Checking `a < b` (or `<=`, `>`, `>=`, `==`, `!=`) gives type `Bool`, and
/// when the operands' types are compatible the comparison adds no
/// diagnostic to those of its operands.
pub proof fn lemma_comparison_expr_is_bool(c: Ctx, st: St, lhs: Expr, op: BinaryOp, rhs: Expr)
    requires
        op is Lt || op is Le || op is Gt || op is Ge || op is Eq || op is Ne,
    ensures
        ({
            let e = Expr::Binary { lhs: Box::new(lhs), op, rhs: Box::new(rhs) };
            let (lt, st1) = check_expr_spec(c, st, lhs);
            let (rt, st2) = check_expr_spec(c, st1, rhs);
            &&& check_expr_spec(c, st, e).0 == Some(Ty::Primitive(PrimitiveType::Bool))
            &&& compatible(unknown_or(lt), unknown_or(rt)) ==> check_expr_spec(c, st, e).1 == st2
        }),
{
    let (lt, st1) = check_expr_spec(c, st, lhs);
    let (rt, st2) = check_expr_spec(c, st1, rhs);
    lemma_comparison_is_bool(c, st2, op, lt, rt);
}

/// Checking an expression: its type, if known, and the state after it.
pub open spec fn check_expr_spec(c: Ctx, st: St, e: Expr) -> (Option<Ty>, St)
    decreases e,
{
    match e {
        Expr::Block(b) => check_block_spec(c, st, b),
        Expr::Literal(l) => (
            Some(
                match l {
                    Literal::Int(_) => Ty::Primitive(PrimitiveType::Int),
                    Literal::Float(_) => Ty::Primitive(PrimitiveType::Float),
                    Literal::Bool(_) => Ty::Primitive(PrimitiveType::Bool),
                    Literal::String(_) => Ty::Primitive(PrimitiveType::String),
                    Literal::Unit => Ty::Unit,
                },
            ),
            st,
        ),
        Expr::Path(p) => (check_path_spec(c, st, views(p.segments@)), st),
        Expr::Binary { lhs, op, rhs } => {
            let (l, st1) = check_expr_spec(c, st, *lhs);
            let (r, st2) = check_expr_spec(c, st1, *rhs);
            check_binary_spec(c, st2, op, l, r)
        },
        Expr::Unary { op, expr } => {
            let (t, st1) = check_expr_spec(c, st, *expr);
            check_unary_spec(c, st1, op, t)
        },
        Expr::Call { callee, args } => {
            let (ct, st1) = check_expr_spec(c, st, *callee);
            match ct {
                Some(Ty::Function { params, ret, effects }) => {
                    let st2 = if params.len() != args@.len() {
                        diag_st(
                            st1,
                            "call in "@ + q(c.name) + " expected "@ + nat_digits(params.len()) + " arguments but found "@
                                + nat_digits(args@.len()),
                        )
                    } else {
                        st1
                    };
                    let st3 = check_args_spec(c, st2, params, args@);
                    (Some(*ret), call_effects_spec(c, st3, effects))
                },
                Some(actual) => (
                    Some(Ty::Unknown),
                    diag_st(st1, "attempted to call expression of type "@ + q(describe(actual)) + " in "@ + q(c.name)),
                ),
                None => (Some(Ty::Unknown), st1),
            }
        },
        Expr::Field { expr, .. } => check_expr_spec(c, st, *expr),
        Expr::Index { expr, .. } => check_expr_spec(c, st, *expr),
        Expr::If { condition, then_branch, else_branch } => {
            let (ct, st1) = check_expr_spec(c, st, *condition);
            let st2 = match ct {
                Some(t) => if !compatible(bool_ty(), t) {
                    diag_st(st1, "if condition in "@ + q(c.name) + " is "@ + q(describe(t)) + " but must be Bool"@)
                } else {
                    st1
                },
                None => st1,
            };
            let (tt, st3) = check_expr_spec(c, st2, *then_branch);
            let then_ty = unknown_or(tt);
            match else_branch {
                Some(x) => {
                    let (et, st4) = check_expr_spec(c, st3, *x);
                    let else_ty = unknown_or(et);
                    (
                        Some(then_ty),
                        if !compatible(then_ty, else_ty) {
                            diag_st(
                                st4,
                                "if branches in "@ + q(c.name) + " return "@ + q(describe(then_ty)) + " and "@ + q(
                                    describe(else_ty),
                                ),
                            )
                        } else {
                            st4
                        },
                    )
                },
                None => (Some(then_ty), st3),
            }
        },
        Expr::Match { scrutinee, arms } => {
            let (sc, st1) = check_expr_spec(c, st, *scrutinee);
            check_arms_spec(c, st1, sc, arms@)
        },
        Expr::For { body, .. } => (Some(Ty::Unit), check_expr_spec(c, st, *body).1),
        Expr::While { body, .. } => (Some(Ty::Unit), check_expr_spec(c, st, *body).1),
        Expr::Loop { body } => (Some(Ty::Unit), check_expr_spec(c, st, *body).1),
        Expr::Assignment { target, value } => {
            let (tt, st1) = check_expr_spec(c, st, *target);
            let target_ty = unknown_or(tt);
            let (vt, st2) = check_expr_spec(c, st1, *value);
            (
                Some(target_ty),
                match vt {
                    Some(v) => if !compatible(target_ty, v) {
                        diag_st(st2, "cannot assign "@ + q(describe(v)) + " to "@ + q(describe(target_ty)) + " in "@ + q(c.name))
                    } else {
                        st2
                    },
                    None => st2,
                },
            )
        },
        Expr::Spawn(x) => (Some(Ty::Unknown), check_expr_spec(c, st, *x).1),
        Expr::Await(x) => (Some(Ty::Unknown), check_expr_spec(c, st, *x).1),
        Expr::Try(x) => (Some(Ty::Unknown), check_expr_spec(c, st, *x).1),
        Expr::Chan { ty, capacity } => {
            let st1 = match capacity {
                Some(cap) => check_expr_spec(c, st, *cap).1,
                None => st,
            };
            (Some(Ty::Named(seq!["Chan"@], seq![parse_ty(*ty, Seq::empty())])), st1)
        },
        Expr::Using { binding, expr, body } => {
            let st1 = check_expr_spec(c, st, *expr).1;
            let st2 = push_scope_st(st1);
            let st3 = match binding {
                Some(n) => bind_st(st2, n@, Ty::Unknown),
                None => st2,
            };
            let (bt, st4) = check_block_spec(c, st3, body);
            let body_ty = unknown_or(bt);
            (Some(if body_ty is Unit { Ty::Unknown } else { body_ty }), pop_scope_st(st4))
        },
    }
}

/// Checking the arguments of a call against the parameter types, pairwise
/// as far as both go.
pub open spec fn check_args_spec(c: Ctx, st: St, params: Seq<Ty>, args: Seq<Expr>) -> St
    decreases args,
{
    if args.len() == 0 {
        st
    } else {
        let st1 = check_args_spec(c, st, params, args.drop_last());
        let k = args.len() - 1;
        if k < params.len() {
            let (t, st2) = check_expr_spec(c, st1, args.last());
            match t {
                Some(actual) => if !compatible(params[k], actual) {
                    diag_st(
                        st2,
                        "argument to call in "@ + q(c.name) + " has type "@ + q(describe(actual))
                            + " but parameter expects "@ + q(describe(params[k])),
                    )
                } else {
                    st2
                },
                None => st2,
            }
        } else {
            st1
        }
    }
}

/// Checking the arms of a match on a value of type `sc`: the type of the
/// first arm, and the state after all of them.
pub open spec fn check_arms_spec(c: Ctx, st: St, sc: Option<Ty>, arms: Seq<MatchArm>) -> (Option<Ty>, St)
    decreases arms,
{
    if arms.len() == 0 {
        (None, st)
    } else {
        let (at, st1) = check_arms_spec(c, st, sc, arms.drop_last());
        let arm = arms.last();
        let st2 = bind_pattern_spec(c, push_scope_st(st1), arm.pattern, sc);
        let st3 = match arm.guard {
            Some(g) => {
                let (gt, s) = check_expr_spec(c, st2, g);
                match gt {
                    Some(t) => if !compatible(bool_ty(), t) {
                        diag_st(s, "match guard in "@ + q(c.name) + " has type "@ + q(describe(t)) + " but must be Bool"@)
                    } else {
                        s
                    },
                    None => s,
                }
            },
            None => st2,
        };
        let (bt, st4) = check_expr_spec(c, st3, arm.body);
        let body_ty = unknown_or(bt);
        match at {
            Some(existing) => (
                Some(existing),
                pop_scope_st(
                    if !compatible(existing, body_ty) {
                        diag_st(
                            st4,
                            "match arms in "@ + q(c.name) + " have incompatible types "@ + q(describe(existing)) + " and "@
                                + q(describe(body_ty)),
                        )
                    } else {
                        st4
                    },
                ),
            ),
            None => (Some(body_ty), pop_scope_st(st4)),
        }
    }
}

/// Binding the names a pattern introduces, given the type of the value it
/// matches, if known.
pub open spec fn bind_pattern_spec(c: Ctx, st: St, p: Pattern, t: Option<Ty>) -> St
    decreases p,
{
    match p {
        Pattern::Binding(n) => bind_st(st, n@, unknown_or(t)),
        Pattern::Tuple(pats) => match t {
            Some(Ty::Tuple(items)) => bind_zip_spec(c, st, pats@, items),
            _ => bind_none_spec(c, st, pats@),
        },
        Pattern::Record(fields) => bind_fields_spec(
            c,
            st,
            fields@,
            match t {
                Some(Ty::Record(items)) => items,
                _ => Seq::empty(),
            },
        ),
        Pattern::EnumVariant { path, fields } => match lookup_variant_spec(c, views(path.segments@)) {
            Some(info) => bind_zip_spec(c, st, fields@, info.fields),
            None => diag_st(
                st,
                "unknown variant "@ + q(join(views(path.segments@), "::"@)) + " in pattern within "@ + q(c.name),
            ),
        },
        _ => st,
    }
}

/// Binding patterns against types pairwise, as far as both go.
pub open spec fn bind_zip_spec(c: Ctx, st: St, pats: Seq<Pattern>, tys: Seq<Ty>) -> St
    decreases pats,
{
    if pats.len() == 0 {
        st
    } else {
        let st1 = bind_zip_spec(c, st, pats.drop_last(), tys);
        if pats.len() - 1 < tys.len() {
            bind_pattern_spec(c, st1, pats.last(), Some(tys[pats.len() - 1]))
        } else {
            st1
        }
    }
}

/// Binding patterns of unknown types.
pub open spec fn bind_none_spec(c: Ctx, st: St, pats: Seq<Pattern>) -> St
    decreases pats,
{
    if pats.len() == 0 {
        st
    } else {
        bind_pattern_spec(c, bind_none_spec(c, st, pats.drop_last()), pats.last(), None)
    }
}

/// Binding record field patterns, each against the type of the field of that
/// name, if any.
pub open spec fn bind_fields_spec(c: Ctx, st: St, fields: Seq<(String, Pattern)>, items: Seq<(Seq<char>, Ty)>) -> St
    decreases fields,
{
    if fields.len() == 0 {
        st
    } else {
        bind_pattern_spec(c, bind_fields_spec(c, st, fields.drop_last(), items), fields.last().1, find_last(items, fields.last().0@))
    }
}

/// Checking a block in a new scope: the type of its last statement (`Unit`
/// for a binding, a return or none).
pub open spec fn check_block_spec(c: Ctx, st: St, b: Block) -> (Option<Ty>, St)
    decreases b,
{
    let (last, st1) = check_stmts_spec(c, push_scope_st(st), b.statements@);
    (Some(last), pop_scope_st(st1))
}

pub open spec fn check_stmts_spec(c: Ctx, st: St, ss: Seq<Stmt>) -> (Ty, St)
    decreases ss,
{
    if ss.len() == 0 {
        (Ty::Unit, st)
    } else {
        let st1 = check_stmts_spec(c, st, ss.drop_last()).1;
        match ss.last() {
            Stmt::Let(l) => {
                let (v, s) = check_expr_spec(c, st1, l.value);
                (Ty::Unit, bind_st(s, l.name@, unknown_or(v)))
            },
            Stmt::Expr(e) => {
                let (v, s) = check_expr_spec(c, st1, e);
                (unknown_or(v), s)
            },
            Stmt::Return(Some(e)) => {
                let (a, s) = check_expr_spec(c, st1, e);
                (
                    Ty::Unit,
                    match c.ret {
                        Some(expected) => match a {
                            Some(actual) => if !compatible(expected, actual) {
                                diag_st(
                                    s,
                                    "returning "@ + q(describe(actual)) + " but function "@ + q(c.name) + " expects "@ + q(
                                        describe(expected),
                                    ),
                                )
                            } else {
                                s
                            },
                            None => s,
                        },
                        None => match a {
                            Some(actual) => diag_st(
                                s,
                                "function "@ + q(c.name) + " does not declare a return type but returns "@ + q(
                                    describe(actual),
                                ),
                            ),
                            None => s,
                        },
                    },
                )
            },
            _ => (Ty::Unit, st1),
        }
    }
}


// ---------------------------------------------------------------------------
// The type checker: its state
// ---------------------------------------------------------------------------

struct CheckCtx {
    name: String,
    params: Vec<(String, TypeRepr)>,
    return_type: Option<TypeRepr>,
    effects: Vec<String>,
    module: Vec<String>,
    functions: Vec<(String, FunctionSig)>,
    variants: Vec<(Vec<String>, VariantInfo)>,
}

pub open spec fn fn_entries(fs: Seq<(String, FunctionSig)>) -> Seq<(Seq<char>, SigView)> {
    fs.map_values(|p: (String, FunctionSig)| (p.0@, p.1@))
}

pub open spec fn variant_entries(vs: Seq<(Vec<String>, VariantInfo)>) -> Seq<(Seq<Seq<char>>, VariantView)> {
    vs.map_values(|p: (Vec<String>, VariantInfo)| (views(p.0@), p.1@))
}

impl CheckCtx {
    spec fn ctx(&self) -> Ctx {
        Ctx {
            name: self.name@,
            params: field_tys_of(self.params@),
            ret: opt_ty(self.return_type),
            effects: views(self.effects@),
            module: views(self.module@),
            functions: fn_entries(self.functions@),
            variants: variant_entries(self.variants@),
        }
    }
}

struct CheckState {
    scopes: Vec<Vec<(String, TypeRepr)>>,
    diagnostics: Vec<Diagnostic>,
}

pub open spec fn scope_views(ss: Seq<Vec<(String, TypeRepr)>>) -> Seq<Seq<(Seq<char>, Ty)>> {
    ss.map_values(|s: Vec<(String, TypeRepr)>| field_tys_of(s@))
}

impl CheckState {
    spec fn st(&self) -> St {
        St { scopes: scope_views(self.scopes@), diags: messages(self.diagnostics@) }
    }

    fn diag(&mut self, msg: String)
        ensures
            final(self).st() == diag_st(old(self).st(), msg@),
    {
        push_diag(&mut self.diagnostics, msg);
    }

    fn push_scope(&mut self)
        ensures
            final(self).st() == push_scope_st(old(self).st()),
    {
        self.scopes.push(Vec::new());
        assert(field_tys_of(Seq::<(String, TypeRepr)>::empty()) =~= Seq::<(Seq<char>, Ty)>::empty());
        assert(scope_views(self.scopes@) =~= scope_views(old(self).scopes@).push(Seq::empty()));
    }

    fn pop_scope(&mut self)
        ensures
            final(self).st() == pop_scope_st(old(self).st()),
    {
        if self.scopes.len() > 0 {
            self.scopes.pop();
            assert(scope_views(self.scopes@) =~= scope_views(old(self).scopes@).drop_last());
        }
    }

    fn bind(&mut self, name: &str, t: TypeRepr)
        ensures
            final(self).st() == bind_st(old(self).st(), name@, t@),
    {
        let n = self.scopes.len();
        if n > 0 {
            let ghost tv = t@;
            let mut last = self.scopes.pop().unwrap();
            let ghost l0 = last@;
            last.push((to_owned_string(name), t));
            proof {
                assert(last@.drop_last() =~= l0);
                assert(field_tys_of(last@) == field_tys_of(l0).push((name@, tv)));
            }
            self.scopes.push(last);
            assert(scope_views(self.scopes@) =~= scope_views(old(self).scopes@).update(n - 1, field_tys_of(l0).push((name@, tv))));
        }
    }

    /// The type bound to `name` in the innermost scope binding it.
    fn lookup_value(&self, name: &str) -> (r: Option<TypeRepr>)
        ensures
            opt_ty(r) == lookup_scopes(self.st().scopes, name@),
    {
        let ghost sv = self.st().scopes;
        let mut i: usize = self.scopes.len();
        assert(sv.take(sv.len() as int) =~= sv);
        while i > 0
            invariant
                i <= self.scopes.len(),
                sv == self.st().scopes,
                lookup_scopes(sv, name@) == lookup_scopes(sv.take(i as int), name@),
            decreases i,
        {
            let scope = &self.scopes[i - 1];
            let ghost p = sv.take(i as int);
            assert(p.drop_last() =~= sv.take(i - 1));
            assert(p.last() == field_tys_of(scope@));
            let mut k: usize = scope.len();
            let ghost es = field_tys_of(scope@);
            proof {
                lemma_field_tys_of(scope@);
                assert(es.take(es.len() as int) =~= es);
            }
            while k > 0
                invariant
                    k <= scope.len(),
                    es == field_tys_of(scope@),
                    es.len() == scope@.len(),
                    find_last(es, name@) == find_last(es.take(k as int), name@),
                    0 < i <= self.scopes.len(),
                    sv == self.st().scopes,
                    lookup_scopes(sv, name@) == lookup_scopes(sv.take(i as int), name@),
                    sv.take(i as int).last() == es,
                    sv.take(i as int).drop_last() == sv.take(i - 1),
                decreases k,
            {
                let ghost pe = es.take(k as int);
                assert(pe.drop_last() =~= es.take(k - 1));
                proof {
                    lemma_field_tys_of(scope@);
                }
                assert(pe.last() == (scope@[k - 1].0@, scope@[k - 1].1@));
                if crate::text::str_eq(scope[k - 1].0.as_str(), name) {
                    return Some(copy_repr(&scope[k - 1].1));
                }
                k = k - 1;
            }
            assert(es.take(0) =~= Seq::<(Seq<char>, Ty)>::empty());
            i = i - 1;
        }
        assert(sv.take(0) =~= Seq::<Seq<(Seq<char>, Ty)>>::empty());
        None
    }
}

fn find_function<'a>(c: &'a CheckCtx, name: &str) -> (r: Option<&'a FunctionSig>)
    ensures
        match r {
            Some(s) => find_last(c.ctx().functions, name@) == Some(s@),
            None => find_last(c.ctx().functions, name@) is None,
        },
{
    find_sig(&c.functions, name)
}

/// The signature last registered under `name`.
fn find_sig<'a>(fs: &'a Vec<(String, FunctionSig)>, name: &str) -> (r: Option<&'a FunctionSig>)
    ensures
        match r {
            Some(s) => find_last(fn_entries(fs@), name@) == Some(s@),
            None => find_last(fn_entries(fs@), name@) is None,
        },
{
    let ghost es = fn_entries(fs@);
    let mut k: usize = fs.len();
    assert(es.take(es.len() as int) =~= es);
    while k > 0
        invariant
            k <= fs.len(),
            es == fn_entries(fs@),
            find_last(es, name@) == find_last(es.take(k as int), name@),
        decreases k,
    {
        let ghost pe = es.take(k as int);
        assert(pe.drop_last() =~= es.take(k - 1));
        assert(pe.last() == (fs@[k - 1].0@, fs@[k - 1].1@));
        if crate::text::str_eq(fs[k - 1].0.as_str(), name) {
            return Some(&fs[k - 1].1);
        }
        k = k - 1;
    }
    assert(es.take(0) =~= Seq::<(Seq<char>, SigView)>::empty());
    None
}

fn find_variant<'a>(c: &'a CheckCtx, path: &Vec<String>) -> (r: Option<&'a VariantInfo>)
    ensures
        match r {
            Some(v) => find_last(c.ctx().variants, views(path@)) == Some(v@),
            None => find_last(c.ctx().variants, views(path@)) is None,
        },
{
    let ghost es = c.ctx().variants;
    let mut k: usize = c.variants.len();
    assert(es.take(es.len() as int) =~= es);
    while k > 0
        invariant
            k <= c.variants.len(),
            es == c.ctx().variants,
            find_last(es, views(path@)) == find_last(es.take(k as int), views(path@)),
        decreases k,
    {
        let ghost pe = es.take(k as int);
        assert(pe.drop_last() =~= es.take(k - 1));
        assert(pe.last() == (views(c.variants@[k - 1].0@), c.variants@[k - 1].1@));
        if same_strings(&c.variants[k - 1].0, path) {
            return Some(&c.variants[k - 1].1);
        }
        k = k - 1;
    }
    assert(es.take(0) =~= Seq::<(Seq<Seq<char>>, VariantView)>::empty());
    None
}

fn lookup_variant<'a>(c: &'a CheckCtx, path: &Vec<String>) -> (r: Option<&'a VariantInfo>)
    ensures
        match r {
            Some(v) => lookup_variant_spec(c.ctx(), views(path@)) == Some(v@),
            None => lookup_variant_spec(c.ctx(), views(path@)) is None,
        },
{
    match find_variant(c, path) {
        Some(v) => {
            return Some(v);
        },
        None => {},
    }
    if path.len() > 1 {
        let mut qualified = copy_strings(&c.module);
        let mut i: usize = 0;
        let ghost q0 = views(qualified@);
        while i < path.len()
            invariant
                i <= path.len(),
                views(qualified@) == q0 + views(path@).take(i as int),
            decreases path.len() - i,
        {
            let ghost before = views(qualified@);
            qualified.push(copy_string(&path[i]));
            assert(views(qualified@) =~= before.push(path@[i as int]@));
            assert(views(path@).take(i + 1) =~= views(path@).take(i as int).push(path@[i as int]@));
            i = i + 1;
        }
        assert(views(path@).take(path.len() as int) =~= views(path@));
        match find_variant(c, &qualified) {
            Some(v) => {
                return Some(v);
            },
            None => {},
        }
    }
    if path.len() > 0 {
        let last = vec![copy_string(&path[path.len() - 1])];
        assert(views(last@) =~= seq![views(path@).last()]);
        find_variant(c, &last)
    } else {
        None
    }
}

fn has_capability(c: &CheckCtx, st: &CheckState, name: &str) -> (r: bool)
    ensures
        r == has_cap(c.ctx(), st.st(), name@),
{
    proof {
        lemma_field_tys_of(c.params@);
    }
    let mut i: usize = 0;
    while i < c.params.len()
        invariant
            i <= c.params.len(),
            forall|k: int| 0 <= k < i ==> c.params@[k].0@ != name@,
        decreases c.params.len() - i,
    {
        if crate::text::str_eq(c.params[i].0.as_str(), name) {
            proof {
                lemma_field_tys_of(c.params@);
                assert(c.ctx().params[i as int].0 == name@);
            }
            return true;
        }
        i = i + 1;
    }
    proof {
        lemma_field_tys_of(c.params@);
        if exists|k: int| 0 <= k < c.ctx().params.len() && (#[trigger] c.ctx().params[k]).0 == name@ {
            let k = choose|k: int| 0 <= k < c.ctx().params.len() && (#[trigger] c.ctx().params[k]).0 == name@;
            assert(c.params@[k].0@ == name@);
        }
    }
    st.lookup_value(name).is_some()
}

fn push_q(msg: &mut String, s: &str)
    ensures
        final(msg)@ == old(msg)@ + q(s@),
{
    push_str(msg, "'");
    push_str(msg, s);
    push_str(msg, "'");
    assert(final(msg)@ =~= old(msg)@ + q(s@));
}


// ---------------------------------------------------------------------------
// The type checker: checking
// ---------------------------------------------------------------------------

fn or_unknown(o: Option<TypeRepr>) -> (t: TypeRepr)
    ensures
        t@ == unknown_or(opt_ty(o)),
{
    match o {
        Some(t) => t,
        None => TypeRepr::Unknown,
    }
}

fn bool_repr() -> (t: TypeRepr)
    ensures
        t@ == bool_ty(),
{
    TypeRepr::Primitive(PrimitiveType::Bool)
}

/// `<before>'<a>'<middle>'<b>'`, the shape of most diagnostics.
fn msg2(before: &str, a: &str, middle: &str, b: &str) -> (m: String)
    ensures
        m@ == before@ + q(a@) + middle@ + q(b@),
{
    let mut m = String::new();
    push_str(&mut m, before);
    push_q(&mut m, a);
    push_str(&mut m, middle);
    push_q(&mut m, b);
    assert(m@ =~= before@ + q(a@) + middle@ + q(b@));
    m
}

fn check_binary(c: &CheckCtx, st: &mut CheckState, op: BinaryOp, l: Option<TypeRepr>, r: Option<TypeRepr>) -> (res: Option<TypeRepr>)
    ensures
        (opt_ty(res), final(st).st()) == check_binary_spec(c.ctx(), old(st).st(), op, opt_ty(l), opt_ty(r)),
{
    let l = or_unknown(l);
    let r = or_unknown(r);
    let sym = op.to_display_string();
    match op {
        BinaryOp::Add | BinaryOp::Sub | BinaryOp::Mul | BinaryOp::Div | BinaryOp::Mod => {
            if !types_compatible(&l, &r) {
                let mut m = msg2("binary operator ", sym.as_str(), " in ", c.name.as_str());
                let tail = msg2(" used with ", describe_type(&l).as_str(), " and ", describe_type(&r).as_str());
                push_str(&mut m, tail.as_str());
                assert(m@ =~= "binary operator "@ + q(binary_symbol(op)) + " in "@ + q(c.ctx().name) + " used with "@ + q(describe(l@)) + " and "@ + q(describe(r@)));
                st.diag(m);
            }
            Some(l)
        },
        BinaryOp::Eq | BinaryOp::Ne => Some(bool_repr()),
        BinaryOp::Lt | BinaryOp::Le | BinaryOp::Gt | BinaryOp::Ge => {
            if !types_compatible(&l, &r) {
                let mut m = msg2("comparison operator ", sym.as_str(), " in ", c.name.as_str());
                let tail = msg2(" used with ", describe_type(&l).as_str(), " and ", describe_type(&r).as_str());
                push_str(&mut m, tail.as_str());
                assert(m@ =~= "comparison operator "@ + q(binary_symbol(op)) + " in "@ + q(c.ctx().name) + " used with "@ + q(describe(l@)) + " and "@ + q(describe(r@)));
                st.diag(m);
            }
            Some(bool_repr())
        },
        BinaryOp::And | BinaryOp::Or => {
            let b = bool_repr();
            if !types_compatible(&b, &l) {
                let mut m = msg2("operator ", sym.as_str(), " in ", c.name.as_str());
                push_str(&mut m, " expects Bool but found ");
                push_q(&mut m, describe_type(&l).as_str());
                assert(m@ =~= "operator "@ + q(binary_symbol(op)) + " in "@ + q(c.ctx().name) + " expects Bool but found "@ + q(describe(l@)));
                st.diag(m);
            }
            if !types_compatible(&b, &r) {
                let mut m = msg2("operator ", sym.as_str(), " in ", c.name.as_str());
                push_str(&mut m, " expects Bool but found ");
                push_q(&mut m, describe_type(&r).as_str());
                assert(m@ =~= "operator "@ + q(binary_symbol(op)) + " in "@ + q(c.ctx().name) + " expects Bool but found "@ + q(describe(r@)));
                st.diag(m);
            }
            Some(b)
        },
    }
}

fn check_unary(c: &CheckCtx, st: &mut CheckState, op: UnaryOp, t: Option<TypeRepr>) -> (res: Option<TypeRepr>)
    ensures
        (opt_ty(res), final(st).st()) == check_unary_spec(c.ctx(), old(st).st(), op, opt_ty(t)),
{
    let t = or_unknown(t);
    match op {
        UnaryOp::Neg => Some(t),
        UnaryOp::Not => {
            let b = bool_repr();
            if !types_compatible(&b, &t) {
                let mut m = String::new();
                push_str(&mut m, "operator '!' in ");
                push_q(&mut m, c.name.as_str());
                push_str(&mut m, " expects Bool but found ");
                push_q(&mut m, describe_type(&t).as_str());
                st.diag(m);
            }
            Some(b)
        },
        _ => Some(TypeRepr::Unknown),
    }
}

fn check_path(c: &CheckCtx, st: &CheckState, p: &Path) -> (res: Option<TypeRepr>)
    ensures
        opt_ty(res) == check_path_spec(c.ctx(), st.st(), views(p.segments@)),
{
    if p.segments.len() == 1 {
        match st.lookup_value(p.segments[0].as_str()) {
            Some(t) => {
                return Some(t);
            },
            None => {},
        }
        match find_function(c, p.segments[0].as_str()) {
            Some(sig) => Some(copy_repr(&sig.function_type)),
            None => None,
        }
    } else {
        None
    }
}

fn call_effects(c: &CheckCtx, st: &mut CheckState, effects: &Vec<String>)
    ensures
        final(st).st() == call_effects_spec(c.ctx(), old(st).st(), views(effects@)),
{
    let ghost st0 = st.st();
    let mut i: usize = 0;
    while i < effects.len()
        invariant
            i <= effects.len(),
            st.st() == call_effects_spec(c.ctx(), st0, views(effects@).take(i as int)),
        decreases effects.len() - i,
    {
        let cap = effects[i].as_str();
        proof {
            let p = views(effects@).take(i + 1);
            assert(p.drop_last() =~= views(effects@).take(i as int));
            assert(p.last() == cap@);
        }
        if !contains_str(&c.effects, cap) {
            let mut m = String::new();
            push_str(&mut m, "call in ");
            push_q(&mut m, c.name.as_str());
            push_str(&mut m, " uses capability ");
            push_q(&mut m, cap);
            push_str(&mut m, " but the function does not declare it in its effect row");
            st.diag(m);
        }
        if !has_capability(c, st, cap) {
            let mut m = String::new();
            push_str(&mut m, "call in ");
            push_q(&mut m, c.name.as_str());
            push_str(&mut m, " requires capability ");
            push_q(&mut m, cap);
            push_str(&mut m, " which is not in scope");
            st.diag(m);
        }
        i = i + 1;
    }
    assert(views(effects@).take(effects.len() as int) =~= views(effects@));
}

fn bind_pattern(c: &CheckCtx, st: &mut CheckState, p: &Pattern, t: &Option<TypeRepr>)
    ensures
        final(st).st() == bind_pattern_spec(c.ctx(), old(st).st(), *p, opt_ty(*t)),
    decreases p, 1nat,
{
    match p {
        Pattern::Binding(n) => {
            let ty = match t {
                Some(x) => copy_repr(x),
                None => TypeRepr::Unknown,
            };
            st.bind(n.as_str(), ty);
        },
        Pattern::Tuple(pats) => match t {
            Some(TypeRepr::Tuple(items)) => bind_zip(c, st, pats, items),
            _ => bind_none(c, st, pats),
        },
        Pattern::Record(fields) => match t {
            Some(TypeRepr::Record(items)) => bind_fields(c, st, fields, items),
            _ => {
                let empty: Vec<(String, TypeRepr)> = Vec::new();
                assert(field_tys_of(empty@) =~= Seq::<(Seq<char>, Ty)>::empty());
                bind_fields(c, st, fields, &empty);
            },
        },
        Pattern::EnumVariant { path, fields } => match lookup_variant(c, &path.segments) {
            Some(info) => bind_zip(c, st, fields, &info.fields),
            None => {
                let mut m = String::new();
                push_str(&mut m, "unknown variant ");
                let joined = crate::text::join_strings(&path.segments, "::");
                push_q(&mut m, joined.as_str());
                push_str(&mut m, " in pattern within ");
                push_q(&mut m, c.name.as_str());
                st.diag(m);
            },
        },
        _ => {},
    }
}

fn bind_zip(c: &CheckCtx, st: &mut CheckState, pats: &Vec<Pattern>, tys: &Vec<TypeRepr>)
    ensures
        final(st).st() == bind_zip_spec(c.ctx(), old(st).st(), pats@, tys_of(tys@)),
    decreases pats, 0nat,
{
    let ghost st0 = st.st();
    proof {
        lemma_tys_of(tys@);
    }
    let mut i: usize = 0;
    while i < pats.len()
        invariant
            i <= pats.len(),
            tys_of(tys@).len() == tys@.len(),
            forall|k: int| 0 <= k < tys@.len() ==> #[trigger] tys_of(tys@)[k] == ty_of(tys@[k]),
            st.st() == bind_zip_spec(c.ctx(), st0, pats@.take(i as int), tys_of(tys@)),
        decreases pats.len() - i,
    {
        proof {
            let p = pats@.take(i + 1);
            assert(p.drop_last() =~= pats@.take(i as int));
            assert(p.last() == pats@[i as int]);
            assert(decreases_to!(pats => pats@));
            assert(decreases_to!(pats@ => pats@[i as int]));
        }
        if i < tys.len() {
            let t = Some(copy_repr(&tys[i]));
            bind_pattern(c, st, &pats[i], &t);
        }
        i = i + 1;
    }
    assert(pats@.take(pats.len() as int) =~= pats@);
}

fn bind_none(c: &CheckCtx, st: &mut CheckState, pats: &Vec<Pattern>)
    ensures
        final(st).st() == bind_none_spec(c.ctx(), old(st).st(), pats@),
    decreases pats, 0nat,
{
    let ghost st0 = st.st();
    let mut i: usize = 0;
    while i < pats.len()
        invariant
            i <= pats.len(),
            st.st() == bind_none_spec(c.ctx(), st0, pats@.take(i as int)),
        decreases pats.len() - i,
    {
        proof {
            let p = pats@.take(i + 1);
            assert(p.drop_last() =~= pats@.take(i as int));
            assert(p.last() == pats@[i as int]);
            assert(decreases_to!(pats => pats@));
            assert(decreases_to!(pats@ => pats@[i as int]));
        }
        bind_pattern(c, st, &pats[i], &None);
        i = i + 1;
    }
    assert(pats@.take(pats.len() as int) =~= pats@);
}

fn find_field<'a>(items: &'a Vec<(String, TypeRepr)>, name: &str) -> (r: Option<TypeRepr>)
    ensures
        opt_ty(r) == find_last(field_tys_of(items@), name@),
{
    let ghost es = field_tys_of(items@);
    proof {
        lemma_field_tys_of(items@);
        assert(es.take(es.len() as int) =~= es);
    }
    let mut k: usize = items.len();
    while k > 0
        invariant
            k <= items.len(),
            es == field_tys_of(items@),
            es.len() == items@.len(),
            forall|x: int| 0 <= x < items@.len() ==> #[trigger] es[x] == (items@[x].0@, items@[x].1@),
            find_last(es, name@) == find_last(es.take(k as int), name@),
        decreases k,
    {
        let ghost pe = es.take(k as int);
        assert(pe.drop_last() =~= es.take(k - 1));
        assert(pe.last() == es[k - 1]);
        if crate::text::str_eq(items[k - 1].0.as_str(), name) {
            return Some(copy_repr(&items[k - 1].1));
        }
        k = k - 1;
    }
    assert(es.take(0) =~= Seq::<(Seq<char>, Ty)>::empty());
    None
}

fn bind_fields(c: &CheckCtx, st: &mut CheckState, fields: &Vec<(String, Pattern)>, items: &Vec<(String, TypeRepr)>)
    ensures
        final(st).st() == bind_fields_spec(c.ctx(), old(st).st(), fields@, field_tys_of(items@)),
    decreases fields, 0nat,
{
    let ghost st0 = st.st();
    let mut i: usize = 0;
    while i < fields.len()
        invariant
            i <= fields.len(),
            st.st() == bind_fields_spec(c.ctx(), st0, fields@.take(i as int), field_tys_of(items@)),
        decreases fields.len() - i,
    {
        proof {
            let p = fields@.take(i + 1);
            assert(p.drop_last() =~= fields@.take(i as int));
            assert(p.last() == fields@[i as int]);
            assert(decreases_to!(fields => fields@));
            assert(decreases_to!(fields@ => fields@[i as int]));
            assert(decreases_to!(fields@[i as int] => fields@[i as int].1));
        }
        let t = find_field(items, fields[i].0.as_str());
        bind_pattern(c, st, &fields[i].1, &t);
        i = i + 1;
    }
    assert(fields@.take(fields.len() as int) =~= fields@);
}


fn check_args(c: &CheckCtx, st: &mut CheckState, params: &Vec<TypeRepr>, args: &Vec<Expr>)
    ensures
        final(st).st() == check_args_spec(c.ctx(), old(st).st(), tys_of(params@), args@),
    decreases args, 0nat,
{
    let ghost st0 = st.st();
    proof {
        lemma_tys_of(params@);
    }
    let mut i: usize = 0;
    while i < args.len()
        invariant
            i <= args.len(),
            tys_of(params@).len() == params@.len(),
            forall|k: int| 0 <= k < params@.len() ==> #[trigger] tys_of(params@)[k] == ty_of(params@[k]),
            st.st() == check_args_spec(c.ctx(), st0, tys_of(params@), args@.take(i as int)),
        decreases args.len() - i,
    {
        proof {
            let p = args@.take(i + 1);
            assert(p.drop_last() =~= args@.take(i as int));
            assert(p.last() == args@[i as int]);
            assert(decreases_to!(args => args@));
            assert(decreases_to!(args@ => args@[i as int]));
        }
        if i < params.len() {
            match check_expr(c, st, &args[i]) {
                Some(actual) => {
                    if !types_compatible(&params[i], &actual) {
                        let mut m = String::new();
                        push_str(&mut m, "argument to call in ");
                        push_q(&mut m, c.name.as_str());
                        push_str(&mut m, " has type ");
                        push_q(&mut m, describe_type(&actual).as_str());
                        push_str(&mut m, " but parameter expects ");
                        push_q(&mut m, describe_type(&params[i]).as_str());
                        st.diag(m);
                    }
                },
                None => {},
            }
        }
        i = i + 1;
    }
    assert(args@.take(args.len() as int) =~= args@);
}

fn check_call_expr(c: &CheckCtx, st: &mut CheckState, e: &Expr) -> (res: Option<TypeRepr>)
    requires
        e is Call,
    ensures
        (opt_ty(res), final(st).st()) == check_expr_spec(c.ctx(), old(st).st(), *e),
    decreases e, 0nat,
{
    match e {
        Expr::Call { callee, args } => {
            let ct = check_expr(c, st, callee);
            match ct {
                Some(TypeRepr::Function { params, return_type, effects }) => {
                    proof {
                        lemma_tys_of(params@);
                    }
                    if params.len() != args.len() {
                        let mut m = String::new();
                        push_str(&mut m, "call in ");
                        push_q(&mut m, c.name.as_str());
                        push_str(&mut m, " expected ");
                        push_nat(&mut m, params.len() as u64);
                        push_str(&mut m, " arguments but found ");
                        push_nat(&mut m, args.len() as u64);
                        st.diag(m);
                    }
                    check_args(c, st, &params, args);
                    call_effects(c, st, &effects);
                    Some(*return_type)
                },
                Some(actual) => {
                    let mut m = String::new();
                    push_str(&mut m, "attempted to call expression of type ");
                    push_q(&mut m, describe_type(&actual).as_str());
                    push_str(&mut m, " in ");
                    push_q(&mut m, c.name.as_str());
                    st.diag(m);
                    Some(TypeRepr::Unknown)
                },
                None => Some(TypeRepr::Unknown),
            }
        },
        _ => None,
    }
}

fn check_if_expr(c: &CheckCtx, st: &mut CheckState, e: &Expr) -> (res: Option<TypeRepr>)
    requires
        e is If,
    ensures
        (opt_ty(res), final(st).st()) == check_expr_spec(c.ctx(), old(st).st(), *e),
    decreases e, 0nat,
{
    match e {
        Expr::If { condition, then_branch, else_branch } => {
            match check_expr(c, st, condition) {
                Some(t) => {
                    if !types_compatible(&bool_repr(), &t) {
                        let mut m = String::new();
                        push_str(&mut m, "if condition in ");
                        push_q(&mut m, c.name.as_str());
                        push_str(&mut m, " is ");
                        push_q(&mut m, describe_type(&t).as_str());
                        push_str(&mut m, " but must be Bool");
                        st.diag(m);
                    }
                },
                None => {},
            }
            let then_ty = or_unknown(check_expr(c, st, then_branch));
            match else_branch {
                Some(x) => {
                    let else_ty = or_unknown(check_expr(c, st, x));
                    if !types_compatible(&then_ty, &else_ty) {
                        let mut m = String::new();
                        push_str(&mut m, "if branches in ");
                        push_q(&mut m, c.name.as_str());
                        push_str(&mut m, " return ");
                        push_q(&mut m, describe_type(&then_ty).as_str());
                        push_str(&mut m, " and ");
                        push_q(&mut m, describe_type(&else_ty).as_str());
                        st.diag(m);
                    }
                },
                None => {},
            }
            Some(then_ty)
        },
        _ => None,
    }
}

fn check_assign_expr(c: &CheckCtx, st: &mut CheckState, e: &Expr) -> (res: Option<TypeRepr>)
    requires
        e is Assignment,
    ensures
        (opt_ty(res), final(st).st()) == check_expr_spec(c.ctx(), old(st).st(), *e),
    decreases e, 0nat,
{
    match e {
        Expr::Assignment { target, value } => {
            let target_ty = or_unknown(check_expr(c, st, target));
            match check_expr(c, st, value) {
                Some(v) => {
                    if !types_compatible(&target_ty, &v) {
                        let mut m = String::new();
                        push_str(&mut m, "cannot assign ");
                        push_q(&mut m, describe_type(&v).as_str());
                        push_str(&mut m, " to ");
                        push_q(&mut m, describe_type(&target_ty).as_str());
                        push_str(&mut m, " in ");
                        push_q(&mut m, c.name.as_str());
                        st.diag(m);
                    }
                },
                None => {},
            }
            Some(target_ty)
        },
        _ => None,
    }
}

fn check_using_expr(c: &CheckCtx, st: &mut CheckState, e: &Expr) -> (res: Option<TypeRepr>)
    requires
        e is Using,
    ensures
        (opt_ty(res), final(st).st()) == check_expr_spec(c.ctx(), old(st).st(), *e),
    decreases e, 0nat,
{
    match e {
        Expr::Using { binding, expr, body } => {
            let _ = check_expr(c, st, expr);
            st.push_scope();
            match binding {
                Some(n) => st.bind(n.as_str(), TypeRepr::Unknown),
                None => {},
            }
            let body_ty = or_unknown(check_block(c, st, body));
            st.pop_scope();
            match body_ty {
                TypeRepr::Unit => Some(TypeRepr::Unknown),
                other => Some(other),
            }
        },
        _ => None,
    }
}

fn check_arms(c: &CheckCtx, st: &mut CheckState, sc: &Option<TypeRepr>, arms: &Vec<MatchArm>) -> (res: Option<TypeRepr>)
    ensures
        (opt_ty(res), final(st).st()) == check_arms_spec(c.ctx(), old(st).st(), opt_ty(*sc), arms@),
    decreases arms, 0nat,
{
    let ghost st0 = st.st();
    let mut arm_type: Option<TypeRepr> = None;
    let mut i: usize = 0;
    while i < arms.len()
        invariant
            i <= arms.len(),
            (opt_ty(arm_type), st.st()) == check_arms_spec(c.ctx(), st0, opt_ty(*sc), arms@.take(i as int)),
        decreases arms.len() - i,
    {
        proof {
            let p = arms@.take(i + 1);
            assert(p.drop_last() =~= arms@.take(i as int));
            assert(p.last() == arms@[i as int]);
            assert(decreases_to!(arms => arms@));
            assert(decreases_to!(arms@ => arms@[i as int]));
            assert(decreases_to!(arms@[i as int] => arms@[i as int].body));
            assert(decreases_to!(arms@[i as int] => arms@[i as int].guard));
        }
        let arm = &arms[i];
        st.push_scope();
        bind_pattern(c, st, &arm.pattern, sc);
        match &arm.guard {
            Some(g) => {
                proof {
                    assert(decreases_to!(arm.guard => arm.guard->Some_0));
                }
                match check_expr(c, st, g) {
                    Some(t) => {
                        if !types_compatible(&bool_repr(), &t) {
                            let mut m = String::new();
                            push_str(&mut m, "match guard in ");
                            push_q(&mut m, c.name.as_str());
                            push_str(&mut m, " has type ");
                            push_q(&mut m, describe_type(&t).as_str());
                            push_str(&mut m, " but must be Bool");
                            st.diag(m);
                        }
                    },
                    None => {},
                }
            },
            None => {},
        }
        let body_ty = or_unknown(check_expr(c, st, &arm.body));
        match &arm_type {
            Some(existing) => {
                if !types_compatible(existing, &body_ty) {
                    let mut m = String::new();
                    push_str(&mut m, "match arms in ");
                    push_q(&mut m, c.name.as_str());
                    push_str(&mut m, " have incompatible types ");
                    push_q(&mut m, describe_type(existing).as_str());
                    push_str(&mut m, " and ");
                    push_q(&mut m, describe_type(&body_ty).as_str());
                    st.diag(m);
                }
            },
            None => {
                arm_type = Some(body_ty);
            },
        }
        st.pop_scope();
        i = i + 1;
    }
    assert(arms@.take(arms.len() as int) =~= arms@);
    arm_type
}

fn check_block(c: &CheckCtx, st: &mut CheckState, b: &Block) -> (res: Option<TypeRepr>)
    ensures
        (opt_ty(res), final(st).st()) == check_block_spec(c.ctx(), old(st).st(), *b),
    decreases b, 1nat,
{
    st.push_scope();
    let last = check_stmts(c, st, &b.statements);
    st.pop_scope();
    Some(last)
}

fn check_stmts(c: &CheckCtx, st: &mut CheckState, ss: &Vec<Stmt>) -> (last: TypeRepr)
    ensures
        (last@, final(st).st()) == check_stmts_spec(c.ctx(), old(st).st(), ss@),
    decreases ss, 0nat,
{
    let ghost st0 = st.st();
    let mut last = TypeRepr::Unit;
    let mut i: usize = 0;
    while i < ss.len()
        invariant
            i <= ss.len(),
            (last@, st.st()) == check_stmts_spec(c.ctx(), st0, ss@.take(i as int)),
        decreases ss.len() - i,
    {
        proof {
            let p = ss@.take(i + 1);
            assert(p.drop_last() =~= ss@.take(i as int));
            assert(p.last() == ss@[i as int]);
            assert(decreases_to!(ss => ss@));
            assert(decreases_to!(ss@ => ss@[i as int]));
        }
        match &ss[i] {
            Stmt::Let(l) => {
                proof {
                    assert(decreases_to!(ss@[i as int] => (ss@[i as int])->Let_0));
                    assert(decreases_to!((ss@[i as int])->Let_0 => (ss@[i as int])->Let_0.value));
                }
                let v = or_unknown(check_expr(c, st, &l.value));
                st.bind(l.name.as_str(), v);
                last = TypeRepr::Unit;
            },
            Stmt::Expr(e) => {
                proof {
                    assert(decreases_to!(ss@[i as int] => (ss@[i as int])->Expr_0));
                }
                last = or_unknown(check_expr(c, st, e));
            },
            Stmt::Return(Some(e)) => {
                proof {
                    assert(decreases_to!(ss@[i as int] => (ss@[i as int])->Return_0));
                    assert(decreases_to!((ss@[i as int])->Return_0 => (ss@[i as int])->Return_0->Some_0));
                }
                let a = check_expr(c, st, e);
                match &c.return_type {
                    Some(expected) => match &a {
                        Some(actual) => {
                            if !types_compatible(expected, actual) {
                                let mut m = String::new();
                                push_str(&mut m, "returning ");
                                push_q(&mut m, describe_type(actual).as_str());
                                push_str(&mut m, " but function ");
                                push_q(&mut m, c.name.as_str());
                                push_str(&mut m, " expects ");
                                push_q(&mut m, describe_type(expected).as_str());
                                st.diag(m);
                            }
                        },
                        None => {},
                    },
                    None => match &a {
                        Some(actual) => {
                            let mut m = String::new();
                            push_str(&mut m, "function ");
                            push_q(&mut m, c.name.as_str());
                            push_str(&mut m, " does not declare a return type but returns ");
                            push_q(&mut m, describe_type(actual).as_str());
                            st.diag(m);
                        },
                        None => {},
                    },
                }
                last = TypeRepr::Unit;
            },
            _ => {
                last = TypeRepr::Unit;
            },
        }
        i = i + 1;
    }
    assert(ss@.take(ss.len() as int) =~= ss@);
    last
}

/// Checks an expression: its type, if known.
fn check_expr(c: &CheckCtx, st: &mut CheckState, e: &Expr) -> (res: Option<TypeRepr>)
    ensures
        (opt_ty(res), final(st).st()) == check_expr_spec(c.ctx(), old(st).st(), *e),
    decreases e, 1nat,
{
    match e {
        Expr::Block(b) => check_block(c, st, b),
        Expr::Literal(l) => Some(
            match l {
                Literal::Int(_) => TypeRepr::Primitive(PrimitiveType::Int),
                Literal::Float(_) => TypeRepr::Primitive(PrimitiveType::Float),
                Literal::Bool(_) => TypeRepr::Primitive(PrimitiveType::Bool),
                Literal::String(_) => TypeRepr::Primitive(PrimitiveType::String),
                Literal::Unit => TypeRepr::Unit,
            },
        ),
        Expr::Path(p) => check_path(c, st, p),
        Expr::Binary { lhs, op, rhs } => {
            let l = check_expr(c, st, lhs);
            let r = check_expr(c, st, rhs);
            check_binary(c, st, *op, l, r)
        },
        Expr::Unary { op, expr } => {
            let t = check_expr(c, st, expr);
            check_unary(c, st, *op, t)
        },
        Expr::Call { .. } => check_call_expr(c, st, e),
        Expr::Field { expr, .. } => check_expr(c, st, expr),
        Expr::Index { expr, .. } => check_expr(c, st, expr),
        Expr::If { .. } => check_if_expr(c, st, e),
        Expr::Match { scrutinee, arms } => {
            let sc = check_expr(c, st, scrutinee);
            check_arms(c, st, &sc, arms)
        },
        Expr::For { body, .. } => {
            let _ = check_expr(c, st, body);
            Some(TypeRepr::Unit)
        },
        Expr::While { body, .. } => {
            let _ = check_expr(c, st, body);
            Some(TypeRepr::Unit)
        },
        Expr::Loop { body } => {
            let _ = check_expr(c, st, body);
            Some(TypeRepr::Unit)
        },
        Expr::Assignment { .. } => check_assign_expr(c, st, e),
        Expr::Spawn(x) => {
            let _ = check_expr(c, st, x);
            Some(TypeRepr::Unknown)
        },
        Expr::Await(x) => {
            let _ = check_expr(c, st, x);
            Some(TypeRepr::Unknown)
        },
        Expr::Try(x) => {
            let _ = check_expr(c, st, x);
            Some(TypeRepr::Unknown)
        },
        Expr::Chan { ty, capacity } => {
            match capacity {
                Some(cap) => {
                    let _ = check_expr(c, st, cap);
                },
                None => {},
            }
            let no_generics: Vec<String> = Vec::new();
            let inner = parse_type_expr(ty, &no_generics);
            assert(views(no_generics@) =~= Seq::<Seq<char>>::empty());
            let path = vec![to_owned_string("Chan")];
            let args = vec![inner];
            assert(views(path@) =~= seq!["Chan"@]);
            assert(tys_of(args@) =~= seq![args@[0]@]) by {
                assert(args@.drop_last() =~= Seq::<TypeRepr>::empty());
                assert(args@.last() == args@[0]);
                assert(tys_of(args@.drop_last()) =~= Seq::<Ty>::empty());
                assert(seq![args@[0]@] =~= Seq::<Ty>::empty().push(args@[0]@));
            }
            Some(TypeRepr::Named(path, args))
        },
        Expr::Using { .. } => check_using_expr(c, st, e),
    }
}


// ---------------------------------------------------------------------------
// The type checker: signatures, variants, functions, modules
// ---------------------------------------------------------------------------

/// The signature of a function: parameter and return types read with the
/// function's generics in scope; as a value, a function type returning
/// `Unit` when no return type is declared.
pub open spec fn sig_of(f: Function) -> SigView {
    let g = views(f.generics@);
    let params = f.params@.map_values(|p: crate::syntax::ast::Param| (p.name@, parse_ty(p.ty, g)));
    let ret = match f.return_type {
        Some(t) => Some(parse_ty(t, g)),
        None => None,
    };
    SigView {
        params,
        ret,
        fn_type: Ty::Function {
            params: params.map_values(|p: (Seq<char>, Ty)| p.1),
            ret: Box::new(
                match ret {
                    Some(t) => t,
                    None => Ty::Unit,
                },
            ),
            effects: views(f.effect_row@),
        },
        effects: views(f.effect_row@),
    }
}

/// The signatures of the module's functions, in item order.
pub open spec fn module_sigs(items: Seq<Item>) -> Seq<(Seq<char>, SigView)>
    decreases items.len(),
{
    if items.len() == 0 {
        Seq::empty()
    } else {
        let rest = module_sigs(items.drop_last());
        match items.last() {
            Item::Function(f) => rest.push((f.name@, sig_of(f))),
            _ => rest,
        }
    }
}

/// The sum type an alias with parameters declares, as a type.
pub open spec fn alias_type(ta: TypeAlias) -> Ty {
    Ty::Named(seq![ta.name@], ta.params@.map_values(|p: String| Ty::Generic(p@)))
}

/// The entries registering the variants `vars` of `ta`, three per variant:
/// by module, alias and variant; by alias and variant; by variant.
pub open spec fn alias_variants(module: Seq<Seq<char>>, ta: TypeAlias, vars: Seq<TypeVariant>) -> Seq<(Seq<Seq<char>>, VariantView)>
    decreases vars.len(),
{
    if vars.len() == 0 {
        Seq::empty()
    } else {
        let v = vars.last();
        let info = VariantView { fields: parse_tys(v.fields@, views(ta.params@)), ty: alias_type(ta) };
        alias_variants(module, ta, vars.drop_last()) + seq![
            (module + seq![ta.name@, v.name@], info),
            (seq![ta.name@, v.name@], info),
            (seq![v.name@], info),
        ]
    }
}

/// The variants of the module's sum types, in item order.
pub open spec fn module_variants(module: Seq<Seq<char>>, items: Seq<Item>) -> Seq<(Seq<Seq<char>>, VariantView)>
    decreases items.len(),
{
    if items.len() == 0 {
        Seq::empty()
    } else {
        let rest = module_variants(module, items.drop_last());
        match items.last() {
            Item::TypeAlias(ta) => match ta.value {
                TypeExpr::Sum(vars) => rest + alias_variants(module, ta, vars@),
                _ => rest,
            },
            _ => rest,
        }
    }
}

/// What checking function `f` of `m` with signature `sig` knows.
pub open spec fn fn_ctx(m: Module, f: Function, sig: SigView) -> Ctx {
    Ctx {
        name: f.name@,
        params: sig.params,
        ret: sig.ret,
        effects: sig.effects,
        module: views(m.name@),
        functions: module_sigs(m.items@),
        variants: module_variants(views(m.name@), m.items@),
    }
}

/// A capability listed again in the effect row.
pub open spec fn dup_caps_spec(c: Ctx, st: St, effs: Seq<Seq<char>>) -> St
    decreases effs.len(),
{
    if effs.len() == 0 {
        st
    } else {
        let st1 = dup_caps_spec(c, st, effs.drop_last());
        if effs.drop_last().contains(effs.last()) {
            diag_st(st1, "function "@ + q(c.name) + " has duplicate capability "@ + q(effs.last()) + " in effect row"@)
        } else {
            st1
        }
    }
}

pub open spec fn bind_params_spec(st: St, params: Seq<(Seq<char>, Ty)>) -> St
    decreases params.len(),
{
    if params.len() == 0 {
        st
    } else {
        bind_st(bind_params_spec(st, params.drop_last()), params.last().0, params.last().1)
    }
}

/// A capability of the effect row that no parameter or binding is named
/// after.
pub open spec fn missing_caps_spec(c: Ctx, st: St, effs: Seq<Seq<char>>) -> St
    decreases effs.len(),
{
    if effs.len() == 0 {
        st
    } else {
        let st1 = missing_caps_spec(c, st, effs.drop_last());
        if !has_cap(c, st1, effs.last()) {
            diag_st(
                st1,
                "function "@ + q(c.name) + " declares capability "@ + q(effs.last())
                    + " but has no parameter with that name"@,
            )
        } else {
            st1
        }
    }
}

/// The diagnostics after checking function `f` in context `c`: repeated
/// capabilities, capabilities without a parameter, its body, and its body's
/// type against the declared return type.
pub open spec fn check_function_spec(c: Ctx, f: Function, diags: Seq<Seq<char>>) -> Seq<Seq<char>> {
    let st0 = St { scopes: seq![Seq::empty()], diags };
    let st1 = dup_caps_spec(c, st0, c.effects);
    let st2 = bind_params_spec(st1, c.params);
    let st3 = missing_caps_spec(c, st2, c.effects);
    let (bt, st4) = check_block_spec(c, st3, f.body);
    match c.ret {
        Some(expected) => match bt {
            Some(actual) => if !compatible(expected, actual) {
                diag_st(
                    st4,
                    "function "@ + q(c.name) + " returns "@ + q(describe(actual)) + " but expected "@ + q(describe(expected)),
                ).diags
            } else {
                st4.diags
            },
            None => st4.diags,
        },
        None => match bt {
            Some(actual) => if !(actual is Unit || actual is Unknown) {
                diag_st(
                    st4,
                    "function "@ + q(c.name) + " returns value of type "@ + q(describe(actual))
                        + " but is declared without return type"@,
                ).diags
            } else {
                st4.diags
            },
            None => st4.diags,
        },
    }
}

/// The diagnostics of the functions among `items`, each checked with the
/// signature last registered under its name.
pub open spec fn check_items_spec(m: Module, items: Seq<Item>) -> Seq<Seq<char>>
    decreases items.len(),
{
    if items.len() == 0 {
        Seq::empty()
    } else {
        let prev = check_items_spec(m, items.drop_last());
        match items.last() {
            Item::Function(f) => match find_last(module_sigs(m.items@), f.name@) {
                Some(sig) => check_function_spec(fn_ctx(m, f, sig), f, prev),
                None => prev,
            },
            _ => prev,
        }
    }
}

/// All diagnostics of a module: those of its functions, in order, then the
/// exhaustiveness diagnostics.
pub open spec fn check_module_spec(m: Module) -> Seq<Seq<char>> {
    check_items_spec(m, m.items@) + exhaustiveness(m)
}

impl FunctionSig {
    /// The signature of a function.
    pub fn from_function(f: &Function) -> (s: FunctionSig)
        ensures
            s@ == sig_of(*f),
    {
        let ghost g = views(f.generics@);
        let mut params: Vec<(String, TypeRepr)> = Vec::new();
        let mut types: Vec<TypeRepr> = Vec::new();
        let mut i: usize = 0;
        while i < f.params.len()
            invariant
                i <= f.params.len(),
                g == views(f.generics@),
                field_tys_of(params@) == f.params@.take(i as int).map_values(|p: crate::syntax::ast::Param| (p.name@, parse_ty(p.ty, g))),
                tys_of(types@) == f.params@.take(i as int).map_values(|p: crate::syntax::ast::Param| parse_ty(p.ty, g)),
            decreases f.params.len() - i,
        {
            let t = parse_type_expr(&f.params[i].ty, &f.generics);
            let t2 = copy_repr(&t);
            let ghost p0 = params@;
            let ghost t0 = types@;
            params.push((copy_string(&f.params[i].name), t));
            types.push(t2);
            proof {
                assert(params@.drop_last() =~= p0);
                assert(types@.drop_last() =~= t0);
                let h = |p: crate::syntax::ast::Param| (p.name@, parse_ty(p.ty, g));
                let k = |p: crate::syntax::ast::Param| parse_ty(p.ty, g);
                assert(f.params@.take(i + 1).map_values(h) =~= f.params@.take(i as int).map_values(h).push(h(f.params@[i as int])));
                assert(f.params@.take(i + 1).map_values(k) =~= f.params@.take(i as int).map_values(k).push(k(f.params@[i as int])));
            }
            i = i + 1;
        }
        assert(f.params@.take(f.params.len() as int) =~= f.params@);
        let return_type = match &f.return_type {
            Some(t) => Some(parse_type_expr(t, &f.generics)),
            None => None,
        };
        let ret_copy = match &return_type {
            Some(t) => copy_repr(t),
            None => TypeRepr::Unit,
        };
        let s = FunctionSig {
            params,
            return_type,
            function_type: TypeRepr::Function {
                params: types,
                return_type: Box::new(ret_copy),
                effects: copy_strings(&f.effect_row),
            },
            effects: copy_strings(&f.effect_row),
        };
        proof {
            let sv = sig_of(*f);
            assert(sv.params.map_values(|p: (Seq<char>, Ty)| p.1) =~= f.params@.map_values(|p: crate::syntax::ast::Param| parse_ty(p.ty, g)));
        }
        s
    }

    /// A copy of the signature.
    pub fn copy(&self) -> (s: FunctionSig)
        ensures
            s@ == self@,
    {
        let mut params: Vec<(String, TypeRepr)> = Vec::new();
        let mut i: usize = 0;
        while i < self.params.len()
            invariant
                i <= self.params.len(),
                field_tys_of(params@) == field_tys_of(self.params@.take(i as int)),
            decreases self.params.len() - i,
        {
            let ghost p0 = params@;
            params.push((copy_string(&self.params[i].0), copy_repr(&self.params[i].1)));
            proof {
                assert(params@.drop_last() =~= p0);
                assert(self.params@.take(i + 1).drop_last() =~= self.params@.take(i as int));
            }
            i = i + 1;
        }
        assert(self.params@.take(self.params.len() as int) =~= self.params@);
        FunctionSig {
            params,
            return_type: match &self.return_type {
                Some(t) => Some(copy_repr(t)),
                None => None,
            },
            function_type: copy_repr(&self.function_type),
            effects: copy_strings(&self.effects),
        }
    }
}

impl VariantInfo {
    /// A copy of the variant.
    pub fn copy(&self) -> (v: VariantInfo)
        ensures
            v@ == self@,
    {
        VariantInfo { fields: copy_reprs(&self.fields), ty: copy_repr(&self.ty) }
    }
}


/// The signatures of the module's functions, in item order.
fn collect_signatures(m: &Module) -> (fs: Vec<(String, FunctionSig)>)
    ensures
        fn_entries(fs@) == module_sigs(m.items@),
{
    let mut fs: Vec<(String, FunctionSig)> = Vec::new();
    let mut i: usize = 0;
    assert(fn_entries(fs@) =~= Seq::<(Seq<char>, SigView)>::empty());
    while i < m.items.len()
        invariant
            i <= m.items.len(),
            fn_entries(fs@) == module_sigs(m.items@.take(i as int)),
        decreases m.items.len() - i,
    {
        let ghost p = m.items@.take(i + 1);
        assert(p.drop_last() =~= m.items@.take(i as int));
        assert(p.last() == m.items@[i as int]);
        match &m.items[i] {
            Item::Function(f) => {
                let ghost f0 = fs@;
                let entry = (copy_string(&f.name), FunctionSig::from_function(f));
                fs.push(entry);
                assert(fn_entries(fs@) =~= fn_entries(f0).push((f.name@, sig_of(*f))));
            },
            _ => {},
        }
        i = i + 1;
    }
    assert(m.items@.take(m.items.len() as int) =~= m.items@);
    fs
}

/// `path` followed by `a` and `b`.
fn extend_path(path: &Vec<String>, a: &String, b: &String) -> (r: Vec<String>)
    ensures
        views(r@) == views(path@) + seq![a@, b@],
{
    let mut r = copy_strings(path);
    let ghost r0 = views(r@);
    r.push(copy_string(a));
    let ghost r1 = views(r@);
    assert(r1 =~= r0.push(a@));
    r.push(copy_string(b));
    assert(views(r@) =~= r1.push(b@));
    assert(views(r@) =~= views(path@) + seq![a@, b@]);
    r
}

/// The sum type the alias declares.
fn alias_repr(ta: &TypeAlias) -> (t: TypeRepr)
    ensures
        t@ == alias_type(*ta),
{
    let mut args: Vec<TypeRepr> = Vec::new();
    let mut i: usize = 0;
    while i < ta.params.len()
        invariant
            i <= ta.params.len(),
            tys_of(args@) == ta.params@.take(i as int).map_values(|p: String| Ty::Generic(p@)),
        decreases ta.params.len() - i,
    {
        let ghost a0 = args@;
        let name = copy_string(&ta.params[i]);
        let ghost nv = name;
        args.push(TypeRepr::Generic(name));
        proof {
            assert(args@.drop_last() =~= a0);
            assert(args@.last() == TypeRepr::Generic(nv));
            assert(ty_of(args@.last()) == Ty::Generic(nv@));
            assert(tys_of(args@) == tys_of(a0).push(Ty::Generic(ta.params@[i as int]@)));
            let g = |p: String| Ty::Generic(p@);
            assert(ta.params@.take(i + 1).map_values(g) =~= ta.params@.take(i as int).map_values(g).push(g(ta.params@[i as int])));
        }
        i = i + 1;
    }
    assert(ta.params@.take(ta.params.len() as int) =~= ta.params@);
    let path = vec![copy_string(&ta.name)];
    assert(views(path@) =~= seq![ta.name@]);
    TypeRepr::Named(path, args)
}

/// Registers the variants `vars` of `ta`, each under its qualified, its
/// alias-relative and its bare path.
fn register_variants(module: &Vec<String>, ta: &TypeAlias, vars: &Vec<TypeVariant>, out: &mut Vec<(Vec<String>, VariantInfo)>)
    ensures
        variant_entries(final(out)@) == variant_entries(old(out)@) + alias_variants(views(module@), *ta, vars@),
{
    let ghost start = variant_entries(out@);
    let ghost mv = views(module@);
    let mut i: usize = 0;
    assert(alias_variants(mv, *ta, vars@.take(0)) =~= Seq::<(Seq<Seq<char>>, VariantView)>::empty());
    assert(start + Seq::<(Seq<Seq<char>>, VariantView)>::empty() =~= start);
    while i < vars.len()
        invariant
            i <= vars.len(),
            mv == views(module@),
            variant_entries(out@) == start + alias_variants(mv, *ta, vars@.take(i as int)),
        decreases vars.len() - i,
    {
        let v = &vars[i];
        let info = VariantInfo { fields: parse_type_exprs(&v.fields, &ta.params), ty: alias_repr(ta) };
        let ghost iv = info@;
        assert(iv == VariantView { fields: parse_tys(v.fields@, views(ta.params@)), ty: alias_type(*ta) });
        let full = extend_path(module, &ta.name, &v.name);
        let pair = extend_path(&Vec::new(), &ta.name, &v.name);
        let bare = vec![copy_string(&v.name)];
        assert(views(pair@) =~= seq![ta.name@, v.name@]) by {
            assert(views(Seq::<String>::empty()) =~= Seq::<Seq<char>>::empty());
        }
        assert(views(bare@) =~= seq![v.name@]);
        let ghost o0 = variant_entries(out@);
        let c1 = info.copy();
        let c2 = info.copy();
        out.push((full, c1));
        out.push((pair, c2));
        out.push((bare, info));
        proof {
            let added = seq![
                (mv + seq![ta.name@, v.name@], iv),
                (seq![ta.name@, v.name@], iv),
                (seq![v.name@], iv),
            ];
            assert(variant_entries(out@) =~= o0 + added);
            let p = vars@.take(i + 1);
            assert(p.drop_last() =~= vars@.take(i as int));
            assert(p.last() == vars@[i as int]);
            assert(alias_variants(mv, *ta, p) == alias_variants(mv, *ta, vars@.take(i as int)) + added);
            assert(start + alias_variants(mv, *ta, p) =~= (start + alias_variants(mv, *ta, vars@.take(i as int))) + added);
        }
        i = i + 1;
    }
    assert(vars@.take(vars.len() as int) =~= vars@);
}

/// The variants of the module's sum types, in item order.
fn collect_variants(m: &Module) -> (vs: Vec<(Vec<String>, VariantInfo)>)
    ensures
        variant_entries(vs@) == module_variants(views(m.name@), m.items@),
{
    let mut vs: Vec<(Vec<String>, VariantInfo)> = Vec::new();
    let mut i: usize = 0;
    assert(variant_entries(vs@) =~= Seq::<(Seq<Seq<char>>, VariantView)>::empty());
    while i < m.items.len()
        invariant
            i <= m.items.len(),
            variant_entries(vs@) == module_variants(views(m.name@), m.items@.take(i as int)),
        decreases m.items.len() - i,
    {
        let ghost p = m.items@.take(i + 1);
        assert(p.drop_last() =~= m.items@.take(i as int));
        assert(p.last() == m.items@[i as int]);
        match &m.items[i] {
            Item::TypeAlias(ta) => match &ta.value {
                TypeExpr::Sum(vars) => register_variants(&m.name, ta, vars, &mut vs),
                _ => {},
            },
            _ => {},
        }
        i = i + 1;
    }
    assert(m.items@.take(m.items.len() as int) =~= m.items@);
    vs
}


fn copy_sigs(fs: &Vec<(String, FunctionSig)>) -> (r: Vec<(String, FunctionSig)>)
    ensures
        fn_entries(r@) == fn_entries(fs@),
{
    let mut r: Vec<(String, FunctionSig)> = Vec::new();
    let mut i: usize = 0;
    while i < fs.len()
        invariant
            i <= fs.len(),
            fn_entries(r@) == fn_entries(fs@.take(i as int)),
        decreases fs.len() - i,
    {
        let ghost r0 = r@;
        r.push((copy_string(&fs[i].0), fs[i].1.copy()));
        assert(fn_entries(r@) =~= fn_entries(r0).push((fs@[i as int].0@, fs@[i as int].1@)));
        assert(fs@.take(i + 1) =~= fs@.take(i as int).push(fs@[i as int]));
        assert(fn_entries(fs@.take(i + 1)) =~= fn_entries(fs@.take(i as int)).push((fs@[i as int].0@, fs@[i as int].1@)));
        i = i + 1;
    }
    assert(fs@.take(fs.len() as int) =~= fs@);
    r
}

fn copy_variants(vs: &Vec<(Vec<String>, VariantInfo)>) -> (r: Vec<(Vec<String>, VariantInfo)>)
    ensures
        variant_entries(r@) == variant_entries(vs@),
{
    let mut r: Vec<(Vec<String>, VariantInfo)> = Vec::new();
    let mut i: usize = 0;
    while i < vs.len()
        invariant
            i <= vs.len(),
            variant_entries(r@) == variant_entries(vs@.take(i as int)),
        decreases vs.len() - i,
    {
        let ghost r0 = r@;
        r.push((copy_strings(&vs[i].0), vs[i].1.copy()));
        let ghost e = (views(vs@[i as int].0@), vs@[i as int].1@);
        assert(variant_entries(r@) =~= variant_entries(r0).push(e));
        assert(vs@.take(i + 1) =~= vs@.take(i as int).push(vs@[i as int]));
        assert(variant_entries(vs@.take(i + 1)) =~= variant_entries(vs@.take(i as int)).push(e));
        i = i + 1;
    }
    assert(vs@.take(vs.len() as int) =~= vs@);
    r
}

/// Whether `v[i]` already occurs before position `i`.
fn occurs_before(v: &Vec<String>, i: usize) -> (r: bool)
    requires
        i < v.len(),
    ensures
        r == views(v@).take(i as int).contains(v@[i as int]@),
{
    let ghost p = views(v@).take(i as int);
    let mut k: usize = 0;
    while k < i
        invariant
            k <= i < v.len(),
            p == views(v@).take(i as int),
            forall|j: int| 0 <= j < k ==> v@[j]@ != v@[i as int]@,
        decreases i - k,
    {
        if crate::text::str_eq(v[k].as_str(), v[i].as_str()) {
            assert(p[k as int] == v@[i as int]@);
            return true;
        }
        k = k + 1;
    }
    proof {
        if p.contains(v@[i as int]@) {
            let j = choose|j: int| 0 <= j < p.len() && p[j] == v@[i as int]@;
            assert(v@[j]@ == v@[i as int]@);
        }
    }
    false
}

/// Checks one function with its signature against the module's tables and
/// appends what it finds to `diags`.
#[verifier::rlimit(40)]
fn check_function(
    m: &Module,
    f: &Function,
    sig: &FunctionSig,
    functions: &Vec<(String, FunctionSig)>,
    variants: &Vec<(Vec<String>, VariantInfo)>,
    diags: Vec<Diagnostic>,
) -> (out: Vec<Diagnostic>)
    requires
        fn_entries(functions@) == module_sigs(m.items@),
        variant_entries(variants@) == module_variants(views(m.name@), m.items@),
    ensures
        messages(out@) == check_function_spec(fn_ctx(*m, *f, sig@), *f, messages(diags@)),
{
    let s = sig.copy();
    let c = CheckCtx {
        name: copy_string(&f.name),
        params: s.params,
        return_type: s.return_type,
        effects: s.effects,
        module: copy_strings(&m.name),
        functions: copy_sigs(functions),
        variants: copy_variants(variants),
    };
    let ghost cx = c.ctx();
    assert(cx == fn_ctx(*m, *f, sig@));
    let mut st = CheckState { scopes: vec![Vec::new()], diagnostics: diags };
    assert(st.st() == St { scopes: seq![Seq::empty()], diags: messages(diags@) }) by {
        assert(field_tys_of(Seq::<(String, TypeRepr)>::empty()) =~= Seq::<(Seq<char>, Ty)>::empty());
        assert(scope_views(st.scopes@) =~= seq![Seq::<(Seq<char>, Ty)>::empty()]);
    }
    let ghost st0 = st.st();
    proof {
        assert(cx.effects.take(0) =~= Seq::<Seq<char>>::empty());
        assert(cx.params.take(0) =~= Seq::<(Seq<char>, Ty)>::empty());
        lemma_field_tys_of(c.params@);
    }
    let mut i: usize = 0;
    while i < c.effects.len()
        invariant
            i <= c.effects.len(),
            cx == c.ctx(),
            st.st() == dup_caps_spec(cx, st0, cx.effects.take(i as int)),
        decreases c.effects.len() - i,
    {
        let ghost p = cx.effects.take(i + 1);
        assert(p.drop_last() =~= cx.effects.take(i as int));
        assert(p.last() == c.effects@[i as int]@);
        assert(cx.effects.take(i as int) == views(c.effects@).take(i as int));
        if occurs_before(&c.effects, i) {
            let mut msg = msg2("function ", c.name.as_str(), " has duplicate capability ", c.effects[i].as_str());
            push_str(&mut msg, " in effect row");
            st.diag(msg);
        }
        i = i + 1;
    }
    assert(cx.effects.take(cx.effects.len() as int) =~= cx.effects);
    let ghost st1 = st.st();
    i = 0;
    while i < c.params.len()
        invariant
            i <= c.params.len(),
            cx == c.ctx(),
            cx.params.len() == c.params.len(),
            forall|k: int| 0 <= k < c.params.len() ==> cx.params[k] == (c.params@[k].0@, c.params@[k].1@),
            st.st() == bind_params_spec(st1, cx.params.take(i as int)),
        decreases c.params.len() - i,
    {
        let ghost p = cx.params.take(i + 1);
        assert(p.drop_last() =~= cx.params.take(i as int));
        assert(p.last() == cx.params[i as int]);
        st.bind(c.params[i].0.as_str(), copy_repr(&c.params[i].1));
        i = i + 1;
    }
    assert(cx.params.take(cx.params.len() as int) =~= cx.params);
    let ghost st2 = st.st();
    i = 0;
    while i < c.effects.len()
        invariant
            i <= c.effects.len(),
            cx == c.ctx(),
            st.st() == missing_caps_spec(cx, st2, cx.effects.take(i as int)),
        decreases c.effects.len() - i,
    {
        let ghost p = cx.effects.take(i + 1);
        assert(p.drop_last() =~= cx.effects.take(i as int));
        assert(p.last() == c.effects@[i as int]@);
        if !has_capability(&c, &st, c.effects[i].as_str()) {
            let mut msg = msg2("function ", c.name.as_str(), " declares capability ", c.effects[i].as_str());
            push_str(&mut msg, " but has no parameter with that name");
            st.diag(msg);
        }
        i = i + 1;
    }
    assert(cx.effects.take(cx.effects.len() as int) =~= cx.effects);
    let bt = check_block(&c, &mut st, &f.body);
    match &c.return_type {
        Some(expected) => match &bt {
            Some(actual) => if !types_compatible(expected, actual) {
                let mut msg = msg2("function ", c.name.as_str(), " returns ", describe_type(actual).as_str());
                push_str(&mut msg, " but expected ");
                push_q(&mut msg, describe_type(expected).as_str());
                st.diag(msg);
            },
            None => {},
        },
        None => match &bt {
            Some(actual) => {
                let plain = match actual {
                    TypeRepr::Unit => true,
                    TypeRepr::Unknown => true,
                    _ => false,
                };
                if !plain {
                    let mut msg = msg2("function ", c.name.as_str(), " returns value of type ", describe_type(actual).as_str());
                    push_str(&mut msg, " but is declared without return type");
                    st.diag(msg);
                }
            },
            None => {},
        },
    }
    st.diagnostics
}

/// Type-checks every function of the module against the signatures and
/// variants the module declares, then checks its matches for
/// exhaustiveness.
pub fn check_module(module: &Module) -> (r: CheckResult)
    ensures
        messages(r.diagnostics@) == check_module_spec(*module),
{
    let functions = collect_signatures(module);
    let variants = collect_variants(module);
    let mut diags: Vec<Diagnostic> = Vec::new();
    let mut i: usize = 0;
    assert(messages(diags@) =~= Seq::<Seq<char>>::empty());
    while i < module.items.len()
        invariant
            i <= module.items.len(),
            fn_entries(functions@) == module_sigs(module.items@),
            variant_entries(variants@) == module_variants(views(module.name@), module.items@),
            messages(diags@) == check_items_spec(*module, module.items@.take(i as int)),
        decreases module.items.len() - i,
    {
        let ghost p = module.items@.take(i + 1);
        assert(p.drop_last() =~= module.items@.take(i as int));
        assert(p.last() == module.items@[i as int]);
        match &module.items[i] {
            Item::Function(f) => match find_sig(&functions, f.name.as_str()) {
                Some(sig) => {
                    diags = check_function(module, f, sig, &functions, &variants, diags);
                },
                None => {},
            },
            _ => {},
        }
        i = i + 1;
    }
    assert(module.items@.take(module.items.len() as int) =~= module.items@);
    let ghost d0 = diags@;
    let mut ex = check_exhaustiveness(module);
    let ghost e0 = ex@;
    diags.append(&mut ex);
    assert(messages(diags@) =~= messages(d0) + messages(e0));
    CheckResult { diagnostics: diags }
}

} // verus!
