//! A back end that emits portable C source for a module, with a small
//! runtime that checks the capabilities a program declares.
use vstd::prelude::*;

use super::{concat_results, Backend, BackendError, BackendOptions, Rendered, SpecBackendError};
use crate::ir::{
    BasicBlock, FuncRef, Function, InstKind, Instruction, Module, SpecField, SpecRecord,
    SpecType, Terminator, Type, TypeId, ValueId,
};
use crate::syntax::ast::{binary_symbol, Literal, Path};
use crate::text::{
    bool_text, chars_of, concat, int_text, join, lemma_concat_push, lemma_join_push, nat_digits,
    push_char, push_int, push_nat, push_str, sort_texts, to_owned_string, views,
};

verus! {

/// The back end producing C source.
#[derive(Debug)]
pub struct NativeBackend;

/// The generated C source of a module, and the module's name joined by `_`.
#[derive(Debug)]
pub struct NativeArtifact {
    pub c_source: String,
    pub module_name: String,
}

// ---------------------------------------------------------------------------
// Identifiers and literals
// ---------------------------------------------------------------------------

pub open spec fn is_ascii_digit(c: char) -> bool {
    '0' <= c && c <= '9'
}

pub open spec fn is_ascii_alnum(c: char) -> bool {
    is_ascii_digit(c) || ('a' <= c && c <= 'z') || ('A' <= c && c <= 'Z')
}

/// A character kept in a C identifier, or `_` in its place.
pub open spec fn ident_char(c: char) -> char {
    if is_ascii_alnum(c) || c == '_' {
        c
    } else {
        '_'
    }
}

/// A C identifier made of `s`: other characters than ASCII letters, digits
/// and `_` become `_`; an empty result becomes `_`; a leading digit gets a
/// `_` before it.
pub open spec fn sanitize(s: Seq<char>) -> Seq<char> {
    let r = s.map_values(|c: char| ident_char(c));
    let r = if r.len() == 0 {
        seq!['_']
    } else {
        r
    };
    if is_ascii_digit(r[0]) {
        seq!['_'] + r
    } else {
        r
    }
}

/// `s` with each `::` (left to right) replaced by `_`.
pub open spec fn replace_colons(s: Seq<char>) -> Seq<char>
    decreases s.len(),
{
    if s.len() == 0 {
        Seq::empty()
    } else if s.len() >= 2 && s[0] == ':' && s[1] == ':' {
        seq!['_'] + replace_colons(s.subrange(2, s.len() as int))
    } else {
        seq![s[0]] + replace_colons(s.drop_first())
    }
}

/// The C name of a Mica function.
pub open spec fn mangle(s: Seq<char>) -> Seq<char> {
    sanitize(replace_colons(s))
}

/// C string-literal escape of one character.
pub open spec fn c_escape_char(c: char) -> Seq<char> {
    if c == '\\' {
        seq!['\\', '\\']
    } else if c == '"' {
        seq!['\\', '"']
    } else if c == '\n' {
        seq!['\\', 'n']
    } else if c == '\r' {
        seq!['\\', 'r']
    } else if c == '\t' {
        seq!['\\', 't']
    } else {
        seq![c]
    }
}

/// C string-literal escape.
pub open spec fn c_escape(s: Seq<char>) -> Seq<char>
    decreases s.len(),
{
    if s.len() == 0 {
        Seq::empty()
    } else {
        c_escape(s.drop_last()) + c_escape_char(s.last())
    }
}

fn ident_char_of(c: char) -> (r: char)
    ensures
        r == ident_char(c),
{
    if ('0' <= c && c <= '9') || ('a' <= c && c <= 'z') || ('A' <= c && c <= 'Z') || c == '_' {
        c
    } else {
        '_'
    }
}

/// The C identifier made of `name`.
pub fn sanitize_identifier(name: &str) -> (s: String)
    ensures
        s@ == sanitize(name@),
{
    let v = chars_of(name);
    let mut r: Vec<char> = Vec::new();
    let mut i: usize = 0;
    while i < v.len()
        invariant
            i <= v@.len(),
            v@ == name@,
            r@ == name@.take(i as int).map_values(|c: char| ident_char(c)),
        decreases v.len() - i,
    {
        r.push(ident_char_of(v[i]));
        assert(name@.take(i + 1).map_values(|c: char| ident_char(c)) =~= name@.take(i as int).map_values(|c: char| ident_char(c)).push(ident_char(v@[i as int])));
        i = i + 1;
    }
    assert(name@.take(v.len() as int) =~= name@);
    if r.len() == 0 {
        r.push('_');
    }
    let mut s = String::new();
    if '0' <= r[0] && r[0] <= '9' {
        push_char(&mut s, '_');
    }
    let mut k: usize = 0;
    let ghost base = s@;
    while k < r.len()
        invariant
            k <= r@.len(),
            s@ == base + r@.take(k as int),
        decreases r.len() - k,
    {
        push_char(&mut s, r[k]);
        assert(r@.take(k + 1) =~= r@.take(k as int).push(r@[k as int]));
        k = k + 1;
    }
    assert(r@.take(r.len() as int) =~= r@);
    assert(s@ =~= sanitize(name@));
    s
}

/// The C name of the Mica function `name`.
pub fn mangle_name(name: &str) -> (s: String)
    ensures
        s@ == mangle(name@),
{
    let v = chars_of(name);
    let mut out = String::new();
    let mut i: usize = 0;
    assert(v@.subrange(0, v@.len() as int) =~= v@);
    while i < v.len()
        invariant
            i <= v@.len(),
            v@ == name@,
            out@ + replace_colons(v@.subrange(i as int, v@.len() as int)) == replace_colons(v@),
        decreases v.len() - i,
    {
        let ghost rest = v@.subrange(i as int, v@.len() as int);
        let ghost out0 = out@;
        if i + 1 < v.len() && v[i] == ':' && v[i + 1] == ':' {
            push_char(&mut out, '_');
            proof {
                assert(rest.subrange(2, rest.len() as int) =~= v@.subrange(i + 2, v@.len() as int));
                assert(replace_colons(rest) == seq!['_'] + replace_colons(rest.subrange(2, rest.len() as int)));
                assert(out@ + replace_colons(v@.subrange(i + 2, v@.len() as int)) =~= out0 + replace_colons(rest));
            }
            i = i + 2;
        } else {
            push_char(&mut out, v[i]);
            proof {
                assert(rest.drop_first() =~= v@.subrange(i + 1, v@.len() as int));
                assert(replace_colons(rest) == seq![rest[0]] + replace_colons(rest.drop_first()));
                assert(out@ + replace_colons(v@.subrange(i + 1, v@.len() as int)) =~= out0 + replace_colons(rest));
            }
            i = i + 1;
        }
    }
    assert(v@.subrange(i as int, v@.len() as int) =~= Seq::<char>::empty());
    assert(out@ =~= replace_colons(v@));
    sanitize_identifier(out.as_str())
}

/// Appends the C escape of `t`.
pub fn push_c_escaped(out: &mut String, t: &str)
    ensures
        final(out)@ == old(out)@ + c_escape(t@),
{
    let v = chars_of(t);
    let ghost start = out@;
    let mut i: usize = 0;
    while i < v.len()
        invariant
            i <= v@.len(),
            v@ == t@,
            out@ == start + c_escape(t@.take(i as int)),
        decreases v.len() - i,
    {
        let c = v[i];
        if c == '\\' {
            push_str(out, "\\\\");
        } else if c == '"' {
            push_str(out, "\\\"");
        } else if c == '\n' {
            push_str(out, "\\n");
        } else if c == '\r' {
            push_str(out, "\\r");
        } else if c == '\t' {
            push_str(out, "\\t");
        } else {
            push_char(out, c);
        }
        proof {
            reveal_strlit("\\\\");
            reveal_strlit("\\\"");
            reveal_strlit("\\n");
            reveal_strlit("\\r");
            reveal_strlit("\\t");
            assert(t@.take(i + 1).drop_last() =~= t@.take(i as int));
            assert(out@ =~= start + c_escape(t@.take(i + 1)));
        }
        i = i + 1;
    }
    assert(t@.take(v.len() as int) =~= t@);
}

/// The C escape of `t`.
pub fn escape_string(t: &str) -> (s: String)
    ensures
        s@ == c_escape(t@),
{
    let mut s = String::new();
    push_c_escaped(&mut s, t);
    assert(s@ =~= c_escape(t@));
    s
}

/// The C variable holding value `v`.
pub open spec fn var_name(v: ValueId) -> Seq<char> {
    "v"@ + nat_digits(v.0 as nat)
}

fn push_var(out: &mut String, v: ValueId)
    ensures
        final(out)@ == old(out)@ + var_name(v),
{
    push_str(out, "v");
    push_nat(out, v.0 as u64);
    assert(final(out)@ =~= old(out)@ + var_name(v));
}

/// The C variable holding value `v`.
pub fn value_name(v: ValueId) -> (s: String)
    ensures
        s@ == var_name(v),
{
    let mut s = String::new();
    push_var(&mut s, v);
    assert(s@ =~= var_name(v));
    s
}

/// The C text of a literal; a floating-point literal is written as its
/// source text.
pub open spec fn literal_c(l: Literal) -> Seq<char> {
    match l {
        Literal::Int(v) => int_text(v as int),
        Literal::Float(t) => t@,
        Literal::Bool(b) => bool_text(b),
        Literal::String(s) => "\""@ + c_escape(s@) + "\""@,
        Literal::Unit => "0"@,
    }
}

/// Appends the C text of a literal.
pub fn literal(out: &mut String, l: &Literal)
    ensures
        final(out)@ == old(out)@ + literal_c(*l),
{
    match l {
        Literal::Int(v) => push_int(out, *v),
        Literal::Float(t) => push_str(out, t.as_str()),
        Literal::Bool(b) => {
            if *b {
                push_str(out, "true");
            } else {
                push_str(out, "false");
            }
        },
        Literal::String(s) => {
            push_str(out, "\"");
            push_c_escaped(out, s.as_str());
            push_str(out, "\"");
        },
        Literal::Unit => push_str(out, "0"),
    }
    assert(final(out)@ =~= old(out)@ + literal_c(*l));
}

// ---------------------------------------------------------------------------
// Types
// ---------------------------------------------------------------------------

/// The C name of the record type with id `ty`.
pub open spec fn record_name_c(r: SpecRecord, ty: TypeId) -> Seq<char> {
    "record_"@ + match r.name {
        Some(n) => sanitize(n),
        None => "anon_"@ + nat_digits(ty.0 as nat),
    }
}

/// The C type of a value of type `ty`.
pub open spec fn c_type(m: Module, ty: TypeId) -> Seq<char> {
    match m.types.spec_get(ty) {
        SpecType::String => "const char *"@,
        SpecType::Float => "double"@,
        SpecType::Bool => "bool"@,
        SpecType::Record(r) => record_name_c(r, ty),
        _ => "int64_t"@,
    }
}

/// The C return type for `ty`.
pub open spec fn c_return_type(m: Module, ty: TypeId) -> Seq<char> {
    if m.types.spec_get(ty) == SpecType::Unit {
        "void"@
    } else {
        c_type(m, ty)
    }
}

/// The C value a variable of type `ty` starts from.
pub open spec fn default_value_c(m: Module, ty: TypeId) -> Seq<char> {
    match m.types.spec_get(ty) {
        SpecType::Bool => "false"@,
        SpecType::Float => "0.0"@,
        SpecType::String => "NULL"@,
        SpecType::Record(_) => "("@ + c_type(m, ty) + "){0}"@,
        _ => "0"@,
    }
}

/// The C value returned when a function of return type `ty` falls off its
/// end (none for `Unit`).
pub open spec fn default_return_c(m: Module, ty: TypeId) -> Option<Seq<char>> {
    if m.types.spec_get(ty) == SpecType::Unit {
        None
    } else {
        Some(default_value_c(m, ty))
    }
}

fn push_record_name(out: &mut String, r: &crate::ir::RecordType, ty: TypeId)
    ensures
        final(out)@ == old(out)@ + record_name_c(r@, ty),
{
    push_str(out, "record_");
    match &r.name {
        Some(n) => push_str(out, sanitize_identifier(n.as_str()).as_str()),
        None => {
            push_str(out, "anon_");
            push_nat(out, ty.0 as u64);
        },
    }
    assert(final(out)@ =~= old(out)@ + record_name_c(r@, ty));
}

/// Appends the C type of a value of type `ty`.
pub fn c_type_value(out: &mut String, m: &Module, ty: TypeId)
    requires
        m.types.valid_id(ty),
    ensures
        final(out)@ == old(out)@ + c_type(*m, ty),
{
    match m.type_of(ty) {
        Type::String => push_str(out, "const char *"),
        Type::Float => push_str(out, "double"),
        Type::Bool => push_str(out, "bool"),
        Type::Record(r) => push_record_name(out, r, ty),
        _ => push_str(out, "int64_t"),
    }
}

/// Appends the C return type for `ty`.
pub fn c_type_return(out: &mut String, m: &Module, ty: TypeId)
    requires
        m.types.valid_id(ty),
    ensures
        final(out)@ == old(out)@ + c_return_type(*m, ty),
{
    match m.type_of(ty) {
        Type::Unit => push_str(out, "void"),
        _ => c_type_value(out, m, ty),
    }
}

/// Appends the C value a variable of type `ty` starts from.
pub fn default_value(out: &mut String, m: &Module, ty: TypeId)
    requires
        m.types.valid_id(ty),
    ensures
        final(out)@ == old(out)@ + default_value_c(*m, ty),
{
    match m.type_of(ty) {
        Type::Bool => push_str(out, "false"),
        Type::Float => push_str(out, "0.0"),
        Type::String => push_str(out, "NULL"),
        Type::Record(_) => {
            push_str(out, "(");
            c_type_value(out, m, ty);
            push_str(out, "){0}");
        },
        _ => push_str(out, "0"),
    }
    assert(final(out)@ =~= old(out)@ + default_value_c(*m, ty));
}

/// Appends the line returning the default of `ty` from a function.
fn default_return(out: &mut String, m: &Module, ty: TypeId)
    requires
        m.types.valid_id(ty),
    ensures
        final(out)@ == old(out)@ + match default_return_c(*m, ty) {
            Some(e) => "  return "@ + e + ";\n"@,
            None => "  return;\n"@,
        },
{
    match m.type_of(ty) {
        Type::Unit => push_str(out, "  return;\n"),
        _ => {
            push_str(out, "  return ");
            default_value(out, m, ty);
            push_str(out, ";\n");
        },
    }
    assert(final(out)@ =~= old(out)@ + match default_return_c(*m, ty) {
        Some(e) => "  return "@ + e + ";\n"@,
        None => "  return;\n"@,
    });
}


// ---------------------------------------------------------------------------
// Instructions
// ---------------------------------------------------------------------------

pub open spec fn join_vars(args: Seq<ValueId>) -> Seq<char> {
    join(args.map_values(|a: ValueId| var_name(a)), ", "@)
}

/// The Mica name a call refers to: a path joined by `_`, or a method name.
pub open spec fn call_name(f: FuncRef) -> Seq<char> {
    match f {
        FuncRef::Function(p) => join(views(p.segments@), "_"@),
        FuncRef::Method(n) => n@,
    }
}

/// The C of a call to a method the runtime provides itself: `println` and
/// `write_line` (which need a value argument after the receiver) and
/// `now_millis`; none for other names.
pub open spec fn runtime_method_c(m: Module, name: Seq<char>, args: Seq<ValueId>, ty: TypeId, var: Seq<char>) -> Option<Rendered> {
    if name == "println"@ || name == "write_line"@ {
        if args.len() < 2 {
            Some(Err(SpecBackendError::Internal("method '"@ + name + "' expected value argument"@)))
        } else {
            Some(
                Ok(
                    "  mica_runtime_initialize();\n"@ + "  mica_runtime_require_capability(\""@
                        + c_escape("io"@) + "\");\n"@ + "  mica_runtime_io_write_line("@ + var_name(
                        args[1],
                    ) + ");\n"@ + "  "@ + c_type(m, ty) + " "@ + var + " = 0;\n"@,
                ),
            )
        }
    } else if name == "now_millis"@ {
        Some(
            Ok(
                "  mica_runtime_initialize();\n"@ + "  mica_runtime_require_capability(\""@
                    + c_escape("time"@) + "\");\n"@ + "  "@ + c_type(m, ty) + " "@ + var
                    + " = mica_runtime_time_now_millis();\n"@,
            ),
        )
    } else {
        None
    }
}

/// The value given to the first literal field called `name`.
pub open spec fn lit_value(lits: Seq<(Seq<char>, ValueId)>, name: Seq<char>) -> Option<ValueId>
    decreases lits.len(),
{
    if lits.len() == 0 {
        None
    } else if lits[0].0 == name {
        Some(lits[0].1)
    } else {
        lit_value(lits.drop_first(), name)
    }
}

/// The first record field, from `k` on, that the literal does not give.
pub open spec fn first_missing(rf: Seq<SpecField>, lits: Seq<(Seq<char>, ValueId)>, k: int) -> Option<int>
    decreases rf.len() - k,
{
    if k < 0 || k >= rf.len() {
        None
    } else if lit_value(lits, rf[k].name) is None {
        Some(k)
    } else {
        first_missing(rf, lits, k + 1)
    }
}

/// The first literal field, from `j` on, that the record does not have.
pub open spec fn first_unknown(rf: Seq<SpecField>, lits: Seq<(Seq<char>, ValueId)>, j: int) -> Option<int>
    decreases lits.len() - j,
{
    if j < 0 || j >= lits.len() {
        None
    } else if crate::ir::first_field_index(rf, lits[j].0) is None {
        Some(j)
    } else {
        first_unknown(rf, lits, j + 1)
    }
}

pub open spec fn record_label(r: SpecRecord) -> Seq<char> {
    match r.name {
        Some(n) => n,
        None => "<anonymous record>"@,
    }
}

pub open spec fn init_c(f: SpecField, lits: Seq<(Seq<char>, ValueId)>) -> Seq<char> {
    "."@ + sanitize(f.name) + " = "@ + var_name(lit_value(lits, f.name)->0)
}

/// The C of a record literal of type `ty` with the fields `lits`.
pub open spec fn record_c(m: Module, r: SpecRecord, ty: TypeId, var: Seq<char>, lits: Seq<(Seq<char>, ValueId)>) -> Rendered {
    match first_missing(r.fields, lits, 0) {
        Some(k) => Err(
            SpecBackendError::Unsupported(
                "record literal for '"@ + record_label(r) + "' is missing field '"@ + r.fields[k].name
                    + "'"@,
            ),
        ),
        None => match first_unknown(r.fields, lits, 0) {
            Some(j) => Err(
                SpecBackendError::Unsupported(
                    "record literal references unknown field '"@ + lits[j].0 + "'"@,
                ),
            ),
            None => {
                let t = c_type(m, ty);
                if r.fields.len() == 0 {
                    Ok("  "@ + t + " "@ + var + " = ("@ + t + "){0};\n"@)
                } else {
                    Ok(
                        "  "@ + t + " "@ + var + " = ("@ + t + "){ "@ + join(
                            r.fields.map_values(|f: SpecField| init_c(f, lits)),
                            ", "@,
                        ) + " };\n"@,
                    )
                }
            },
        },
    }
}

pub open spec fn lit_views(fields: Seq<(String, ValueId)>) -> Seq<(Seq<char>, ValueId)> {
    fields.map_values(|f: (String, ValueId)| (f.0@, f.1))
}

/// The C of a call whose result goes to `var`, of type `ty`.
pub open spec fn call_c(m: Module, ty: TypeId, var: Seq<char>, func: FuncRef, args: Seq<ValueId>) -> Rendered {
    let t = c_type(m, ty);
    let special = match func {
        FuncRef::Method(n) => runtime_method_c(m, n@, args, ty, var),
        FuncRef::Function(_) => None,
    };
    match special {
        Some(r) => r,
        None => {
            let name = mangle(call_name(func));
            let a = join_vars(args);
            if m.types.spec_get(ty) == SpecType::Unit {
                Ok("  "@ + name + "("@ + a + ");\n"@ + "  "@ + t + " "@ + var + " = 0;\n"@)
            } else {
                Ok("  "@ + t + " "@ + var + " = "@ + name + "("@ + a + ");\n"@)
            }
        },
    }
}

/// The C of an instruction other than a phi.
#[verifier::opaque]
pub open spec fn inst_c(m: Module, inst: Instruction) -> Rendered {
    let ty = inst.ty;
    let var = var_name(inst.id);
    let t = c_type(m, ty);
    match inst.kind {
        InstKind::Literal(l) => Ok("  "@ + t + " "@ + var + " = "@ + literal_c(l) + ";\n"@),
        InstKind::Binary { op, lhs, rhs } => Ok(
            "  "@ + t + " "@ + var + " = "@ + var_name(lhs) + " "@ + binary_symbol(op) + " "@
                + var_name(rhs) + ";\n"@,
        ),
        InstKind::Call { func, args } => call_c(m, ty, var, func, args@),
        InstKind::Record { fields, .. } => match m.types.spec_get(ty) {
            SpecType::Record(r) => record_c(m, r, ty, var, lit_views(fields@)),
            _ => Err(SpecBackendError::Internal("record literal lowered with non-record type"@)),
        },
        InstKind::Path(p) => Err(
            SpecBackendError::Unsupported(
                "path expression '"@ + join(views(p.segments@), "::"@)
                    + "' cannot be lowered by the native backend yet"@,
            ),
        ),
        InstKind::Phi { .. } => Ok(Seq::empty()),
    }
}

fn push_vars(out: &mut String, args: &Vec<ValueId>)
    ensures
        final(out)@ == old(out)@ + join_vars(args@),
{
    let ghost start = out@;
    let mut i: usize = 0;
    while i < args.len()
        invariant
            i <= args.len(),
            out@ == start + join(args@.take(i as int).map_values(|a: ValueId| var_name(a)), ", "@),
        decreases args.len() - i,
    {
        if i > 0 {
            push_str(out, ", ");
        }
        push_var(out, args[i]);
        proof {
            let f = |a: ValueId| var_name(a);
            assert(args@.take(i + 1).map_values(f) =~= args@.take(i as int).map_values(f).push(f(args@[i as int])));
            lemma_join_push(args@.take(i as int).map_values(f), ", "@, f(args@[i as int]));
        }
        i = i + 1;
    }
    assert(args@.take(args.len() as int) =~= args@);
}

fn str_is(a: &str, b: &str) -> (r: bool)
    ensures
        r == (a@ == b@),
{
    crate::text::str_eq(a, b)
}

/// Appends the C of a runtime-provided method call; `Ok(false)` when `name`
/// is not such a method.
fn emit_runtime_method(out: &mut String, m: &Module, name: &str, args: &Vec<ValueId>, ty: TypeId, id: ValueId) -> (r: Result<bool, BackendError>)
    requires
        m.types.valid_id(ty),
    ensures
        match runtime_method_c(*m, name@, args@, ty, var_name(id)) {
            None => r == Ok::<bool, BackendError>(false) && final(out)@ == old(out)@,
            Some(Ok(text)) => r == Ok::<bool, BackendError>(true) && final(out)@ == old(out)@ + text,
            Some(Err(e)) => r matches Err(x) && x@ == e && final(out)@ == old(out)@,
        },
{
    if str_is(name, "println") || str_is(name, "write_line") {
        if args.len() < 2 {
            let mut msg = String::new();
            push_str(&mut msg, "method '");
            push_str(&mut msg, name);
            push_str(&mut msg, "' expected value argument");
            assert(msg@ =~= "method '"@ + name@ + "' expected value argument"@);
            return Err(BackendError::Internal(msg));
        }
        push_str(out, "  mica_runtime_initialize();\n");
        push_str(out, "  mica_runtime_require_capability(\"");
        push_c_escaped(out, "io");
        push_str(out, "\");\n");
        push_str(out, "  mica_runtime_io_write_line(");
        push_var(out, args[1]);
        push_str(out, ");\n");
        push_str(out, "  ");
        c_type_value(out, m, ty);
        push_str(out, " ");
        push_var(out, id);
        push_str(out, " = 0;\n");
        assert(final(out)@ =~= old(out)@ + runtime_method_c(*m, name@, args@, ty, var_name(id))->0->Ok_0);
        Ok(true)
    } else if str_is(name, "now_millis") {
        push_str(out, "  mica_runtime_initialize();\n");
        push_str(out, "  mica_runtime_require_capability(\"");
        push_c_escaped(out, "time");
        push_str(out, "\");\n");
        push_str(out, "  ");
        c_type_value(out, m, ty);
        push_str(out, " ");
        push_var(out, id);
        push_str(out, " = mica_runtime_time_now_millis();\n");
        assert(final(out)@ =~= old(out)@ + runtime_method_c(*m, name@, args@, ty, var_name(id))->0->Ok_0);
        Ok(true)
    } else {
        Ok(false)
    }
}


pub(crate) proof fn lemma_no_missing(rf: Seq<SpecField>, lits: Seq<(Seq<char>, ValueId)>, k: int)
    requires
        0 <= k,
        first_missing(rf, lits, k) is None,
    ensures
        forall|x: int| k <= x < rf.len() ==> lit_value(lits, (#[trigger] rf[x]).name) is Some,
    decreases rf.len() - k,
{
    if k < rf.len() {
        lemma_no_missing(rf, lits, k + 1);
    }
}

pub(crate) fn find_lit(lits: &Vec<(String, ValueId)>, name: &str) -> (r: Option<ValueId>)
    ensures
        r == lit_value(lit_views(lits@), name@),
{
    let ghost all = lit_views(lits@);
    let mut i: usize = 0;
    assert(all.subrange(0, all.len() as int) =~= all);
    while i < lits.len()
        invariant
            i <= lits.len(),
            all == lit_views(lits@),
            lit_value(all, name@) == lit_value(all.subrange(i as int, all.len() as int), name@),
        decreases lits.len() - i,
    {
        let ghost rest = all.subrange(i as int, all.len() as int);
        assert(rest[0] == (lits@[i as int].0@, lits@[i as int].1));
        if str_is(lits[i].0.as_str(), name) {
            return Some(lits[i].1);
        }
        assert(rest.drop_first() =~= all.subrange(i + 1, all.len() as int));
        i = i + 1;
    }
    None
}

fn fail_unsupported(before: &str, middle: &str, after: &str) -> (e: BackendError)
    ensures
        e@ == SpecBackendError::Unsupported(before@ + middle@ + after@),
{
    let mut msg = String::new();
    push_str(&mut msg, before);
    push_str(&mut msg, middle);
    push_str(&mut msg, after);
    assert(msg@ =~= before@ + middle@ + after@);
    BackendError::Unsupported(msg)
}

/// Appends the C of a record literal.
#[verifier::spinoff_prover]
#[verifier::rlimit(60)]
fn emit_record(out: &mut String, m: &Module, r: &crate::ir::RecordType, ty: TypeId, id: ValueId, fields: &Vec<(String, ValueId)>) -> (res: Result<(), BackendError>)
    requires
        m.types.wf(),
        m.types.valid_id(ty),
        m.types.spec_get(ty) == SpecType::Record(r@),
    ensures
        match record_c(*m, r@, ty, var_name(id), lit_views(fields@)) {
            Ok(text) => res is Ok && final(out)@ == old(out)@ + text,
            Err(e) => res matches Err(x) && x@ == e && final(out)@ == old(out)@,
        },
{
    let ghost lits = lit_views(fields@);
    let ghost rf = r@.fields;
    let mut k: usize = 0;
    while k < r.fields.len()
        invariant
            k <= r.fields.len(),
            lits == lit_views(fields@),
            rf == r@.fields,
            out@ == old(out)@,
            first_missing(rf, lits, 0) == first_missing(rf, lits, k as int),
        decreases r.fields.len() - k,
    {
        assert(rf[k as int] == r.fields@[k as int]@);
        match find_lit(fields, r.fields[k].name.as_str()) {
            None => {
                let label = match &r.name {
                    Some(n) => crate::text::copy_string(n),
                    None => to_owned_string("<anonymous record>"),
                };
                let mut msg = String::new();
                push_str(&mut msg, "record literal for '");
                push_str(&mut msg, label.as_str());
                push_str(&mut msg, "' is missing field '");
                push_str(&mut msg, r.fields[k].name.as_str());
                push_str(&mut msg, "'");
                assert(msg@ =~= "record literal for '"@ + record_label(r@) + "' is missing field '"@ + rf[k as int].name + "'"@);
                return Err(BackendError::Unsupported(msg));
            },
            Some(_) => {},
        }
        k = k + 1;
    }
    let mut j: usize = 0;
    while j < fields.len()
        invariant
            j <= fields.len(),
            lits == lit_views(fields@),
            rf == r@.fields,
            first_missing(rf, lits, 0) is None,
            out@ == old(out)@,
            first_unknown(rf, lits, 0) == first_unknown(rf, lits, j as int),
        decreases fields.len() - j,
    {
        assert(lits[j as int].0 == fields@[j as int].0@);
        if r.field(fields[j].0.as_str()).is_none() {
            return Err(fail_unsupported("record literal references unknown field '", fields[j].0.as_str(), "'"));
        }
        j = j + 1;
    }
    proof {
        lemma_no_missing(rf, lits, 0);
    }
    let mut t = String::new();
    c_type_value(&mut t, m, ty);
    push_str(out, "  ");
    push_str(out, t.as_str());
    push_str(out, " ");
    push_var(out, id);
    push_str(out, " = (");
    push_str(out, t.as_str());
    if r.fields.len() == 0 {
        push_str(out, "){0};\n");
    } else {
        push_str(out, "){ ");
        let ghost head = out@;
        let mut i: usize = 0;
        while i < r.fields.len()
            invariant
                i <= r.fields.len(),
                lits == lit_views(fields@),
                rf == r@.fields,
                forall|x: int| 0 <= x < rf.len() ==> lit_value(lits, (#[trigger] rf[x]).name) is Some,
                out@ == head + join(rf.take(i as int).map_values(|f: SpecField| init_c(f, lits)), ", "@),
            decreases r.fields.len() - i,
        {
            if i > 0 {
                push_str(out, ", ");
            }
            let ghost mid = out@;
            assert(rf[i as int] == r.fields@[i as int]@);
            let v = match find_lit(fields, r.fields[i].name.as_str()) {
                Some(v) => v,
                None => {
                    assert(false);
                    ValueId(0)
                },
            };
            push_str(out, ".");
            push_str(out, sanitize_identifier(r.fields[i].name.as_str()).as_str());
            push_str(out, " = ");
            push_var(out, v);
            proof {
                let f = |f: SpecField| init_c(f, lits);
                assert(out@ =~= mid + f(rf[i as int]));
                assert(rf.take(i + 1).map_values(f) =~= rf.take(i as int).map_values(f).push(f(rf[i as int])));
                lemma_join_push(rf.take(i as int).map_values(f), ", "@, f(rf[i as int]));
            }
            i = i + 1;
        }
        assert(rf.take(rf.len() as int) =~= rf);
        push_str(out, " };\n");
    }
    assert(final(out)@ =~= old(out)@ + record_c(*m, r@, ty, var_name(id), lits)->Ok_0);
    Ok(())
}


/// Appends the C of a call whose result goes to the variable of `id`.
fn emit_call(out: &mut String, m: &Module, ty: TypeId, id: ValueId, func: &FuncRef, args: &Vec<ValueId>) -> (res: Result<(), BackendError>)
    requires
        m.types.valid_id(ty),
    ensures
        match call_c(*m, ty, var_name(id), *func, args@) {
            Ok(text) => res is Ok && final(out)@ == old(out)@ + text,
            Err(e) => res matches Err(x) && x@ == e && final(out)@ == old(out)@,
        },
{
    match func {
        FuncRef::Method(n) => {
            match emit_runtime_method(out, m, n.as_str(), args, ty, id) {
                Err(e) => {
                    return Err(e);
                },
                Ok(true) => {
                    return Ok(());
                },
                Ok(false) => {},
            }
        },
        FuncRef::Function(_) => {},
    }
    let ghost start = out@;
    let mut name = String::new();
    match func {
        FuncRef::Function(p) => crate::text::push_joined(&mut name, &p.segments, "_"),
        FuncRef::Method(n) => push_str(&mut name, n.as_str()),
    }
    let mangled = mangle_name(name.as_str());
    match m.type_of(ty) {
        Type::Unit => {
            push_str(out, "  ");
            push_str(out, mangled.as_str());
            push_str(out, "(");
            push_vars(out, args);
            push_str(out, ");\n");
            push_str(out, "  ");
            c_type_value(out, m, ty);
            push_str(out, " ");
            push_var(out, id);
            push_str(out, " = 0;\n");
        },
        _ => {
            push_str(out, "  ");
            c_type_value(out, m, ty);
            push_str(out, " ");
            push_var(out, id);
            push_str(out, " = ");
            push_str(out, mangled.as_str());
            push_str(out, "(");
            push_vars(out, args);
            push_str(out, ");\n");
        },
    }
    assert(name@ =~= call_name(*func));
    assert(final(out)@ =~= old(out)@ + call_c(*m, ty, var_name(id), *func, args@)->Ok_0);
    Ok(())

}

/// Appends the C of an instruction other than a phi.
fn emit_instruction(out: &mut String, m: &Module, inst: &Instruction) -> (res: Result<(), BackendError>)
    requires
        m.types.wf(),
        m.types.valid_id(inst.ty),
    ensures
        match inst_c(*m, *inst) {
            Ok(text) => res is Ok && final(out)@ == old(out)@ + text,
            Err(e) => res matches Err(x) && x@ == e && final(out)@ == old(out)@,
        },
{
    reveal(inst_c);
    let ty = inst.ty;
    match &inst.kind {
        InstKind::Literal(l) => {
            push_str(out, "  ");
            c_type_value(out, m, ty);
            push_str(out, " ");
            push_var(out, inst.id);
            push_str(out, " = ");
            literal(out, l);
            push_str(out, ";\n");
            assert(final(out)@ =~= old(out)@ + inst_c(*m, *inst)->Ok_0);
            Ok(())
        },
        InstKind::Binary { op, lhs, rhs } => {
            push_str(out, "  ");
            c_type_value(out, m, ty);
            push_str(out, " ");
            push_var(out, inst.id);
            push_str(out, " = ");
            push_var(out, *lhs);
            push_str(out, " ");
            op.push_symbol(out);
            push_str(out, " ");
            push_var(out, *rhs);
            push_str(out, ";\n");
            assert(final(out)@ =~= old(out)@ + inst_c(*m, *inst)->Ok_0);
            Ok(())
        },
        InstKind::Call { func, args } => emit_call(out, m, ty, inst.id, func, args),
        InstKind::Record { fields, .. } => {
            match m.type_of(ty) {
                Type::Record(r) => emit_record(out, m, r, ty, inst.id, fields),
                _ => Err(BackendError::Internal(to_owned_string("record literal lowered with non-record type"))),
            }
        },
        InstKind::Path(p) => {
            let mut joined = String::new();
            crate::text::push_joined(&mut joined, &p.segments, "::");
            Err(fail_unsupported("path expression '", joined.as_str(), "' cannot be lowered by the native backend yet"))
        },
        InstKind::Phi { .. } => {
            assert(final(out)@ =~= old(out)@ + inst_c(*m, *inst)->Ok_0);
            Ok(())
        },
    }
}

/// The C of a phi: a variable set from the predecessor block.
#[verifier::opaque]
pub open spec fn phi_c(m: Module, inst: Instruction) -> Seq<char> {
    match inst.kind {
        InstKind::Phi { incomings } => {
            let var = var_name(inst.id);
            "  "@ + c_type(m, inst.ty) + " "@ + var + ";\n"@ + "  switch (prev_block) {\n"@ + concat(
                incomings@.map_values(
                    |i: (crate::ir::BlockId, ValueId)|
                        "    case "@ + nat_digits(i.0.0 as nat) + ": "@ + var + " = "@ + var_name(i.1)
                            + "; break;\n"@,
                ),
            ) + "    default: "@ + var + " = "@ + default_value_c(m, inst.ty) + "; break;\n"@
                + "  }\n"@
        },
        _ => Seq::empty(),
    }
}

fn emit_phi(out: &mut String, m: &Module, inst: &Instruction)
    requires
        m.types.valid_id(inst.ty),
    ensures
        final(out)@ == old(out)@ + phi_c(*m, *inst),
{
    reveal(phi_c);
    match &inst.kind {
        InstKind::Phi { incomings } => {
            let ghost var = var_name(inst.id);
            push_str(out, "  ");
            c_type_value(out, m, inst.ty);
            push_str(out, " ");
            push_var(out, inst.id);
            push_str(out, ";\n");
            push_str(out, "  switch (prev_block) {\n");
            let ghost head = out@;
            let ghost f = |i: (crate::ir::BlockId, ValueId)|
                "    case "@ + nat_digits(i.0.0 as nat) + ": "@ + var + " = "@ + var_name(i.1) + "; break;\n"@;
            let mut k: usize = 0;
            while k < incomings.len()
                invariant
                    k <= incomings.len(),
                    var == var_name(inst.id),
                    out@ == head + concat(incomings@.take(k as int).map_values(
                        |i: (crate::ir::BlockId, ValueId)|
                            "    case "@ + nat_digits(i.0.0 as nat) + ": "@ + var + " = "@ + var_name(i.1) + "; break;\n"@,
                    )),
                decreases incomings.len() - k,
            {
                let ghost mid = out@;
                push_str(out, "    case ");
                push_nat(out, incomings[k].0.0 as u64);
                push_str(out, ": ");
                push_var(out, inst.id);
                push_str(out, " = ");
                push_var(out, incomings[k].1);
                push_str(out, "; break;\n");
                proof {
                    let g = |i: (crate::ir::BlockId, ValueId)|
                        "    case "@ + nat_digits(i.0.0 as nat) + ": "@ + var + " = "@ + var_name(i.1) + "; break;\n"@;
                    assert(out@ =~= mid + g(incomings@[k as int]));
                    assert(incomings@.take(k + 1).map_values(g) =~= incomings@.take(k as int).map_values(g).push(g(incomings@[k as int])));
                    lemma_concat_push(incomings@.take(k as int).map_values(g), g(incomings@[k as int]));
                }
                k = k + 1;
            }
            assert(incomings@.take(incomings.len() as int) =~= incomings@);
            push_str(out, "    default: ");
            push_var(out, inst.id);
            push_str(out, " = ");
            default_value(out, m, inst.ty);
            push_str(out, "; break;\n");
            push_str(out, "  }\n");
            assert(final(out)@ =~= old(out)@ + phi_c(*m, *inst));
        },
        _ => {
            assert(final(out)@ =~= old(out)@ + phi_c(*m, *inst));
        },
    }
}

/// The C of a terminator.
#[verifier::opaque]
pub open spec fn terminator_c(m: Module, ret: TypeId, t: Terminator) -> Seq<char> {
    match t {
        Terminator::Return(Some(v)) => if m.types.spec_get(ret) == SpecType::Unit {
            "  return;\n"@
        } else {
            "  return "@ + var_name(v) + ";\n"@
        },
        Terminator::Return(None) => match default_return_c(m, ret) {
            Some(e) => "  return "@ + e + ";\n"@,
            None => "  return;\n"@,
        },
        Terminator::Jump(b) => "  prev_block = current_block;\n"@ + "  current_block = "@ + nat_digits(
            b.0 as nat,
        ) + ";\n"@ + "  goto block"@ + nat_digits(b.0 as nat) + ";\n"@,
        Terminator::Branch { condition, then_block, else_block } => "  prev_block = current_block;\n"@
            + "  if ("@ + var_name(condition) + ") {\n"@ + "    current_block = "@ + nat_digits(
            then_block.0 as nat,
        ) + ";\n"@ + "    goto block"@ + nat_digits(then_block.0 as nat) + ";\n"@ + "  } else {\n"@
            + "    current_block = "@ + nat_digits(else_block.0 as nat) + ";\n"@ + "    goto block"@
            + nat_digits(else_block.0 as nat) + ";\n"@ + "  }\n"@,
    }
}

/// A branch tests the condition variable itself: when it is nonzero control
/// goes to the then-block, otherwise to the else-block; either way the
/// block left is recorded for the phis of the block entered.
pub proof fn lemma_branch_c_roles(m: Module, ret: TypeId, c: ValueId, t: crate::ir::BlockId, e: crate::ir::BlockId)
    ensures
        terminator_c(m, ret, Terminator::Branch { condition: c, then_block: t, else_block: e })
            == "  prev_block = current_block;\n  if (v"@ + nat_digits(c.0 as nat) + ") {\n    current_block = "@
            + nat_digits(t.0 as nat) + ";\n    goto block"@ + nat_digits(t.0 as nat)
            + ";\n  } else {\n    current_block = "@ + nat_digits(e.0 as nat) + ";\n    goto block"@
            + nat_digits(e.0 as nat) + ";\n  }\n"@,
{
    reveal(terminator_c);
    reveal_strlit("  prev_block = current_block;\n");
    reveal_strlit("  if (");
    reveal_strlit("v");
    reveal_strlit("  prev_block = current_block;\n  if (v");
    reveal_strlit(") {\n");
    reveal_strlit("    current_block = ");
    reveal_strlit(") {\n    current_block = ");
    reveal_strlit(";\n");
    reveal_strlit("    goto block");
    reveal_strlit(";\n    goto block");
    reveal_strlit("  } else {\n");
    reveal_strlit(";\n  } else {\n    current_block = ");
    reveal_strlit("  }\n");
    reveal_strlit(";\n  }\n");
    assert("  prev_block = current_block;\n"@ + "  if ("@ + "v"@ =~= "  prev_block = current_block;\n  if (v"@);
    assert(") {\n"@ + "    current_block = "@ =~= ") {\n    current_block = "@);
    assert(";\n"@ + "    goto block"@ =~= ";\n    goto block"@);
    assert(";\n"@ + "  } else {\n"@ + "    current_block = "@ =~= ";\n  } else {\n    current_block = "@);
    assert(";\n"@ + "  }\n"@ =~= ";\n  }\n"@);
    assert(terminator_c(m, ret, Terminator::Branch { condition: c, then_block: t, else_block: e })
        =~= "  prev_block = current_block;\n  if (v"@ + nat_digits(c.0 as nat) + ") {\n    current_block = "@
            + nat_digits(t.0 as nat) + ";\n    goto block"@ + nat_digits(t.0 as nat)
            + ";\n  } else {\n    current_block = "@ + nat_digits(e.0 as nat) + ";\n    goto block"@
            + nat_digits(e.0 as nat) + ";\n  }\n"@);
}

/// A jump records the block left and goes to its target.
pub proof fn lemma_jump_c_roles(m: Module, ret: TypeId, b: crate::ir::BlockId)
    ensures
        terminator_c(m, ret, Terminator::Jump(b)) == "  prev_block = current_block;\n  current_block = "@
            + nat_digits(b.0 as nat) + ";\n  goto block"@ + nat_digits(b.0 as nat) + ";\n"@,
{
    reveal(terminator_c);
    reveal_strlit("  prev_block = current_block;\n");
    reveal_strlit("  current_block = ");
    reveal_strlit("  prev_block = current_block;\n  current_block = ");
    reveal_strlit(";\n");
    reveal_strlit("  goto block");
    reveal_strlit(";\n  goto block");
    assert("  prev_block = current_block;\n"@ + "  current_block = "@ =~= "  prev_block = current_block;\n  current_block = "@);
    assert(";\n"@ + "  goto block"@ =~= ";\n  goto block"@);
    assert(terminator_c(m, ret, Terminator::Jump(b)) =~= "  prev_block = current_block;\n  current_block = "@
        + nat_digits(b.0 as nat) + ";\n  goto block"@ + nat_digits(b.0 as nat) + ";\n"@);
}

#[verifier::spinoff_prover]
#[verifier::rlimit(40)]
fn emit_terminator(out: &mut String, m: &Module, ret: TypeId, t: &Terminator)
    requires
        m.types.valid_id(ret),
    ensures
        final(out)@ == old(out)@ + terminator_c(*m, ret, *t),
{
    reveal(terminator_c);
    match t {
        Terminator::Return(Some(v)) => {
            match m.type_of(ret) {
                Type::Unit => push_str(out, "  return;\n"),
                _ => {
                    push_str(out, "  return ");
                    push_var(out, *v);
                    push_str(out, ";\n");
                },
            }
        },
        Terminator::Return(None) => default_return(out, m, ret),
        Terminator::Jump(b) => {
            push_str(out, "  prev_block = current_block;\n");
            push_str(out, "  current_block = ");
            push_nat(out, b.0 as u64);
            push_str(out, ";\n");
            push_str(out, "  goto block");
            push_nat(out, b.0 as u64);
            push_str(out, ";\n");
        },
        Terminator::Branch { condition, then_block, else_block } => {
            push_str(out, "  prev_block = current_block;\n");
            push_str(out, "  if (");
            push_var(out, *condition);
            push_str(out, ") {\n");
            push_str(out, "    current_block = ");
            push_nat(out, then_block.0 as u64);
            push_str(out, ";\n");
            push_str(out, "    goto block");
            push_nat(out, then_block.0 as u64);
            push_str(out, ";\n");
            push_str(out, "  } else {\n");
            push_str(out, "    current_block = ");
            push_nat(out, else_block.0 as u64);
            push_str(out, ";\n");
            push_str(out, "    goto block");
            push_nat(out, else_block.0 as u64);
            push_str(out, ";\n");
            push_str(out, "  }\n");
        },
    }
    assert(final(out)@ =~= old(out)@ + terminator_c(*m, ret, *t));
}


pub open spec fn phi_part(m: Module, i: Instruction) -> Seq<char> {
    if i.kind is Phi {
        phi_c(m, i)
    } else {
        Seq::empty()
    }
}

pub open spec fn inst_part(m: Module, i: Instruction) -> Rendered {
    if i.kind is Phi {
        Ok(Seq::empty())
    } else {
        inst_c(m, i)
    }
}

/// The C of a block: its label, its phis, its other instructions, its
/// terminator.
#[verifier::opaque]
pub open spec fn block_c(m: Module, ret: TypeId, b: BasicBlock) -> Rendered {
    let header = "block"@ + nat_digits(b.id.0 as nat) + ":\n"@ + "  current_block = "@ + nat_digits(
        b.id.0 as nat,
    ) + ";\n"@;
    match concat_results(b.instructions@.map_values(|i: Instruction| inst_part(m, i))) {
        Ok(body) => Ok(
            header + concat(b.instructions@.map_values(|i: Instruction| phi_part(m, i))) + body
                + terminator_c(m, ret, b.terminator),
        ),
        Err(e) => Err(e),
    }
}

fn emit_block(out: &mut String, m: &Module, ret: TypeId, b: &BasicBlock) -> (res: Result<(), BackendError>)
    requires
        m.types.wf(),
        m.types.valid_id(ret),
        forall|k: int| 0 <= k < b.instructions@.len() ==> m.types.valid_id((#[trigger] b.instructions@[k]).ty),
    ensures
        match block_c(*m, ret, *b) {
            Ok(text) => res is Ok && final(out)@ == old(out)@ + text,
            Err(e) => res matches Err(x) && x@ == e,
        },
{
    reveal(block_c);
    let ghost insts = b.instructions@;
    let ghost parts = insts.map_values(|i: Instruction| inst_part(*m, i));
    push_str(out, "block");
    push_nat(out, b.id.0 as u64);
    push_str(out, ":\n");
    push_str(out, "  current_block = ");
    push_nat(out, b.id.0 as u64);
    push_str(out, ";\n");
    let ghost head = out@;
    let mut k: usize = 0;
    while k < b.instructions.len()
        invariant
            k <= b.instructions.len(),
            insts == b.instructions@,
            forall|x: int| 0 <= x < insts.len() ==> m.types.valid_id((#[trigger] insts[x]).ty),
            out@ == head + concat(insts.take(k as int).map_values(|i: Instruction| phi_part(*m, i))),
        decreases b.instructions.len() - k,
    {
        let inst = &b.instructions[k];
        let ghost mid = out@;
        match &inst.kind {
            InstKind::Phi { .. } => emit_phi(out, m, inst),
            _ => {},
        }
        proof {
            let f = |i: Instruction| phi_part(*m, i);
            assert(out@ =~= mid + f(*inst));
            assert(insts.take(k + 1).map_values(f) =~= insts.take(k as int).map_values(f).push(f(*inst)));
            lemma_concat_push(insts.take(k as int).map_values(f), f(*inst));
        }
        k = k + 1;
    }
    assert(insts.take(insts.len() as int) =~= insts);
    let ghost head2 = out@;
    let mut k: usize = 0;
    proof {
        assert(parts.take(0) =~= Seq::<Rendered>::empty());
    }
    while k < b.instructions.len()
        invariant
            k <= b.instructions.len(),
            m.types.wf(),
            insts == b.instructions@,
            parts == insts.map_values(|i: Instruction| inst_part(*m, i)),
            forall|x: int| 0 <= x < insts.len() ==> m.types.valid_id((#[trigger] insts[x]).ty),
            concat_results(parts.take(k as int)) matches Ok(acc) && out@ == head2 + acc,
        decreases b.instructions.len() - k,
    {
        let inst = &b.instructions[k];
        let ghost acc = concat_results(parts.take(k as int))->Ok_0;
        let ghost mid = out@;
        proof {
            super::lemma_concat_results_push(parts.take(k as int), parts[k as int]);
            assert(parts.take(k + 1) =~= parts.take(k as int).push(parts[k as int]));
            assert(parts[k as int] == inst_part(*m, *inst));
        }
        match &inst.kind {
            InstKind::Phi { .. } => {},
            _ => {
                match emit_instruction(out, m, inst) {
                    Ok(()) => {},
                    Err(e) => {
                        proof {
                            assert(inst_c(*m, *inst) == Err::<Seq<char>, SpecBackendError>(e@));
                            assert(concat_results(parts.take(k + 1)) == Err::<Seq<char>, SpecBackendError>(e@));
                            super::lemma_concat_results_err(parts, k + 1);
                            assert(b.instructions@.map_values(|i: Instruction| inst_part(*m, i)) =~= parts);
                            reveal(block_c);
                            assert(block_c(*m, ret, *b) == Err::<Seq<char>, SpecBackendError>(e@));
                        }
                        return Err(e);
                    },
                }
            },
        }
        assert(out@ =~= head2 + concat_results(parts.take(k + 1))->Ok_0);
        k = k + 1;
    }
    assert(parts.take(parts.len() as int) =~= parts);
    emit_terminator(out, m, ret, &b.terminator);
    assert(final(out)@ =~= old(out)@ + block_c(*m, ret, *b)->Ok_0);
    Ok(())
}

/// The names of effects, first occurrences only, in order.
pub open spec fn first_occurrences(s: Seq<Seq<char>>) -> Seq<Seq<char>>
    decreases s.len(),
{
    if s.len() == 0 {
        Seq::empty()
    } else if s.drop_last().contains(s.last()) {
        first_occurrences(s.drop_last())
    } else {
        first_occurrences(s.drop_last()).push(s.last())
    }
}

pub open spec fn row_names(m: Module, f: Function) -> Seq<Seq<char>> {
    f.effect_row@.map_values(|e: crate::ir::EffectId| m.effects@[e.0 as int])
}

/// The capability checks at the start of a function with effects.
pub open spec fn guards_c(m: Module, f: Function) -> Seq<char> {
    if f.effect_row@.len() == 0 {
        Seq::empty()
    } else {
        "  mica_runtime_initialize();\n"@ + concat(
            first_occurrences(row_names(m, f)).map_values(
                |n: Seq<char>| "  mica_runtime_require_capability(\""@ + c_escape(n) + "\");\n"@,
            ),
        )
    }
}

pub proof fn lemma_first_occurrences_contains(s: Seq<Seq<char>>, x: Seq<char>)
    ensures
        first_occurrences(s).contains(x) <==> s.contains(x),
    decreases s.len(),
{
    if s.len() > 0 {
        let d = s.drop_last();
        lemma_first_occurrences_contains(d, x);
        if s.contains(x) && x != s.last() {
            let w = choose|w: int| 0 <= w < s.len() && s[w] == x;
            assert(d[w] == x);
        }
        if d.contains(x) {
            let w = choose|w: int| 0 <= w < d.len() && d[w] == x;
            assert(s[w] == x);
        }
        if !d.contains(s.last()) {
            let fo = first_occurrences(d);
            assert(fo.push(s.last()).contains(x) <==> (fo.contains(x) || x == s.last())) by {
                if fo.push(s.last()).contains(x) {
                    let w = choose|w: int| 0 <= w < fo.len() + 1 && fo.push(s.last())[w] == x;
                    if w < fo.len() {
                        assert(fo[w] == x);
                    }
                }
                if fo.contains(x) {
                    let w = choose|w: int| 0 <= w < fo.len() && fo[w] == x;
                    assert(fo.push(s.last())[w] == x);
                }
                assert(fo.push(s.last())[fo.len() as int] == s.last());
            }
        }
        assert(s[s.len() - 1] == s.last());
    }
}

fn emit_runtime_capability_guards(out: &mut String, m: &Module, f: &Function)
    requires
        forall|e: int| 0 <= e < f.effect_row@.len() ==> (#[trigger] f.effect_row@[e]).0 < m.effects@.len(),
    ensures
        final(out)@ == old(out)@ + guards_c(*m, *f),
{
    if f.effect_row.len() == 0 {
        assert(final(out)@ =~= old(out)@ + guards_c(*m, *f));
        return;
    }
    push_str(out, "  mica_runtime_initialize();\n");
    let ghost head = out@;
    let ghost names = row_names(*m, *f);
    let ghost g = |n: Seq<char>| "  mica_runtime_require_capability(\""@ + c_escape(n) + "\");\n"@;
    let mut seen: Vec<String> = Vec::new();
    let mut i: usize = 0;
    while i < f.effect_row.len()
        invariant
            i <= f.effect_row.len(),
            names == row_names(*m, *f),
            forall|e: int| 0 <= e < f.effect_row@.len() ==> (#[trigger] f.effect_row@[e]).0 < m.effects@.len(),
            views(seen@) == first_occurrences(names.take(i as int)),
            out@ == head + concat(first_occurrences(names.take(i as int)).map_values(
                |n: Seq<char>| "  mica_runtime_require_capability(\""@ + c_escape(n) + "\");\n"@,
            )),
        decreases f.effect_row.len() - i,
    {
        assert(f.effect_row@[i as int].0 < m.effects@.len());
        let name = m.effect_name(f.effect_row[i]);
        let ghost pre = names.take(i as int);
        let ghost fo = first_occurrences(pre);
        let mut already = false;
        let mut k: usize = 0;
        while k < seen.len()
            invariant
                k <= seen.len(),
                views(seen@) == fo,
                already == exists|w: int| 0 <= w < k && seen@[w]@ == name@,
            decreases seen.len() - k,
        {
            if str_is(seen[k].as_str(), name) {
                already = true;
            }
            k = k + 1;
        }
        proof {
            assert(names[i as int] == name@);
            assert(names.take(i + 1).drop_last() =~= pre);
            assert(names.take(i + 1).last() == name@);
            lemma_first_occurrences_contains(pre, name@);
            assert(fo.contains(name@) == already) by {
                if fo.contains(name@) {
                    let w = choose|w: int| 0 <= w < fo.len() && fo[w] == name@;
                    assert(seen@[w]@ == name@);
                }
                if already {
                    let w = choose|w: int| 0 <= w < seen@.len() && seen@[w]@ == name@;
                    assert(fo[w] == name@);
                }
            }
        }
        if !already {
            let ghost before_out = out@;
            push_str(out, "  mica_runtime_require_capability(\"");
            push_c_escaped(out, name);
            push_str(out, "\");\n");
            seen.push(to_owned_string(name));
            proof {
                let h = |n: Seq<char>| "  mica_runtime_require_capability(\""@ + c_escape(n) + "\");\n"@;
                assert(views(seen@) =~= fo.push(name@));
                assert(fo.push(name@).map_values(h) =~= fo.map_values(h).push(h(name@)));
                lemma_concat_push(fo.map_values(h), h(name@));
                assert(out@ =~= before_out + h(name@));
            }
        }
        i = i + 1;
    }
    assert(names.take(f.effect_row.len() as int) =~= names);
    assert(final(out)@ =~= old(out)@ + guards_c(*m, *f));
}

pub open spec fn param_line(m: Module, p: crate::ir::Param, index: int) -> Seq<char> {
    "  "@ + c_type(m, p.ty) + " "@ + var_name(p.value) + " = arg"@ + nat_digits(index as nat) + ";\n"@
}

/// The C of a function body.
#[verifier::opaque]
pub open spec fn body_c(m: Module, f: Function) -> Rendered {
    let n = f.params@.len();
    let pre = "  int prev_block = -1;\n"@ + "  int current_block = 0;\n"@ + concat(
        Seq::new(n, |i: int| param_line(m, f.params@[i], i)),
    ) + guards_c(m, f) + (if n == 0 {
        "  (void)prev_block;\n"@
    } else {
        Seq::empty()
    }) + "  goto block0;\n"@;
    let tail = match default_return_c(m, f.ret_type) {
        Some(e) => "  return "@ + e + ";\n"@,
        None => "  return;\n"@,
    };
    match concat_results(f.blocks@.map_values(|b: BasicBlock| block_c(m, f.ret_type, b))) {
        Ok(blocks) => Ok(pre + blocks + tail),
        Err(e) => Err(e),
    }
}

fn emit_function_body(out: &mut String, m: &Module, f: &Function) -> (res: Result<(), BackendError>)
    requires
        m.types.wf(),
        f.ids_within(m.types@.entries.len(), m.effects@.len()),
    ensures
        match body_c(*m, *f) {
            Ok(text) => res is Ok && final(out)@ == old(out)@ + text,
            Err(e) => res matches Err(x) && x@ == e,
        },
{
    reveal(body_c);
    push_str(out, "  int prev_block = -1;\n");
    push_str(out, "  int current_block = 0;\n");
    let ghost head = out@;
    let ghost n = f.params@.len();
    let mut i: usize = 0;
    while i < f.params.len()
        invariant
            i <= f.params.len(),
            n == f.params@.len(),
            f.ids_within(m.types@.entries.len(), m.effects@.len()),
            out@ == head + concat(Seq::new(i as nat, |j: int| param_line(*m, f.params@[j], j))),
        decreases f.params.len() - i,
    {
        let ghost mid = out@;
        let p = &f.params[i];
        assert(f.params@[i as int].ty.0 < m.types@.entries.len());
        push_str(out, "  ");
        c_type_value(out, m, p.ty);
        push_str(out, " ");
        push_var(out, p.value);
        push_str(out, " = arg");
        push_nat(out, i as u64);
        push_str(out, ";\n");
        proof {
            let l = param_line(*m, f.params@[i as int], i as int);
            assert(out@ =~= mid + l);
            assert(Seq::new((i + 1) as nat, |j: int| param_line(*m, f.params@[j], j)) =~= Seq::new(i as nat, |j: int| param_line(*m, f.params@[j], j)).push(l));
            lemma_concat_push(Seq::new(i as nat, |j: int| param_line(*m, f.params@[j], j)), l);
        }
        i = i + 1;
    }
    assert(Seq::new(i as nat, |j: int| param_line(*m, f.params@[j], j)) =~= Seq::new(n, |j: int| param_line(*m, f.params@[j], j)));
    emit_runtime_capability_guards(out, m, f);
    if f.params.len() == 0 {
        push_str(out, "  (void)prev_block;\n");
    }
    push_str(out, "  goto block0;\n");
    let ghost head2 = out@;
    let ghost parts = f.blocks@.map_values(|b: BasicBlock| block_c(*m, f.ret_type, b));
    let mut k: usize = 0;
    proof {
        assert(parts.take(0) =~= Seq::<Rendered>::empty());
    }
    while k < f.blocks.len()
        invariant
            k <= f.blocks.len(),
            m.types.wf(),
            f.ids_within(m.types@.entries.len(), m.effects@.len()),
            parts == f.blocks@.map_values(|b: BasicBlock| block_c(*m, f.ret_type, b)),
            concat_results(parts.take(k as int)) matches Ok(acc) && out@ == head2 + acc,
        decreases f.blocks.len() - k,
    {
        proof {
            super::lemma_concat_results_push(parts.take(k as int), parts[k as int]);
            assert(parts.take(k + 1) =~= parts.take(k as int).push(parts[k as int]));
            assert forall|x: int| 0 <= x < f.blocks@[k as int].instructions@.len() implies m.types.valid_id((#[trigger] f.blocks@[k as int].instructions@[x]).ty) by {
                assert(f.blocks@[k as int].instructions@[x].ids_within(m.types@.entries.len(), m.effects@.len()));
            }
        }
        match emit_block(out, m, f.ret_type, &f.blocks[k]) {
            Ok(()) => {},
            Err(e) => {
                proof {
                    assert(block_c(*m, f.ret_type, f.blocks@[k as int]) == Err::<Seq<char>, SpecBackendError>(e@));
                    assert(concat_results(parts.take(k + 1)) == Err::<Seq<char>, SpecBackendError>(e@));
                    super::lemma_concat_results_err(parts, k + 1);
                    assert(f.blocks@.map_values(|b: BasicBlock| block_c(*m, f.ret_type, b)) =~= parts);
                    reveal(body_c);
                    assert(body_c(*m, *f) == Err::<Seq<char>, SpecBackendError>(e@));
                }
                return Err(e);
            },
        }
        assert(out@ =~= head2 + concat_results(parts.take(k + 1))->Ok_0);
        k = k + 1;
    }
    assert(parts.take(parts.len() as int) =~= parts);
    default_return(out, m, f.ret_type);
    assert(final(out)@ =~= old(out)@ + body_c(*m, *f)->Ok_0);
    Ok(())
}

/// The C signature of a function.
#[verifier::opaque]
pub open spec fn signature_c(m: Module, f: Function) -> Seq<char> {
    let n = f.params@.len();
    c_return_type(m, f.ret_type) + " "@ + mangle(f.name@) + "("@ + join(
        Seq::new(n, |i: int| c_type(m, f.params@[i].ty) + " arg"@ + nat_digits(i as nat)),
        ", "@,
    ) + (if n == 0 {
        "void"@
    } else {
        Seq::empty()
    }) + ")"@
}

/// Appends the C signature of a function.
fn function_signature(out: &mut String, m: &Module, f: &Function)
    requires
        f.ids_within(m.types@.entries.len(), m.effects@.len()),
    ensures
        final(out)@ == old(out)@ + signature_c(*m, *f),
{
    reveal(signature_c);
    c_type_return(out, m, f.ret_type);
    push_str(out, " ");
    push_str(out, mangle_name(f.name.as_str()).as_str());
    push_str(out, "(");
    let ghost head = out@;
    let mut i: usize = 0;
    while i < f.params.len()
        invariant
            i <= f.params.len(),
            f.ids_within(m.types@.entries.len(), m.effects@.len()),
            out@ == head + join(Seq::new(i as nat, |j: int| c_type(*m, f.params@[j].ty) + " arg"@ + nat_digits(j as nat)), ", "@),
        decreases f.params.len() - i,
    {
        if i > 0 {
            push_str(out, ", ");
        }
        let ghost mid = out@;
        assert(f.params@[i as int].ty.0 < m.types@.entries.len());
        c_type_value(out, m, f.params[i].ty);
        push_str(out, " arg");
        push_nat(out, i as u64);
        proof {
            let item = c_type(*m, f.params@[i as int].ty) + " arg"@ + nat_digits(i as nat);
            assert(out@ =~= mid + item);
            let prev = Seq::new(i as nat, |j: int| c_type(*m, f.params@[j].ty) + " arg"@ + nat_digits(j as nat));
            assert(Seq::new((i + 1) as nat, |j: int| c_type(*m, f.params@[j].ty) + " arg"@ + nat_digits(j as nat)) =~= prev.push(item));
            lemma_join_push(prev, ", "@, item);
        }
        i = i + 1;
    }
    if f.params.len() == 0 {
        push_str(out, "void");
    }
    push_str(out, ")");
    assert(final(out)@ =~= old(out)@ + signature_c(*m, *f));
}

// ---------------------------------------------------------------------------
// Runtime support text
// ---------------------------------------------------------------------------

/// The runtime's flag and its function marking a capability available.
#[verifier::opaque]
pub open spec fn mark_capability_c() -> Seq<char> {
    "static int MICA_RUNTIME_INITIALIZED = 0;\n\n"@
        + "static void mica_runtime_mark_capability(const char *name) {\n"@
        + "  for (size_t i = 0; i < MICA_RUNTIME_CAPABILITY_COUNT; ++i) {\n"@
        + "    const char *candidate = MICA_RUNTIME_CAPABILITY_NAMES[i];\n"@
        + "    if (candidate && strcmp(candidate, name) == 0) {\n"@
        + "      MICA_RUNTIME_CAPABILITY_AVAILABLE[i] = 1;\n"@
        + "      return;\n"@
        + "    }\n"@
        + "  }\n"@
        + "}\n\n"@
}

fn emit_mark_capability(out: &mut String)
    ensures
        final(out)@ == old(out)@ + mark_capability_c(),
{
    reveal(mark_capability_c);
    push_str(out, "static int MICA_RUNTIME_INITIALIZED = 0;\n\n");
    push_str(out, "static void mica_runtime_mark_capability(const char *name) {\n");
    push_str(out, "  for (size_t i = 0; i < MICA_RUNTIME_CAPABILITY_COUNT; ++i) {\n");
    push_str(out, "    const char *candidate = MICA_RUNTIME_CAPABILITY_NAMES[i];\n");
    push_str(out, "    if (candidate && strcmp(candidate, name) == 0) {\n");
    push_str(out, "      MICA_RUNTIME_CAPABILITY_AVAILABLE[i] = 1;\n");
    push_str(out, "      return;\n");
    push_str(out, "    }\n");
    push_str(out, "  }\n");
    push_str(out, "}\n\n");
    assert(final(out)@ =~= old(out)@ + mark_capability_c());
}

/// The runtime's initialisation and capability checks.
#[verifier::opaque]
pub open spec fn runtime_checks_c() -> Seq<char> {
    "static void mica_runtime_initialize(void) {\n"@
        + "  if (!MICA_RUNTIME_INITIALIZED) {\n"@
        + "    MICA_RUNTIME_INITIALIZED = 1;\n"@
        + "    mica_runtime_register_default_providers();\n"@
        + "  }\n"@
        + "}\n\n"@
        + "static void mica_runtime_missing_capability(const char *name) {\n"@
        + "  fprintf(stderr, \"error: capability provider '%s' is not registered\\n\", name);\n"@
        + "  exit(74);\n"@
        + "}\n\n"@
        + "static void mica_runtime_require_capability(const char *name) {\n"@
        + "  for (size_t i = 0; i < MICA_RUNTIME_CAPABILITY_COUNT; ++i) {\n"@
        + "    const char *candidate = MICA_RUNTIME_CAPABILITY_NAMES[i];\n"@
        + "    if (candidate && strcmp(candidate, name) == 0) {\n"@
        + "      if (!MICA_RUNTIME_CAPABILITY_AVAILABLE[i]) {\n"@
        + "        mica_runtime_missing_capability(name);\n"@
        + "      }\n"@
        + "      return;\n"@
        + "    }\n"@
        + "  }\n"@
        + "  fprintf(stderr, \"error: capability '%s' is not declared in this binary\\n\", name);\n"@
        + "  exit(74);\n"@
        + "}\n\n"@
        + "static void mica_runtime_provider_failure(const char *capability, const char *message) {\n"@
        + "  fprintf(stderr, \"error: capability provider '%s' reported an error: %s\\n\", capability, message);\n"@
        + "  exit(74);\n"@
        + "}\n\n"@
}

fn emit_runtime_checks(out: &mut String)
    ensures
        final(out)@ == old(out)@ + runtime_checks_c(),
{
    reveal(runtime_checks_c);
    push_str(out, "static void mica_runtime_initialize(void) {\n");
    push_str(out, "  if (!MICA_RUNTIME_INITIALIZED) {\n");
    push_str(out, "    MICA_RUNTIME_INITIALIZED = 1;\n");
    push_str(out, "    mica_runtime_register_default_providers();\n");
    push_str(out, "  }\n");
    push_str(out, "}\n\n");
    push_str(out, "static void mica_runtime_missing_capability(const char *name) {\n");
    push_str(out, "  fprintf(stderr, \"error: capability provider '%s' is not registered\\n\", name);\n");
    push_str(out, "  exit(74);\n");
    push_str(out, "}\n\n");
    push_str(out, "static void mica_runtime_require_capability(const char *name) {\n");
    push_str(out, "  for (size_t i = 0; i < MICA_RUNTIME_CAPABILITY_COUNT; ++i) {\n");
    push_str(out, "    const char *candidate = MICA_RUNTIME_CAPABILITY_NAMES[i];\n");
    push_str(out, "    if (candidate && strcmp(candidate, name) == 0) {\n");
    push_str(out, "      if (!MICA_RUNTIME_CAPABILITY_AVAILABLE[i]) {\n");
    push_str(out, "        mica_runtime_missing_capability(name);\n");
    push_str(out, "      }\n");
    push_str(out, "      return;\n");
    push_str(out, "    }\n");
    push_str(out, "  }\n");
    push_str(out, "  fprintf(stderr, \"error: capability '%s' is not declared in this binary\\n\", name);\n");
    push_str(out, "  exit(74);\n");
    push_str(out, "}\n\n");
    push_str(out, "static void mica_runtime_provider_failure(const char *capability, const char *message) {\n");
    push_str(out, "  fprintf(stderr, \"error: capability provider '%s' reported an error: %s\\n\", capability, message);\n");
    push_str(out, "  exit(74);\n");
    push_str(out, "}\n\n");
    assert(final(out)@ =~= old(out)@ + runtime_checks_c());
}

/// The body of the runtime's line writer after its capability check.
#[verifier::opaque]
pub open spec fn io_write_rest_c() -> Seq<char> {
    "  if (message) {\n"@
        + "    fprintf(stdout, \"%s\\n\", message);\n"@
        + "    fflush(stdout);\n"@
        + "  }\n"@
        + "}\n\n"@
}

fn emit_io_write_rest(out: &mut String)
    ensures
        final(out)@ == old(out)@ + io_write_rest_c(),
{
    reveal(io_write_rest_c);
    push_str(out, "  if (message) {\n");
    push_str(out, "    fprintf(stdout, \"%s\\n\", message);\n");
    push_str(out, "    fflush(stdout);\n");
    push_str(out, "  }\n");
    push_str(out, "}\n\n");
    assert(final(out)@ =~= old(out)@ + io_write_rest_c());
}

/// The body of the runtime's clock after its capability check.
#[verifier::opaque]
pub open spec fn time_now_rest_c() -> Seq<char> {
    "  struct timespec ts;\n"@
        + "  timespec_get(&ts, TIME_UTC);\n"@
        + "  return (int64_t)ts.tv_sec * 1000 + (int64_t)(ts.tv_nsec / 1000000);\n"@
        + "}\n\n"@
}

fn emit_time_now_rest(out: &mut String)
    ensures
        final(out)@ == old(out)@ + time_now_rest_c(),
{
    reveal(time_now_rest_c);
    push_str(out, "  struct timespec ts;\n");
    push_str(out, "  timespec_get(&ts, TIME_UTC);\n");
    push_str(out, "  return (int64_t)ts.tv_sec * 1000 + (int64_t)(ts.tv_nsec / 1000000);\n");
    push_str(out, "}\n\n");
    assert(final(out)@ =~= old(out)@ + time_now_rest_c());
}


// ---------------------------------------------------------------------------
// Runtime support
// ---------------------------------------------------------------------------

/// A capability name as a C string literal.
pub open spec fn quoted_c(c: Seq<char>) -> Seq<char> {
    "\""@ + c_escape(c) + "\""@
}

/// The table of the capabilities the program declares, and which of them
/// have a provider.
#[verifier::opaque]
pub open spec fn capability_table_c(caps: Seq<Seq<char>>) -> Seq<char> {
    if caps.len() == 0 {
        "static const size_t MICA_RUNTIME_CAPABILITY_COUNT = 0;\n"@
            + "static const char *MICA_RUNTIME_CAPABILITY_NAMES[1] = { NULL };\n"@
            + "static int MICA_RUNTIME_CAPABILITY_AVAILABLE[1] = { 0 };\n"@
    } else {
        let n = nat_digits(caps.len());
        "static const size_t MICA_RUNTIME_CAPABILITY_COUNT = "@ + n + ";\n"@
            + "static const char *MICA_RUNTIME_CAPABILITY_NAMES["@ + n + "] = { "@ + join(
            caps.map_values(|c: Seq<char>| quoted_c(c)),
            ", "@,
        ) + " };\n"@ + "static int MICA_RUNTIME_CAPABILITY_AVAILABLE["@ + n + "] = { "@ + join(
            Seq::new(caps.len(), |i: int| "0"@),
            ", "@,
        ) + " };\n"@
    }
}

/// The line marking capability `name` available.
pub open spec fn mark_line_c(name: Seq<char>) -> Seq<char> {
    "  mica_runtime_mark_capability(\""@ + c_escape(name) + "\");\n"@
}

/// The function registering the built-in providers: those for `io` and
/// `time`, where the program declares them.
#[verifier::opaque]
pub open spec fn default_providers_c(caps: Seq<Seq<char>>) -> Seq<char> {
    "static void mica_runtime_register_default_providers(void) {\n"@ + (if caps.len() == 0 {
        "  (void)MICA_RUNTIME_CAPABILITY_NAMES;\n"@
    } else {
        (if caps.contains("io"@) {
            mark_line_c("io"@)
        } else {
            Seq::empty()
        }) + (if caps.contains("time"@) {
            mark_line_c("time"@)
        } else {
            Seq::empty()
        })
    }) + "}\n\n"@
}

/// The line checking capability `name` at the start of a runtime function.
pub open spec fn require_line_c(name: Seq<char>) -> Seq<char> {
    "  mica_runtime_require_capability(\""@ + c_escape(name) + "\");\n"@
}

/// The C runtime for a program declaring the capabilities `caps`.
pub open spec fn runtime_support_c(caps: Seq<Seq<char>>) -> Seq<char> {
    capability_table_c(caps) + mark_capability_c() + default_providers_c(caps) + runtime_checks_c()
        + "static void mica_runtime_io_write_line(const char *message) {\n"@ + require_line_c("io"@)
        + io_write_rest_c() + "static int64_t mica_runtime_time_now_millis(void) {\n"@
        + require_line_c("time"@) + time_now_rest_c()
}

fn push_quoted_caps(out: &mut String, caps: &Vec<String>)
    ensures
        final(out)@ == old(out)@ + join(views(caps@).map_values(|c: Seq<char>| quoted_c(c)), ", "@),
{
    let ghost start = out@;
    let ghost q = views(caps@).map_values(|c: Seq<char>| quoted_c(c));
    let mut i: usize = 0;
    while i < caps.len()
        invariant
            i <= caps.len(),
            q == views(caps@).map_values(|c: Seq<char>| quoted_c(c)),
            out@ == start + join(q.take(i as int), ", "@),
        decreases caps.len() - i,
    {
        if i > 0 {
            push_str(out, ", ");
        }
        let ghost mid = out@;
        push_str(out, "\"");
        push_c_escaped(out, caps[i].as_str());
        push_str(out, "\"");
        proof {
            assert(out@ =~= mid + q[i as int]);
            assert(q.take(i + 1) =~= q.take(i as int).push(q[i as int]));
            lemma_join_push(q.take(i as int), ", "@, q[i as int]);
        }
        i = i + 1;
    }
    assert(q.take(caps.len() as int) =~= q);
}

fn push_zeros(out: &mut String, n: usize)
    ensures
        final(out)@ == old(out)@ + join(Seq::new(n as nat, |i: int| "0"@), ", "@),
{
    let ghost start = out@;
    let mut i: usize = 0;
    while i < n
        invariant
            i <= n,
            out@ == start + join(Seq::new(i as nat, |k: int| "0"@), ", "@),
        decreases n - i,
    {
        if i > 0 {
            push_str(out, ", ");
        }
        push_str(out, "0");
        proof {
            assert(Seq::new((i + 1) as nat, |k: int| "0"@) =~= Seq::new(i as nat, |k: int| "0"@).push("0"@));
            lemma_join_push(Seq::new(i as nat, |k: int| "0"@), ", "@, "0"@);
        }
        i = i + 1;
    }
}

fn emit_capability_table(out: &mut String, caps: &Vec<String>)
    ensures
        final(out)@ == old(out)@ + capability_table_c(views(caps@)),
{
    reveal(capability_table_c);
    if caps.len() == 0 {
        push_str(out, "static const size_t MICA_RUNTIME_CAPABILITY_COUNT = 0;\n");
        push_str(out, "static const char *MICA_RUNTIME_CAPABILITY_NAMES[1] = { NULL };\n");
        push_str(out, "static int MICA_RUNTIME_CAPABILITY_AVAILABLE[1] = { 0 };\n");
    } else {
        let n = caps.len();
        push_str(out, "static const size_t MICA_RUNTIME_CAPABILITY_COUNT = ");
        push_nat(out, n as u64);
        push_str(out, ";\n");
        push_str(out, "static const char *MICA_RUNTIME_CAPABILITY_NAMES[");
        push_nat(out, n as u64);
        push_str(out, "] = { ");
        push_quoted_caps(out, caps);
        push_str(out, " };\n");
        push_str(out, "static int MICA_RUNTIME_CAPABILITY_AVAILABLE[");
        push_nat(out, n as u64);
        push_str(out, "] = { ");
        push_zeros(out, n);
        push_str(out, " };\n");
    }
    assert(final(out)@ =~= old(out)@ + capability_table_c(views(caps@)));
}

fn contains_text(v: &Vec<String>, t: &str) -> (r: bool)
    ensures
        r == views(v@).contains(t@),
{
    let mut i: usize = 0;
    while i < v.len()
        invariant
            i <= v.len(),
            forall|k: int| 0 <= k < i ==> v@[k]@ != t@,
        decreases v.len() - i,
    {
        if str_is(v[i].as_str(), t) {
            assert(views(v@)[i as int] == t@);
            return true;
        }
        i = i + 1;
    }
    proof {
        if views(v@).contains(t@) {
            let k = choose|k: int| 0 <= k < views(v@).len() && views(v@)[k] == t@;
            assert(v@[k]@ == t@);
        }
    }
    false
}

fn emit_default_providers(out: &mut String, caps: &Vec<String>)
    ensures
        final(out)@ == old(out)@ + default_providers_c(views(caps@)),
{
    reveal(default_providers_c);
    push_str(out, "static void mica_runtime_register_default_providers(void) {\n");
    if caps.len() == 0 {
        push_str(out, "  (void)MICA_RUNTIME_CAPABILITY_NAMES;\n");
    } else {
        if contains_text(caps, "io") {
            push_str(out, "  mica_runtime_mark_capability(\"");
            push_c_escaped(out, "io");
            push_str(out, "\");\n");
        }
        if contains_text(caps, "time") {
            push_str(out, "  mica_runtime_mark_capability(\"");
            push_c_escaped(out, "time");
            push_str(out, "\");\n");
        }
    }
    push_str(out, "}\n\n");
    assert(final(out)@ =~= old(out)@ + default_providers_c(views(caps@)));
}

fn emit_require_line(out: &mut String, name: &str)
    ensures
        final(out)@ == old(out)@ + require_line_c(name@),
{
    push_str(out, "  mica_runtime_require_capability(\"");
    push_c_escaped(out, name);
    push_str(out, "\");\n");
    assert(final(out)@ =~= old(out)@ + require_line_c(name@));
}

fn emit_runtime_support(out: &mut String, caps: &Vec<String>)
    ensures
        final(out)@ == old(out)@ + runtime_support_c(views(caps@)),
{
    emit_capability_table(out, caps);
    emit_mark_capability(out);
    emit_default_providers(out, caps);
    emit_runtime_checks(out);
    push_str(out, "static void mica_runtime_io_write_line(const char *message) {\n");
    emit_require_line(out, "io");
    emit_io_write_rest(out);
    push_str(out, "static int64_t mica_runtime_time_now_millis(void) {\n");
    emit_require_line(out, "time");
    emit_time_now_rest(out);
    assert(final(out)@ =~= old(out)@ + runtime_support_c(views(caps@)));
}

// ---------------------------------------------------------------------------
// Capabilities
// ---------------------------------------------------------------------------

/// The effect names of the rows of `fs`, one function after another.
pub open spec fn rows_names(m: Module, fs: Seq<Function>) -> Seq<Seq<char>>
    decreases fs.len(),
{
    if fs.len() == 0 {
        Seq::empty()
    } else {
        rows_names(m, fs.drop_last()) + row_names(m, fs.last())
    }
}

/// The capabilities a module's functions declare: each effect name once,
/// in lexicographic order.
pub open spec fn module_capabilities(m: Module) -> Seq<Seq<char>> {
    sort_texts(first_occurrences(rows_names(m, m.functions@)))
}

/// Adds `name` to `seen` unless it is there already.
fn add_unique(seen: &mut Vec<String>, name: &str)
    ensures
        views(old(seen)@).contains(name@) ==> final(seen)@ == old(seen)@,
        !views(old(seen)@).contains(name@) ==> views(final(seen)@) == views(old(seen)@).push(name@),
{
    if !contains_text(seen, name) {
        seen.push(to_owned_string(name));
        assert(views(seen@) =~= views(old(seen)@).push(name@));
    }
}

pub proof fn lemma_first_occurrences_push(s: Seq<Seq<char>>, x: Seq<char>)
    ensures
        first_occurrences(s.push(x)) == if first_occurrences(s).contains(x) {
            first_occurrences(s)
        } else {
            first_occurrences(s).push(x)
        },
{
    assert(s.push(x).drop_last() =~= s);
    lemma_first_occurrences_contains(s, x);
}

/// The capabilities declared by the module's functions, sorted and without
/// repeats.
fn collect_capabilities(m: &Module) -> (caps: Vec<String>)
    requires
        m.wf(),
    ensures
        views(caps@) == module_capabilities(*m),
{
    let mut seen: Vec<String> = Vec::new();
    let mut fi: usize = 0;
    while fi < m.functions.len()
        invariant
            fi <= m.functions.len(),
            m.wf(),
            views(seen@) == first_occurrences(rows_names(*m, m.functions@.take(fi as int))),
        decreases m.functions.len() - fi,
    {
        let f = &m.functions[fi];
        assert(f.ids_within(m.types@.entries.len(), m.effects@.len()));
        let ghost prefix = rows_names(*m, m.functions@.take(fi as int));
        let mut ei: usize = 0;
        while ei < f.effect_row.len()
            invariant
                ei <= f.effect_row.len(),
                f.ids_within(m.types@.entries.len(), m.effects@.len()),
                views(seen@) == first_occurrences(prefix + row_names(*m, *f).take(ei as int)),
            decreases f.effect_row.len() - ei,
        {
            assert(f.effect_row@[ei as int].0 < m.effects@.len());
            let name = m.effect_name(f.effect_row[ei]);
            proof {
                let r = row_names(*m, *f);
                assert(r[ei as int] == name@);
                assert(prefix + r.take(ei + 1) =~= (prefix + r.take(ei as int)).push(name@));
                lemma_first_occurrences_push(prefix + r.take(ei as int), name@);
            }
            add_unique(&mut seen, name);
            ei = ei + 1;
        }
        proof {
            let fs = m.functions@.take(fi + 1);
            assert(fs.drop_last() =~= m.functions@.take(fi as int));
            assert(row_names(*m, *f).take(f.effect_row@.len() as int) =~= row_names(*m, *f));
        }
        fi = fi + 1;
    }
    assert(m.functions@.take(m.functions.len() as int) =~= m.functions@);
    crate::text::sorted_strings(&seen)
}

// ---------------------------------------------------------------------------
// Record definitions
// ---------------------------------------------------------------------------

/// The C member declaring a record field.
pub open spec fn field_line_c(m: Module, f: SpecField) -> Seq<char> {
    "  "@ + c_type(m, f.ty) + " "@ + sanitize(f.name) + ";\n"@
}

/// The C typedef of the type with index `i`, when it is a record.
pub open spec fn record_def_c(m: Module, i: int) -> Seq<char> {
    match m.types@.entries[i] {
        SpecType::Record(r) => {
            let name = record_name_c(r, TypeId(i as usize));
            "typedef struct "@ + name + " {\n"@ + concat(
                r.fields.map_values(|f: SpecField| field_line_c(m, f)),
            ) + "} "@ + name + ";\n"@ + "\n"@
        },
        _ => Seq::empty(),
    }
}

/// The C typedefs of the module's record types, by type id.
pub open spec fn record_defs_c(m: Module) -> Seq<char> {
    concat(Seq::new(m.types@.entries.len(), |i: int| record_def_c(m, i)))
}

fn emit_record_definition(out: &mut String, m: &Module, r: &crate::ir::RecordType, i: usize)
    requires
        m.types.wf(),
        i < m.types@.entries.len(),
        m.types@.entries[i as int] == SpecType::Record(r@),
    ensures
        final(out)@ == old(out)@ + record_def_c(*m, i as int),
{
    let ty = TypeId(i);
    push_str(out, "typedef struct ");
    push_record_name(out, r, ty);
    push_str(out, " {\n");
    let ghost head = out@;
    let ghost rf = r@.fields;
    let mut k: usize = 0;
    while k < r.fields.len()
        invariant
            k <= r.fields.len(),
            m.types.wf(),
            i < m.types@.entries.len(),
            m.types@.entries[i as int] == SpecType::Record(r@),
            rf == r@.fields,
            out@ == head + concat(rf.take(k as int).map_values(|f: SpecField| field_line_c(*m, f))),
        decreases r.fields.len() - k,
    {
        let ghost mid = out@;
        let field = &r.fields[k];
        assert(rf[k as int] == field@);
        assert(rf[k as int].ty.0 < i);
        push_str(out, "  ");
        c_type_value(out, m, field.ty);
        push_str(out, " ");
        push_str(out, sanitize_identifier(field.name.as_str()).as_str());
        push_str(out, ";\n");
        proof {
            let g = |f: SpecField| field_line_c(*m, f);
            assert(out@ =~= mid + g(rf[k as int]));
            assert(rf.take(k + 1).map_values(g) =~= rf.take(k as int).map_values(g).push(g(rf[k as int])));
            lemma_concat_push(rf.take(k as int).map_values(g), g(rf[k as int]));
        }
        k = k + 1;
    }
    assert(rf.take(rf.len() as int) =~= rf);
    push_str(out, "} ");
    push_record_name(out, r, ty);
    push_str(out, ";\n");
    push_str(out, "\n");
    assert(final(out)@ =~= old(out)@ + record_def_c(*m, i as int));
}

fn emit_record_definitions(out: &mut String, m: &Module)
    requires
        m.types.wf(),
    ensures
        final(out)@ == old(out)@ + record_defs_c(*m),
{
    let entries = m.types.entries();
    let ghost start = out@;
    let mut i: usize = 0;
    while i < entries.len()
        invariant
            i <= entries.len(),
            m.types.wf(),
            entries@.map_values(|t: Type| t@) == m.types@.entries,
            out@ == start + concat(Seq::new(i as nat, |k: int| record_def_c(*m, k))),
        decreases entries.len() - i,
    {
        let ghost mid = out@;
        assert(entries@[i as int]@ == m.types@.entries[i as int]);
        match &entries[i] {
            Type::Record(r) => emit_record_definition(out, m, r, i),
            _ => {},
        }
        proof {
            assert(out@ =~= mid + record_def_c(*m, i as int));
            assert(Seq::new((i + 1) as nat, |k: int| record_def_c(*m, k)) =~= Seq::new(i as nat, |k: int| record_def_c(*m, k)).push(record_def_c(*m, i as int)));
            lemma_concat_push(Seq::new(i as nat, |k: int| record_def_c(*m, k)), record_def_c(*m, i as int));
        }
        i = i + 1;
    }
    assert(Seq::new(i as nat, |k: int| record_def_c(*m, k)) =~= Seq::new(m.types@.entries.len(), |k: int| record_def_c(*m, k)));
}


// ---------------------------------------------------------------------------
// The whole program
// ---------------------------------------------------------------------------

/// The headers every generated program includes, and a blank line.
pub open spec fn includes_c() -> Seq<char> {
    "#include <stdbool.h>\n"@ + "#include <stdint.h>\n"@ + "#include <stddef.h>\n"@
        + "#include <stdlib.h>\n"@ + "#include <stdio.h>\n"@ + "#include <string.h>\n"@
        + "#include <time.h>\n"@ + "\n"@
}

/// A prototype for each function, so that functions can call each other in
/// any order.
pub open spec fn prototypes_c(m: Module) -> Seq<char> {
    concat(m.functions@.map_values(|f: Function| signature_c(m, f) + ";\n"@))
}

/// The C definition of a function, followed by a blank line.
pub open spec fn function_c(m: Module, f: Function) -> Rendered {
    match body_c(m, f) {
        Ok(b) => Ok(signature_c(m, f) + " {\n"@ + b + "}\n"@ + "\n"@),
        Err(e) => Err(e),
    }
}

/// The C program for a module: headers, runtime, record typedefs,
/// prototypes, then the function definitions; or the first error met in a
/// function, in module order.
#[verifier::opaque]
pub open spec fn c_source(m: Module) -> Rendered {
    match concat_results(m.functions@.map_values(|f: Function| function_c(m, f))) {
        Ok(defs) => Ok(
            includes_c() + runtime_support_c(module_capabilities(m)) + record_defs_c(m) + prototypes_c(m)
                + "\n"@ + defs,
        ),
        Err(e) => Err(e),
    }
}

fn emit_includes(out: &mut String)
    ensures
        final(out)@ == old(out)@ + includes_c(),
{
    push_str(out, "#include <stdbool.h>\n");
    push_str(out, "#include <stdint.h>\n");
    push_str(out, "#include <stddef.h>\n");
    push_str(out, "#include <stdlib.h>\n");
    push_str(out, "#include <stdio.h>\n");
    push_str(out, "#include <string.h>\n");
    push_str(out, "#include <time.h>\n");
    push_str(out, "\n");
    assert(final(out)@ =~= old(out)@ + includes_c());
}

fn emit_prototypes(out: &mut String, m: &Module)
    requires
        m.wf(),
    ensures
        final(out)@ == old(out)@ + prototypes_c(*m),
{
    let ghost start = out@;
    let ghost g = |f: Function| signature_c(*m, f) + ";\n"@;
    let mut i: usize = 0;
    while i < m.functions.len()
        invariant
            i <= m.functions.len(),
            m.wf(),
            out@ == start + concat(m.functions@.take(i as int).map_values(|f: Function| signature_c(*m, f) + ";\n"@)),
        decreases m.functions.len() - i,
    {
        let ghost mid = out@;
        assert(m.functions@[i as int].ids_within(m.types@.entries.len(), m.effects@.len()));
        function_signature(out, m, &m.functions[i]);
        push_str(out, ";\n");
        proof {
            let g = |f: Function| signature_c(*m, f) + ";\n"@;
            let fs = m.functions@;
            assert(out@ =~= mid + g(fs[i as int]));
            assert(fs.take(i + 1).map_values(g) =~= fs.take(i as int).map_values(g).push(g(fs[i as int])));
            lemma_concat_push(fs.take(i as int).map_values(g), g(fs[i as int]));
        }
        i = i + 1;
    }
    assert(m.functions@.take(m.functions.len() as int) =~= m.functions@);
}

fn emit_function(out: &mut String, m: &Module, f: &Function) -> (res: Result<(), BackendError>)
    requires
        m.types.wf(),
        f.ids_within(m.types@.entries.len(), m.effects@.len()),
    ensures
        match function_c(*m, *f) {
            Ok(text) => res is Ok && final(out)@ == old(out)@ + text,
            Err(e) => res matches Err(x) && x@ == e,
        },
{
    function_signature(out, m, f);
    push_str(out, " {\n");
    match emit_function_body(out, m, f) {
        Ok(()) => {},
        Err(e) => {
            return Err(e);
        },
    }
    push_str(out, "}\n");
    push_str(out, "\n");
    assert(final(out)@ =~= old(out)@ + function_c(*m, *f)->Ok_0);
    Ok(())
}

/// The C program for a module.
fn generate_c_source(m: &Module) -> (r: Result<String, BackendError>)
    requires
        m.wf(),
    ensures
        match c_source(*m) {
            Ok(text) => r matches Ok(s) && s@ == text,
            Err(e) => r matches Err(x) && x@ == e,
        },
{
    let mut out = String::new();
    emit_includes(&mut out);
    let caps = collect_capabilities(m);
    emit_runtime_support(&mut out, &caps);
    emit_record_definitions(&mut out, m);
    emit_prototypes(&mut out, m);
    push_str(&mut out, "\n");
    let ghost head = out@;
    let ghost parts = m.functions@.map_values(|f: Function| function_c(*m, f));
    let mut i: usize = 0;
    proof {
        assert(parts.take(0) =~= Seq::<Rendered>::empty());
    }
    while i < m.functions.len()
        invariant
            i <= m.functions.len(),
            m.wf(),
            parts == m.functions@.map_values(|f: Function| function_c(*m, f)),
            concat_results(parts.take(i as int)) matches Ok(acc) && out@ == head + acc,
        decreases m.functions.len() - i,
    {
        proof {
            super::lemma_concat_results_push(parts.take(i as int), parts[i as int]);
            assert(parts.take(i + 1) =~= parts.take(i as int).push(parts[i as int]));
        }
        assert(m.functions@[i as int].ids_within(m.types@.entries.len(), m.effects@.len()));
        match emit_function(&mut out, m, &m.functions[i]) {
            Ok(()) => {},
            Err(e) => {
                proof {
                    assert(concat_results(parts.take(i + 1)) == Err::<Seq<char>, SpecBackendError>(e@));
                    super::lemma_concat_results_err(parts, i + 1);
                    reveal(c_source);
                    assert(m.functions@.map_values(|f: Function| function_c(*m, f)) =~= parts);
                    assert(c_source(*m) == Err::<Seq<char>, SpecBackendError>(e@));
                }
                return Err(e);
            },
        }
        assert(out@ =~= head + concat_results(parts.take(i + 1))->Ok_0);
        i = i + 1;
    }
    proof {
        assert(parts.take(parts.len() as int) =~= parts);
        reveal(c_source);
        assert(m.functions@.map_values(|f: Function| function_c(*m, f)) =~= parts);
        assert(out@ =~= c_source(*m)->Ok_0);
    }
    Ok(out)
}

/// The module's name joined by `_`.
pub open spec fn artifact_name(m: Module) -> Seq<char> {
    join(views(m.name@), "_"@)
}

impl Backend for NativeBackend {
    type Output = NativeArtifact;

    open spec fn compiles_to(
        &self,
        module: &Module,
        options: &BackendOptions,
        result: Result<NativeArtifact, BackendError>,
    ) -> bool {
        match c_source(*module) {
            Ok(text) => result matches Ok(a) && a.c_source@ == text && a.module_name@ == artifact_name(*module),
            Err(e) => result matches Err(x) && x@ == e,
        }
    }

    fn compile(&self, module: &Module, options: &BackendOptions) -> (r: Result<NativeArtifact, BackendError>) {
        match generate_c_source(module) {
            Ok(c_source) => {
                let module_name = crate::text::join_strings(&module.name, "_");
                Ok(NativeArtifact { c_source, module_name })
            },
            Err(e) => Err(e),
        }
    }
}

} // verus!
