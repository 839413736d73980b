//! A back end that renders a module as LLVM-flavoured textual IR.
use vstd::prelude::*;

use super::{concat_results, Backend, BackendError, BackendOptions, Rendered, SpecBackendError};
use crate::ir::{
    BasicBlock, BlockId, FuncRef, Function, InstKind, Instruction, Module, SpecField, SpecRecord,
    SpecType, Terminator, Type, TypeId, ValueId,
};
use super::native::{first_missing, first_unknown, lit_value, lit_views};
use crate::ir::analysis::{reports, BlockPurity, PurityReport};
use crate::ir::EffectId;
use crate::syntax::ast::{BinaryOp, Literal};
use crate::text::{
    bool_text, chars_of, hex_digit, hex_digit_of, int_text, join, lemma_join_push, nat_digits,
    push_char, push_nat, push_str, to_owned_string, views,
};

verus! {

/// The back end producing LLVM-flavoured IR text.
#[derive(Debug)]
pub struct LlvmBackend {
    /// The target triple to name; when absent, the one of the options, if
    /// any.
    pub target_triple: Option<String>,
}

impl Default for LlvmBackend {
    fn default() -> (b: LlvmBackend)
        ensures
            b.target_triple is None,
    {
        LlvmBackend { target_triple: None }
    }
}

/// The rendered IR and the target triple it names.
#[derive(Debug)]
pub struct LlvmModule {
    pub ir: String,
    pub target_triple: Option<String>,
}

impl LlvmModule {
    /// The IR text.
    pub fn as_str(&self) -> (s: &str)
        ensures
            s@ == self.ir@,
    {
        self.ir.as_str()
    }
}

/// The data layout every module declares.
pub open spec fn data_layout() -> Seq<char> {
    "e-m:e-p:64:64-i64:64-f64:64-n8:16:32:64-S128"@
}

/// The data layout every module declares.
pub fn default_data_layout() -> (s: &'static str)
    ensures
        s@ == data_layout(),
{
    "e-m:e-p:64:64-i64:64-f64:64-n8:16:32:64-S128"
}

// ---------------------------------------------------------------------------
// Symbols and string constants
// ---------------------------------------------------------------------------

/// `.` and `:` replaced by `_`.
pub open spec fn symbol_char(c: char) -> char {
    if c == '.' || c == ':' {
        '_'
    } else {
        c
    }
}

/// A name with each `.` and `:` replaced by `_`.
pub open spec fn symbol(s: Seq<char>) -> Seq<char> {
    s.map_values(|c: char| symbol_char(c))
}

/// The IR name of the record type called `name`.
pub open spec fn record_symbol_of(name: Seq<char>) -> Seq<char> {
    "record."@ + symbol(name)
}

/// The name with each `.` and `:` replaced by `_`.
pub fn sanitize_symbol(name: &str) -> (s: String)
    ensures
        s@ == symbol(name@),
{
    let v = chars_of(name);
    let mut s = String::new();
    let mut i: usize = 0;
    while i < v.len()
        invariant
            i <= v.len(),
            v@ == name@,
            s@ == symbol(name@.take(i as int)),
        decreases v.len() - i,
    {
        let c = v[i];
        if c == '.' || c == ':' {
            push_char(&mut s, '_');
        } else {
            push_char(&mut s, c);
        }
        assert(symbol(name@.take(i + 1)) =~= symbol(name@.take(i as int)).push(symbol_char(c)));
        i = i + 1;
    }
    assert(name@.take(v.len() as int) =~= name@);
    s
}

/// The IR name of the record type called `name`.
pub fn record_symbol(name: &str) -> (s: String)
    ensures
        s@ == record_symbol_of(name@),
{
    let mut s = String::new();
    push_str(&mut s, "record.");
    push_str(&mut s, sanitize_symbol(name).as_str());
    assert(s@ =~= record_symbol_of(name@));
    s
}

/// Upper-case hexadecimal digits of `n`, most significant first.
pub open spec fn hex_digits(n: nat) -> Seq<char>
    decreases n,
{
    if n < 16 {
        seq![hex_digit(n as int)]
    } else {
        hex_digits(n / 16).push(hex_digit((n % 16) as int))
    }
}

/// Upper-case hexadecimal of `n`, at least two digits.
pub open spec fn hex2(n: nat) -> Seq<char> {
    if n < 16 {
        seq!['0', hex_digit(n as int)]
    } else {
        hex_digits(n)
    }
}

/// The escape of one character in an IR string constant: `\`, `"`, line
/// feed, carriage return and tab as two hexadecimal digits; printable ASCII
/// and space as themselves; any other character as its code point in
/// hexadecimal.
pub open spec fn ir_escape_char(c: char) -> Seq<char> {
    if c == '\\' {
        "\\5C"@
    } else if c == '"' {
        "\\22"@
    } else if c == '\n' {
        "\\0A"@
    } else if c == '\r' {
        "\\0D"@
    } else if c == '\t' {
        "\\09"@
    } else if 0x21 <= (c as u32) <= 0x7e || c == ' ' {
        seq![c]
    } else {
        seq!['\\'] + hex2(c as u32 as nat)
    }
}

/// The escape of a whole string constant.
pub open spec fn ir_escape(s: Seq<char>) -> Seq<char>
    decreases s.len(),
{
    if s.len() == 0 {
        Seq::empty()
    } else {
        ir_escape(s.drop_last()) + ir_escape_char(s.last())
    }
}

fn push_hex_digits(out: &mut String, n: u32)
    ensures
        final(out)@ == old(out)@ + hex_digits(n as nat),
    decreases n,
{
    if n >= 16 {
        push_hex_digits(out, n / 16);
    }
    let c = hex_digit_of(n % 16);
    push_char(out, c);
    assert(final(out)@ =~= old(out)@ + hex_digits(n as nat)) by {
        reveal_with_fuel(hex_digits, 2);
    }
}

fn push_ir_escaped(out: &mut String, t: &str)
    ensures
        final(out)@ == old(out)@ + ir_escape(t@),
{
    let v = chars_of(t);
    let ghost start = out@;
    let mut i: usize = 0;
    while i < v.len()
        invariant
            i <= v@.len(),
            v@ == t@,
            out@ == start + ir_escape(t@.take(i as int)),
        decreases v.len() - i,
    {
        let c = v[i];
        let ghost mid = out@;
        if c == '\\' {
            push_str(out, "\\5C");
        } else if c == '"' {
            push_str(out, "\\22");
        } else if c == '\n' {
            push_str(out, "\\0A");
        } else if c == '\r' {
            push_str(out, "\\0D");
        } else if c == '\t' {
            push_str(out, "\\09");
        } else if (0x21 <= (c as u32) && (c as u32) <= 0x7e) || c == ' ' {
            push_char(out, c);
        } else {
            push_char(out, '\\');
            let code = c as u32;
            if code < 16 {
                push_char(out, '0');
                push_char(out, hex_digit_of(code));
            } else {
                push_hex_digits(out, code);
            }
        }
        proof {
            assert(out@ =~= mid + ir_escape_char(c));
            assert(t@.take(i + 1).drop_last() =~= t@.take(i as int));
            assert(out@ =~= start + ir_escape(t@.take(i + 1)));
        }
        i = i + 1;
    }
    assert(t@.take(v.len() as int) =~= t@);
}

/// The escape of a string constant.
pub fn escape_string(value: &str) -> (s: String)
    ensures
        s@ == ir_escape(value@),
{
    let mut s = String::new();
    push_ir_escaped(&mut s, value);
    assert(s@ =~= ir_escape(value@));
    s
}


// ---------------------------------------------------------------------------
// Types
// ---------------------------------------------------------------------------

/// The IR type of a value of type `ty`: named records by their symbol,
/// anonymous records by their field types.
pub open spec fn llvm_type(m: Module, ty: TypeId) -> Seq<char>
    decreases ty.0, 1nat, 0nat,
{
    match m.types@.entries[ty.0 as int] {
        SpecType::Unit => "void"@,
        SpecType::Int => "i64"@,
        SpecType::Float => "double"@,
        SpecType::Bool => "i1"@,
        SpecType::Record(r) => match r.name {
            Some(n) => "%"@ + record_symbol_of(n),
            None => if r.fields.len() == 0 {
                "{}"@
            } else {
                "{ "@ + join(field_types(m, r.fields, ty.0), ", "@) + " }"@
            },
        },
        _ => "ptr"@,
    }
}

/// The IR types of the fields `fs` of a record with index `bound` (fields
/// refer to earlier entries of a well-formed table).
pub open spec fn field_types(m: Module, fs: Seq<SpecField>, bound: usize) -> Seq<Seq<char>>
    decreases bound, 0nat, fs.len(),
{
    if fs.len() == 0 {
        Seq::empty()
    } else {
        field_types(m, fs.drop_last(), bound).push(
            if fs.last().ty.0 < bound {
                llvm_type(m, fs.last().ty)
            } else {
                "ptr"@
            },
        )
    }
}

proof fn lemma_field_types(m: Module, fs: Seq<SpecField>, bound: usize)
    requires
        forall|f: int| 0 <= f < fs.len() ==> (#[trigger] fs[f]).ty.0 < bound,
    ensures
        field_types(m, fs, bound) == fs.map_values(|f: SpecField| llvm_type(m, f.ty)),
    decreases fs.len(),
{
    if fs.len() > 0 {
        lemma_field_types(m, fs.drop_last(), bound);
        assert(fs.map_values(|f: SpecField| llvm_type(m, f.ty)) =~= fs.drop_last().map_values(|f: SpecField| llvm_type(m, f.ty)).push(llvm_type(m, fs.last().ty)));
    }
}

/// Appends the IR type of a value of type `ty`.
fn push_type(out: &mut String, m: &Module, ty: TypeId)
    requires
        m.types.wf(),
        m.types.valid_id(ty),
    ensures
        final(out)@ == old(out)@ + llvm_type(*m, ty),
    decreases ty.0, 1nat,
{
    match m.type_of(ty) {
        Type::Unit => push_str(out, "void"),
        Type::Int => push_str(out, "i64"),
        Type::Float => push_str(out, "double"),
        Type::Bool => push_str(out, "i1"),
        Type::Record(r) => {
            match &r.name {
                Some(n) => {
                    push_str(out, "%");
                    push_str(out, record_symbol(n.as_str()).as_str());
                },
                None => {
                    if r.fields.len() == 0 {
                        push_str(out, "{}");
                    } else {
                        proof {
                            let rf = r@.fields;
                            assert(forall|f: int| 0 <= f < rf.len() ==> (#[trigger] rf[f]).ty.0 < ty.0);
                            lemma_field_types(*m, rf, ty.0);
                        }
                        push_str(out, "{ ");
                        push_field_types(out, m, r, ty.0);
                        push_str(out, " }");
                    }
                },
            }
        },
        _ => push_str(out, "ptr"),
    }
    assert(final(out)@ =~= old(out)@ + llvm_type(*m, ty));
}

/// Appends the IR types of the fields of `r`, joined by `, `; the fields
/// refer to entries before `bound`.
fn push_field_types(out: &mut String, m: &Module, r: &crate::ir::RecordType, bound: usize)
    requires
        m.types.wf(),
        bound <= m.types@.entries.len(),
        forall|f: int| 0 <= f < r@.fields.len() ==> (#[trigger] r@.fields[f]).ty.0 < bound,
    ensures
        final(out)@ == old(out)@ + join(r@.fields.map_values(|f: SpecField| llvm_type(*m, f.ty)), ", "@),
    decreases bound, 0nat,
{
    let ghost rf = r@.fields;
    let ghost head = out@;
    let mut k: usize = 0;
    while k < r.fields.len()
        invariant
            k <= r.fields.len(),
            m.types.wf(),
            bound <= m.types@.entries.len(),
            rf == r@.fields,
            forall|f: int| 0 <= f < rf.len() ==> (#[trigger] rf[f]).ty.0 < bound,
            out@ == head + join(rf.take(k as int).map_values(|f: SpecField| llvm_type(*m, f.ty)), ", "@),
        decreases r.fields.len() - k,
    {
        if k > 0 {
            push_str(out, ", ");
        }
        assert(rf[k as int] == r.fields@[k as int]@);
        assert(rf[k as int].ty.0 < bound);
        push_type(out, m, r.fields[k].ty);
        proof {
            let g = |f: SpecField| llvm_type(*m, f.ty);
            assert(rf.take(k + 1).map_values(g) =~= rf.take(k as int).map_values(g).push(g(rf[k as int])));
            lemma_join_push(rf.take(k as int).map_values(g), ", "@, g(rf[k as int]));
        }
        k = k + 1;
    }
    assert(rf.take(rf.len() as int) =~= rf);
}

/// The IR type of a value of type `ty`.
pub fn format_type(m: &Module, ty: TypeId) -> (s: String)
    requires
        m.types.wf(),
        m.types.valid_id(ty),
    ensures
        s@ == llvm_type(*m, ty),
{
    let mut s = String::new();
    push_type(&mut s, m, ty);
    assert(s@ =~= llvm_type(*m, ty));
    s
}


// ---------------------------------------------------------------------------
// Type declarations
// ---------------------------------------------------------------------------

/// `t` is a record called `n`.
pub open spec fn record_named(t: SpecType, n: Seq<char>) -> bool {
    t matches SpecType::Record(r) && r.name == Some(n)
}

/// `t` is a record with a name.
pub open spec fn is_named_record(t: SpecType) -> bool {
    t matches SpecType::Record(r) && r.name is Some
}

/// Some entry before `i` is a record called `n`.
pub open spec fn named_before(es: Seq<SpecType>, i: int, n: Seq<char>) -> bool {
    exists|j: int| 0 <= j < i && #[trigger] record_named(es[j], n)
}

/// The body of a record's type declaration.
pub open spec fn record_body(m: Module, r: SpecRecord) -> Seq<char> {
    if r.fields.len() == 0 {
        "{}"@
    } else {
        "{ "@ + join(r.fields.map_values(|f: SpecField| llvm_type(m, f.ty)), ", "@) + " }"@
    }
}

/// The declaration of entry `i`: for the first record with a given name,
/// its type and layout; nothing otherwise.
pub open spec fn type_decl(m: Module, i: int) -> Seq<char> {
    let es = m.types@.entries;
    match es[i] {
        SpecType::Record(r) => match r.name {
            Some(n) => if named_before(es, i, n) {
                Seq::empty()
            } else {
                "%"@ + record_symbol_of(n) + " = type "@ + record_body(m, r) + "\n"@ + "; layout: size="@
                    + nat_digits(r.size as nat) + ", align="@ + nat_digits(r.align as nat) + "\n"@
            },
            None => Seq::empty(),
        },
        _ => Seq::empty(),
    }
}

/// Whether the table holds a record with a name.
pub open spec fn has_named_record(es: Seq<SpecType>) -> bool {
    exists|i: int| 0 <= i < es.len() && #[trigger] is_named_record(es[i])
}

/// The type declarations of a module, followed by a blank line when there
/// is any.
pub open spec fn type_decls(m: Module) -> Seq<char> {
    let es = m.types@.entries;
    crate::text::concat(Seq::new(es.len(), |i: int| type_decl(m, i))) + if has_named_record(es) {
        "\n"@
    } else {
        Seq::empty()
    }
}

fn contains_name(v: &Vec<String>, t: &str) -> (r: bool)
    ensures
        r == crate::text::views(v@).contains(t@),
{
    let mut i: usize = 0;
    while i < v.len()
        invariant
            i <= v.len(),
            forall|k: int| 0 <= k < i ==> v@[k]@ != t@,
        decreases v.len() - i,
    {
        if crate::text::str_eq(v[i].as_str(), t) {
            assert(crate::text::views(v@)[i as int] == t@);
            return true;
        }
        i = i + 1;
    }
    proof {
        if crate::text::views(v@).contains(t@) {
            let k = choose|k: int| 0 <= k < crate::text::views(v@).len() && crate::text::views(v@)[k] == t@;
            assert(v@[k]@ == t@);
        }
    }
    false
}

fn push_type_decl(out: &mut String, m: &Module, r: &crate::ir::RecordType, n: &String, i: usize)
    requires
        m.types.wf(),
        i < m.types@.entries.len(),
        m.types@.entries[i as int] == SpecType::Record(r@),
        r.name == Some(*n),
        !named_before(m.types@.entries, i as int, n@),
    ensures
        final(out)@ == old(out)@ + type_decl(*m, i as int),
{
    push_str(out, "%");
    push_str(out, record_symbol(n.as_str()).as_str());
    push_str(out, " = type ");
    if r.fields.len() == 0 {
        push_str(out, "{}");
    } else {
        push_str(out, "{ ");
        push_field_types(out, m, r, i);
        push_str(out, " }");
    }
    push_str(out, "\n");
    push_str(out, "; layout: size=");
    push_nat(out, r.size as u64);
    push_str(out, ", align=");
    push_nat(out, r.align as u64);
    push_str(out, "\n");
    assert(final(out)@ =~= old(out)@ + type_decl(*m, i as int));
}

proof fn lemma_named_before_step(es: Seq<SpecType>, i: int, x: Seq<char>)
    requires
        0 <= i < es.len(),
    ensures
        named_before(es, i + 1, x) <==> (named_before(es, i, x) || record_named(es[i], x)),
{
    if named_before(es, i + 1, x) && !record_named(es[i], x) {
        let j = choose|j: int| 0 <= j < i + 1 && #[trigger] record_named(es[j], x);
        assert(j != i);
        assert(named_before(es, i, x));
    }
    if named_before(es, i, x) {
        let j = choose|j: int| 0 <= j < i && #[trigger] record_named(es[j], x);
        assert(record_named(es[j], x));
    }
    if record_named(es[i], x) {
        assert(record_named(es[i], x));
    }
}

proof fn lemma_push_contains(s: Seq<Seq<char>>, n: Seq<char>, x: Seq<char>)
    ensures
        s.push(n).contains(x) <==> (s.contains(x) || x == n),
{
    if s.push(n).contains(x) && x != n {
        let k = choose|k: int| 0 <= k < s.push(n).len() && s.push(n)[k] == x;
        assert(k < s.len());
        assert(s[k] == x);
    }
    if s.contains(x) {
        let k = choose|k: int| 0 <= k < s.len() && s[k] == x;
        assert(s.push(n)[k] == x);
    }
    if x == n {
        assert(s.push(n)[s.len() as int] == x);
    }
}

/// Appends the type declarations of the module.
fn push_type_decls(out: &mut String, m: &Module)
    requires
        m.types.wf(),
    ensures
        final(out)@ == old(out)@ + type_decls(*m),
{
    let entries = m.types.entries();
    let ghost es = m.types@.entries;
    let ghost start = out@;
    let mut seen: Vec<String> = Vec::new();
    let mut any = false;
    let mut i: usize = 0;
    while i < entries.len()
        invariant
            i <= entries.len(),
            m.types.wf(),
            es == m.types@.entries,
            entries@.map_values(|t: Type| t@) == es,
            forall|n: Seq<char>| crate::text::views(seen@).contains(n) <==> named_before(es, i as int, n),
            any == (seen@.len() > 0),
            any == exists|j: int| 0 <= j < i && #[trigger] is_named_record(es[j]),
            out@ == start + crate::text::concat(Seq::new(i as nat, |k: int| type_decl(*m, k))),
        decreases entries.len() - i,
    {
        let ghost mid = out@;
        let ghost seen0 = crate::text::views(seen@);
        assert(entries@[i as int]@ == es[i as int]);
        match &entries[i] {
            Type::Record(r) => {
                match &r.name {
                    Some(n) => {
                        let pushed = !contains_name(&seen, n.as_str());
                        if pushed {
                            push_type_decl(out, m, r, n, i);
                            seen.push(crate::text::copy_string(n));
                            any = true;
                        }
                        proof {
                            assert(es[i as int] == SpecType::Record(r@));
                            assert(r@.name == Some(n@));
                            assert(record_named(es[i as int], n@));
                            if pushed {
                                assert(crate::text::views(seen@) =~= seen0.push(n@));
                            } else {
                                assert(crate::text::views(seen@) =~= seen0);
                            }
                            assert forall|x: Seq<char>| crate::text::views(seen@).contains(x) <==> named_before(es, i + 1, x) by {
                                lemma_named_before_step(es, i as int, x);
                                if pushed {
                                    lemma_push_contains(seen0, n@, x);
                                }
                            }
                        }
                    },
                    None => {
                        proof {
                            assert(es[i as int] == SpecType::Record(r@));
                            assert forall|x: Seq<char>| crate::text::views(seen@).contains(x) <==> named_before(es, i + 1, x) by {
                                lemma_named_before_step(es, i as int, x);
                            }
                        }
                    },
                }
            },
            _ => {
                proof {
                    assert(!(es[i as int] is Record));
                    assert forall|x: Seq<char>| crate::text::views(seen@).contains(x) <==> named_before(es, i + 1, x) by {
                        lemma_named_before_step(es, i as int, x);
                    }
                }
            },
        }
        proof {
            if is_named_record(es[i as int]) {
                assert(exists|j: int| 0 <= j < i + 1 && #[trigger] is_named_record(es[j]));
            } else {
                if exists|j: int| 0 <= j < i + 1 && #[trigger] is_named_record(es[j]) {
                    let j = choose|j: int| 0 <= j < i + 1 && #[trigger] is_named_record(es[j]);
                    assert(j < i);
                }
            }
            assert(out@ =~= mid + type_decl(*m, i as int));
            assert(Seq::new((i + 1) as nat, |k: int| type_decl(*m, k)) =~= Seq::new(i as nat, |k: int| type_decl(*m, k)).push(type_decl(*m, i as int)));
            crate::text::lemma_concat_push(Seq::new(i as nat, |k: int| type_decl(*m, k)), type_decl(*m, i as int));
        }
        i = i + 1;
    }
    assert(Seq::new(i as nat, |k: int| type_decl(*m, k)) =~= Seq::new(es.len(), |k: int| type_decl(*m, k)));
    if any {
        push_str(out, "\n");
    }
    assert(final(out)@ =~= old(out)@ + type_decls(*m));
}


// ---------------------------------------------------------------------------
// Rendering state
// ---------------------------------------------------------------------------

/// What the renderer has learnt so far: the type of each value seen in the
/// current function (a later binding supersedes an earlier one), the values
/// of the current function that are unit literals, and the string constants
/// of the module in order of first use.
pub struct RenderState {
    pub bindings: Seq<(ValueId, TypeId)>,
    pub units: Seq<ValueId>,
    pub strings: Seq<Seq<char>>,
}

/// The type bound last to `v`.
pub open spec fn lookup_type(bs: Seq<(ValueId, TypeId)>, v: ValueId) -> Option<TypeId>
    decreases bs.len(),
{
    if bs.len() == 0 {
        None
    } else if bs.last().0 == v {
        Some(bs.last().1)
    } else {
        lookup_type(bs.drop_last(), v)
    }
}

/// The type of `v` as known in `st`, or the unknown type.
pub open spec fn value_type(m: Module, st: RenderState, v: ValueId) -> TypeId {
    match lookup_type(st.bindings, v) {
        Some(t) => t,
        None => m.types@.unknown,
    }
}

/// The IR type of value `v` as known in `st`.
pub open spec fn value_llvm_type(m: Module, st: RenderState, v: ValueId) -> Seq<char> {
    llvm_type(m, value_type(m, st, v))
}

/// The decimal id of a value.
pub open spec fn vid(v: ValueId) -> Seq<char> {
    nat_digits(v.0 as nat)
}

/// The first position of `s` in `strs`.
pub open spec fn index_in(strs: Seq<Seq<char>>, s: Seq<char>) -> int
    decreases strs.len(),
{
    if strs.len() == 0 {
        0
    } else if strs.last() == s && !strs.drop_last().contains(s) {
        strs.len() - 1
    } else {
        index_in(strs.drop_last(), s)
    }
}

/// The string table after interning `s`.
pub open spec fn interned(strs: Seq<Seq<char>>, s: Seq<char>) -> Seq<Seq<char>> {
    if strs.contains(s) {
        strs
    } else {
        strs.push(s)
    }
}

/// Length in bytes of the UTF-8 encoding of `s`.
pub open spec fn byte_len(s: Seq<char>) -> nat {
    (vstd::utf8::encode_utf8(s).len() as usize) as nat
}

// ---------------------------------------------------------------------------
// Instructions
// ---------------------------------------------------------------------------

/// An arithmetic instruction: the floating-point form on `double`, the
/// integer form otherwise.
pub open spec fn arith_line(r: ValueId, iop: Seq<char>, fop: Seq<char>, ty: Seq<char>, l: ValueId, rr: ValueId) -> Seq<char> {
    "  %"@ + vid(r) + " = "@ + (if ty == "double"@ {
        fop + " double"@
    } else {
        iop + " "@ + ty
    }) + " %"@ + vid(l) + ", %"@ + vid(rr)
}

/// A comparison: `fcmp` on `double`, `icmp` otherwise (on `i1` for
/// `void` operands).
pub open spec fn cmp_line(r: ValueId, ipred: Seq<char>, fpred: Seq<char>, ty: Seq<char>, l: ValueId, rr: ValueId) -> Seq<char> {
    "  %"@ + vid(r) + " = "@ + (if ty == "double"@ {
        "fcmp "@ + fpred + " double"@
    } else {
        "icmp "@ + ipred + " "@ + (if ty == "void"@ {
            "i1"@
        } else {
            ty
        })
    }) + " %"@ + vid(l) + ", %"@ + vid(rr)
}

/// A logical instruction.
pub open spec fn logic_line(r: ValueId, op: Seq<char>, ty: Seq<char>, l: ValueId, rr: ValueId) -> Seq<char> {
    "  %"@ + vid(r) + " = "@ + op + " "@ + ty + " %"@ + vid(l) + ", %"@ + vid(rr)
}

/// The IR of a binary operation whose left operand has IR type `ty`.
pub open spec fn binary_line(op: BinaryOp, r: ValueId, ty: Seq<char>, l: ValueId, rr: ValueId) -> Seq<char> {
    match op {
        BinaryOp::Add => arith_line(r, "add"@, "fadd"@, ty, l, rr),
        BinaryOp::Sub => arith_line(r, "sub"@, "fsub"@, ty, l, rr),
        BinaryOp::Mul => arith_line(r, "mul"@, "fmul"@, ty, l, rr),
        BinaryOp::Div => arith_line(r, "sdiv"@, "fdiv"@, ty, l, rr),
        BinaryOp::Mod => arith_line(r, "srem"@, "frem"@, ty, l, rr),
        BinaryOp::And => logic_line(r, "and"@, ty, l, rr),
        BinaryOp::Or => logic_line(r, "or"@, ty, l, rr),
        BinaryOp::Eq => cmp_line(r, "eq"@, "oeq"@, ty, l, rr),
        BinaryOp::Ne => cmp_line(r, "ne"@, "one"@, ty, l, rr),
        BinaryOp::Lt => cmp_line(r, "slt"@, "olt"@, ty, l, rr),
        BinaryOp::Le => cmp_line(r, "sle"@, "ole"@, ty, l, rr),
        BinaryOp::Gt => cmp_line(r, "sgt"@, "ogt"@, ty, l, rr),
        BinaryOp::Ge => cmp_line(r, "sge"@, "oge"@, ty, l, rr),
    }
}

/// What a comparison operator of the source language says of two numbers.
pub open spec fn source_cmp_holds(op: BinaryOp, a: int, b: int) -> bool {
    match op {
        BinaryOp::Eq => a == b,
        BinaryOp::Ne => a != b,
        BinaryOp::Lt => a < b,
        BinaryOp::Le => a <= b,
        BinaryOp::Gt => a > b,
        BinaryOp::Ge => a >= b,
        _ => false,
    }
}

/// What an LLVM `icmp` predicate says of two integers read as signed.
pub open spec fn icmp_holds(pred: Seq<char>, a: int, b: int) -> bool {
    if pred == "eq"@ {
        a == b
    } else if pred == "ne"@ {
        a != b
    } else if pred == "slt"@ {
        a < b
    } else if pred == "sle"@ {
        a <= b
    } else if pred == "sgt"@ {
        a > b
    } else if pred == "sge"@ {
        a >= b
    } else {
        false
    }
}

/// What an ordered LLVM `fcmp` predicate says of two numbers that are not
/// NaN.
pub open spec fn fcmp_holds(pred: Seq<char>, a: int, b: int) -> bool {
    if pred == "oeq"@ {
        a == b
    } else if pred == "one"@ {
        a != b
    } else if pred == "olt"@ {
        a < b
    } else if pred == "ole"@ {
        a <= b
    } else if pred == "ogt"@ {
        a > b
    } else if pred == "oge"@ {
        a >= b
    } else {
        false
    }
}

/// The integer type an `icmp` compares at: `i1` for `void` operands.
pub open spec fn icmp_type(ty: Seq<char>) -> Seq<char> {
    if ty == "void"@ {
        "i1"@
    } else {
        ty
    }
}

/// An `icmp` line.
pub open spec fn icmp_text(r: ValueId, pred: Seq<char>, ity: Seq<char>, l: ValueId, rr: ValueId) -> Seq<char> {
    "  %"@ + vid(r) + " = icmp "@ + pred + " "@ + ity + " %"@ + vid(l) + ", %"@ + vid(rr)
}

/// An `fcmp` line on doubles.
pub open spec fn fcmp_text(r: ValueId, pred: Seq<char>, l: ValueId, rr: ValueId) -> Seq<char> {
    "  %"@ + vid(r) + " = fcmp "@ + pred + " double %"@ + vid(l) + ", %"@ + vid(rr)
}

/// A comparison on integer operands is one `icmp` whose predicate has the
/// same truth table as the source operator (on `void` operands, over `i1`).
pub proof fn lemma_icmp_matches_operator(op: BinaryOp, r: ValueId, ty: Seq<char>, l: ValueId, rr: ValueId)
    requires
        op is Lt || op is Le || op is Gt || op is Ge || op is Eq || op is Ne,
        ty != "double"@,
    ensures
        exists|pred: Seq<char>|
            #[trigger] icmp_text(r, pred, icmp_type(ty), l, rr) == binary_line(op, r, ty, l, rr)
                && forall|a: int, b: int| icmp_holds(pred, a, b) == source_cmp_holds(op, a, b),
{
    reveal_strlit("eq");
    reveal_strlit("ne");
    reveal_strlit("slt");
    reveal_strlit("sle");
    reveal_strlit("sgt");
    reveal_strlit("sge");
    reveal_strlit("oeq");
    reveal_strlit("one");
    reveal_strlit("olt");
    reveal_strlit("ole");
    reveal_strlit("ogt");
    reveal_strlit("oge");
    reveal_strlit("  %");
    reveal_strlit(" = ");
    reveal_strlit("icmp ");
    reveal_strlit(" = icmp ");
    let ity = icmp_type(ty);
    let pred = match op {
        BinaryOp::Eq => "eq"@,
        BinaryOp::Ne => "ne"@,
        BinaryOp::Lt => "slt"@,
        BinaryOp::Le => "sle"@,
        BinaryOp::Gt => "sgt"@,
        _ => "sge"@,
    };
    assert(" = "@ + "icmp "@ =~= " = icmp "@);
    assert(icmp_text(r, pred, ity, l, rr) =~= binary_line(op, r, ty, l, rr));
    assert("eq"@.len() == 2 && "ne"@.len() == 2 && "slt"@.len() == 3);
    assert("ne"@[0] != "eq"@[0]);
    assert("sle"@[2] != "slt"@[2]);
    assert("sgt"@[1] != "slt"@[1] && "sgt"@[1] != "sle"@[1]);
    assert("sge"@[1] != "slt"@[1] && "sge"@[1] != "sle"@[1] && "sge"@[2] != "sgt"@[2]);
    assert forall|a: int, b: int| icmp_holds(pred, a, b) == source_cmp_holds(op, a, b) by {}
}

/// A comparison on `double` operands is one ordered `fcmp` whose predicate
/// has the same truth table as the source operator.
pub proof fn lemma_fcmp_matches_operator(op: BinaryOp, r: ValueId, l: ValueId, rr: ValueId)
    requires
        op is Lt || op is Le || op is Gt || op is Ge || op is Eq || op is Ne,
    ensures
        exists|pred: Seq<char>|
            #[trigger] fcmp_text(r, pred, l, rr) == binary_line(op, r, "double"@, l, rr)
                && forall|a: int, b: int| fcmp_holds(pred, a, b) == source_cmp_holds(op, a, b),
{
    reveal_strlit("eq");
    reveal_strlit("ne");
    reveal_strlit("slt");
    reveal_strlit("sle");
    reveal_strlit("sgt");
    reveal_strlit("sge");
    reveal_strlit("oeq");
    reveal_strlit("one");
    reveal_strlit("olt");
    reveal_strlit("ole");
    reveal_strlit("ogt");
    reveal_strlit("oge");
    reveal_strlit(" = ");
    reveal_strlit("fcmp ");
    reveal_strlit(" = fcmp ");
    reveal_strlit(" double");
    reveal_strlit(" %");
    reveal_strlit(" double %");
    let pred = match op {
        BinaryOp::Eq => "oeq"@,
        BinaryOp::Ne => "one"@,
        BinaryOp::Lt => "olt"@,
        BinaryOp::Le => "ole"@,
        BinaryOp::Gt => "ogt"@,
        _ => "oge"@,
    };
    assert(" = "@ + "fcmp "@ =~= " = fcmp "@);
    assert(" double"@ + " %"@ =~= " double %"@);
    assert(fcmp_text(r, pred, l, rr) =~= binary_line(op, r, "double"@, l, rr));
    assert("one"@[1] != "oeq"@[1]);
    assert("olt"@[1] != "oeq"@[1] && "olt"@[1] != "one"@[1]);
    assert("ole"@[1] != "oeq"@[1] && "ole"@[1] != "one"@[1] && "ole"@[2] != "olt"@[2]);
    assert("ogt"@[1] != "oeq"@[1] && "ogt"@[1] != "one"@[1] && "ogt"@[1] != "olt"@[1] && "ogt"@[1] != "ole"@[1]);
    assert("oge"@[1] != "oeq"@[1] && "oge"@[1] != "one"@[1] && "oge"@[1] != "olt"@[1] && "oge"@[1] != "ole"@[1]
        && "oge"@[2] != "ogt"@[2]);
    assert forall|a: int, b: int| fcmp_holds(pred, a, b) == source_cmp_holds(op, a, b) by {}
}

fn push_value(out: &mut String, v: ValueId)
    ensures
        final(out)@ == old(out)@ + "%"@ + vid(v),
{
    push_str(out, "%");
    push_nat(out, v.0 as u64);
}

fn push_result(out: &mut String, r: ValueId)
    ensures
        final(out)@ == old(out)@ + "  %"@ + vid(r) + " = "@,
{
    push_str(out, "  %");
    push_nat(out, r.0 as u64);
    push_str(out, " = ");
}

fn push_operands(out: &mut String, l: ValueId, rr: ValueId)
    ensures
        final(out)@ == old(out)@ + " %"@ + vid(l) + ", %"@ + vid(rr),
{
    push_str(out, " %");
    push_nat(out, l.0 as u64);
    push_str(out, ", %");
    push_nat(out, rr.0 as u64);
    assert(final(out)@ =~= old(out)@ + " %"@ + vid(l) + ", %"@ + vid(rr));
}

fn push_arith(out: &mut String, r: ValueId, iop: &str, fop: &str, ty: &str, l: ValueId, rr: ValueId)
    ensures
        final(out)@ == old(out)@ + arith_line(r, iop@, fop@, ty@, l, rr),
{
    push_result(out, r);
    if crate::text::str_eq(ty, "double") {
        push_str(out, fop);
        push_str(out, " double");
    } else {
        push_str(out, iop);
        push_str(out, " ");
        push_str(out, ty);
    }
    push_operands(out, l, rr);
    assert(final(out)@ =~= old(out)@ + arith_line(r, iop@, fop@, ty@, l, rr));
}

fn push_cmp(out: &mut String, r: ValueId, ipred: &str, fpred: &str, ty: &str, l: ValueId, rr: ValueId)
    ensures
        final(out)@ == old(out)@ + cmp_line(r, ipred@, fpred@, ty@, l, rr),
{
    push_result(out, r);
    if crate::text::str_eq(ty, "double") {
        push_str(out, "fcmp ");
        push_str(out, fpred);
        push_str(out, " double");
    } else {
        push_str(out, "icmp ");
        push_str(out, ipred);
        push_str(out, " ");
        if crate::text::str_eq(ty, "void") {
            push_str(out, "i1");
        } else {
            push_str(out, ty);
        }
    }
    push_operands(out, l, rr);
    assert(final(out)@ =~= old(out)@ + cmp_line(r, ipred@, fpred@, ty@, l, rr));
}

fn push_logic(out: &mut String, r: ValueId, op: &str, ty: &str, l: ValueId, rr: ValueId)
    ensures
        final(out)@ == old(out)@ + logic_line(r, op@, ty@, l, rr),
{
    push_result(out, r);
    push_str(out, op);
    push_str(out, " ");
    push_str(out, ty);
    push_operands(out, l, rr);
    assert(final(out)@ =~= old(out)@ + logic_line(r, op@, ty@, l, rr));
}

/// Appends the IR of a binary operation whose left operand has IR type
/// `ty`.
fn push_binary(out: &mut String, op: BinaryOp, r: ValueId, ty: &str, l: ValueId, rr: ValueId)
    ensures
        final(out)@ == old(out)@ + binary_line(op, r, ty@, l, rr),
{
    match op {
        BinaryOp::Add => push_arith(out, r, "add", "fadd", ty, l, rr),
        BinaryOp::Sub => push_arith(out, r, "sub", "fsub", ty, l, rr),
        BinaryOp::Mul => push_arith(out, r, "mul", "fmul", ty, l, rr),
        BinaryOp::Div => push_arith(out, r, "sdiv", "fdiv", ty, l, rr),
        BinaryOp::Mod => push_arith(out, r, "srem", "frem", ty, l, rr),
        BinaryOp::And => push_logic(out, r, "and", ty, l, rr),
        BinaryOp::Or => push_logic(out, r, "or", ty, l, rr),
        BinaryOp::Eq => push_cmp(out, r, "eq", "oeq", ty, l, rr),
        BinaryOp::Ne => push_cmp(out, r, "ne", "one", ty, l, rr),
        BinaryOp::Lt => push_cmp(out, r, "slt", "olt", ty, l, rr),
        BinaryOp::Le => push_cmp(out, r, "sle", "ole", ty, l, rr),
        BinaryOp::Gt => push_cmp(out, r, "sgt", "ogt", ty, l, rr),
        BinaryOp::Ge => push_cmp(out, r, "sge", "oge", ty, l, rr),
    }
}


/// The symbol a call refers to.
pub open spec fn callee(f: FuncRef) -> Seq<char> {
    "@"@ + symbol(
        match f {
            FuncRef::Function(p) => join(views(p.segments@), "::"@),
            FuncRef::Method(n) => n@,
        },
    )
}

/// The typed arguments of a call.
pub open spec fn call_args(m: Module, st: RenderState, args: Seq<ValueId>) -> Seq<char> {
    join(args.map_values(|a: ValueId| value_llvm_type(m, st, a) + " %"@ + vid(a)), ", "@)
}

/// A call; a call returning `void` binds no value.
pub open spec fn call_line(m: Module, st: RenderState, id: ValueId, ty: TypeId, f: FuncRef, args: Seq<ValueId>) -> Seq<char> {
    let rt = llvm_type(m, ty);
    if rt == "void"@ {
        "  call "@ + rt + " "@ + callee(f) + "("@ + call_args(m, st, args) + ")"@
    } else {
        "  %"@ + vid(id) + " = call "@ + rt + " "@ + callee(f) + "("@ + call_args(m, st, args) + ")"@
    }
}

/// The first literal field, from `j` on, whose name an earlier one has.
pub open spec fn first_duplicate(lits: Seq<(Seq<char>, ValueId)>, j: int) -> Option<int>
    decreases lits.len() - j,
{
    if j < 0 || j >= lits.len() {
        None
    } else if exists|i: int| 0 <= i < j && #[trigger] lits[i].0 == lits[j].0 {
        Some(j)
    } else {
        first_duplicate(lits, j + 1)
    }
}

/// The chain of `insertvalue` expressions filling fields `0..=k` of a
/// record of IR type `t`, starting from `undef`.
pub open spec fn insert_chain(m: Module, t: Seq<char>, rf: Seq<SpecField>, lits: Seq<(Seq<char>, ValueId)>, k: nat) -> Seq<char>
    decreases k,
{
    "insertvalue "@ + t + " "@ + (if k == 0 {
        "undef"@
    } else {
        "("@ + insert_chain(m, t, rf, lits, (k - 1) as nat) + ")"@
    }) + ", "@ + llvm_type(m, rf[k as int].ty) + " %"@ + vid(lit_value(lits, rf[k as int].name)->0) + ", "@
        + nat_digits(k)
}

/// A record literal of type `ty` with the fields `lits`.
pub open spec fn record_line(m: Module, id: ValueId, ty: TypeId, lits: Seq<(Seq<char>, ValueId)>) -> Result<Seq<char>, SpecBackendError> {
    let t = llvm_type(m, ty);
    match m.types@.entries[ty.0 as int] {
        SpecType::Record(r) => if r.fields.len() == 0 {
            Ok("  %"@ + vid(id) + " = "@ + t + " undef"@)
        } else {
            match first_duplicate(lits, 0) {
                Some(j) => Err(SpecBackendError::Unsupported("duplicate field '"@ + lits[j].0 + "' in record literal"@)),
                None => match first_unknown(r.fields, lits, 0) {
                    Some(j) => Err(
                        SpecBackendError::Unsupported(
                            "record literal field '"@ + lits[j].0 + "' not present in type "@ + t,
                        ),
                    ),
                    None => match first_missing(r.fields, lits, 0) {
                        Some(k) => Err(
                            SpecBackendError::Unsupported(
                                "record literal missing field '"@ + r.fields[k].name + "' for type "@ + t,
                            ),
                        ),
                        None => Ok(
                            "  %"@ + vid(id) + " = "@ + insert_chain(m, t, r.fields, lits, (r.fields.len() - 1) as nat),
                        ),
                    },
                },
            }
        },
        _ => Err(
            SpecBackendError::Unsupported(
                "record literal for type '"@ + t + "' requires a concrete record layout"@,
            ),
        ),
    }
}

/// A literal; a unit literal binds nothing. A string refers to its constant
/// in the table after interning it; a floating-point literal is written as
/// its source text.
pub open spec fn literal_line(m: Module, st: RenderState, id: ValueId, ty: TypeId, l: Literal) -> Option<Seq<char>> {
    let t = llvm_type(m, ty);
    match l {
        Literal::Int(v) => Some("  %"@ + vid(id) + " = add "@ + t + " 0, "@ + int_text(v as int)),
        Literal::Float(x) => Some("  %"@ + vid(id) + " = fadd "@ + t + " 0.0, "@ + x@),
        Literal::Bool(b) => Some("  %"@ + vid(id) + " = or "@ + t + " false, "@ + bool_text(b)),
        Literal::String(s) => Some(
            "  %"@ + vid(id) + " = getelementptr inbounds (["@ + nat_digits(byte_len(s@) + 1)
                + " x i8], ptr @.str"@ + nat_digits(index_in(interned(st.strings, s@), s@) as nat)
                + ", i32 0, i32 0)"@,
        ),
        Literal::Unit => None,
    }
}

/// A path used as a value.
pub open spec fn path_line(id: ValueId, segments: Seq<Seq<char>>) -> Seq<char> {
    "  %"@ + vid(id) + " = bitcast ptr @"@ + symbol(join(segments, "::"@)) + " to ptr"@
}

/// One incoming value of a phi.
pub open spec fn incoming_text(i: (BlockId, ValueId)) -> Seq<char> {
    "[ %"@ + vid(i.1) + ", %bb"@ + nat_digits(i.0.0 as nat) + " ]"@
}

/// A phi.
pub open spec fn phi_line(m: Module, id: ValueId, ty: TypeId, incomings: Seq<(BlockId, ValueId)>) -> Seq<char> {
    "  %"@ + vid(id) + " = phi "@ + llvm_type(m, ty) + " "@ + join(incomings.map_values(|i: (BlockId, ValueId)| incoming_text(i)), ", "@)
}

/// The line of an instruction (none for a unit literal), given what is
/// known with its own binding.
#[verifier::opaque]
pub open spec fn inst_line(m: Module, st: RenderState, inst: Instruction) -> Result<Option<Seq<char>>, SpecBackendError> {
    match inst.kind {
        InstKind::Literal(l) => Ok(literal_line(m, st, inst.id, inst.ty, l)),
        InstKind::Binary { op, lhs, rhs } => Ok(Some(binary_line(op, inst.id, value_llvm_type(m, st, lhs), lhs, rhs))),
        InstKind::Call { func, args } => Ok(Some(call_line(m, st, inst.id, inst.ty, func, args@))),
        InstKind::Record { fields, .. } => match record_line(m, inst.id, inst.ty, lit_views(fields@)) {
            Ok(l) => Ok(Some(l)),
            Err(e) => Err(e),
        },
        InstKind::Path(p) => Ok(Some(path_line(inst.id, views(p.segments@)))),
        InstKind::Phi { incomings } => Ok(Some(phi_line(m, inst.id, inst.ty, incomings@))),
    }
}

/// What rendering an instruction teaches the renderer: a string literal's
/// text joins the table, a unit literal's value is a unit.
pub open spec fn inst_after(st: RenderState, inst: Instruction) -> RenderState {
    match inst.kind {
        InstKind::Literal(Literal::String(s)) => RenderState { strings: interned(st.strings, s@), ..st },
        InstKind::Literal(Literal::Unit) => RenderState { units: st.units.push(inst.id), ..st },
        _ => st,
    }
}

/// The comment naming an instruction's effects, if it has any.
pub open spec fn effects_suffix(m: Module, inst: Instruction) -> Seq<char> {
    if inst.effects@.len() > 0 {
        "  ; effects: "@ + join(inst.effects@.map_values(|e: EffectId| m.effects@[e.0 as int]), ", "@)
    } else {
        Seq::empty()
    }
}

/// Rendering one instruction: its binding is learnt first, then its line
/// (with its effects) is written.
pub open spec fn inst_step(m: Module, st0: RenderState, inst: Instruction) -> (Rendered, RenderState) {
    let st = RenderState { bindings: st0.bindings.push((inst.id, inst.ty)), ..st0 };
    let st2 = inst_after(st, inst);
    match inst_line(m, st, inst) {
        Err(e) => (Err(e), st2),
        Ok(None) => (Ok(Seq::empty()), st2),
        Ok(Some(l)) => (Ok(l + effects_suffix(m, inst) + "\n"@), st2),
    }
}


// ---------------------------------------------------------------------------
// The renderer
// ---------------------------------------------------------------------------

struct Renderer {
    bindings: Vec<(ValueId, TypeId)>,
    units: Vec<ValueId>,
    strings: Vec<String>,
}

proof fn lemma_index_in(strs: Seq<Seq<char>>, s: Seq<char>, k: int)
    requires
        0 <= k < strs.len(),
        strs[k] == s,
        forall|i: int| 0 <= i < k ==> strs[i] != s,
    ensures
        index_in(strs, s) == k,
    decreases strs.len(),
{
    let d = strs.drop_last();
    if k == strs.len() - 1 {
        if d.contains(s) {
            let i = choose|i: int| 0 <= i < d.len() && d[i] == s;
            assert(strs[i] == s);
        }
    } else {
        assert(d[k] == s);
        assert(forall|i: int| 0 <= i < k ==> d[i] == strs[i]);
        lemma_index_in(d, s, k);
        assert(d.contains(s));
    }
}

impl Renderer {
    spec fn state(&self) -> RenderState {
        RenderState { bindings: self.bindings@, units: self.units@, strings: views(self.strings@) }
    }

    /// Every bound type is an entry of the module's table.
    spec fn inv(&self, m: Module) -> bool {
        forall|k: int| 0 <= k < self.bindings@.len() ==> (#[trigger] self.bindings@[k]).1.0 < m.types@.entries.len()
    }

    fn value_type_of(&self, m: &Module, v: ValueId) -> (t: TypeId)
        requires
            m.types.wf(),
            self.inv(*m),
        ensures
            t == value_type(*m, self.state(), v),
            m.types.valid_id(t),
    {
        let mut i: usize = self.bindings.len();
        let ghost bs = self.bindings@;
        assert(bs.take(bs.len() as int) =~= bs);
        while i > 0
            invariant
                i <= bs.len(),
                bs == self.bindings@,
                self.inv(*m),
                lookup_type(bs, v) == lookup_type(bs.take(i as int), v),
            decreases i,
        {
            let ghost p = bs.take(i as int);
            assert(p.drop_last() =~= bs.take(i - 1));
            if self.bindings[i - 1].0 == v {
                assert(p.last() == bs[i - 1]);
                assert(bs[i - 1].1.0 < m.types@.entries.len());
                return self.bindings[i - 1].1;
            }
            i = i - 1;
        }
        assert(bs.take(0) =~= Seq::<(ValueId, TypeId)>::empty());
        m.unknown_type()
    }

    fn push_value_type(&self, out: &mut String, m: &Module, v: ValueId)
        requires
            m.types.wf(),
            self.inv(*m),
        ensures
            final(out)@ == old(out)@ + value_llvm_type(*m, self.state(), v),
    {
        let t = self.value_type_of(m, v);
        push_type(out, m, t);
    }

    fn is_unit(&self, v: ValueId) -> (r: bool)
        ensures
            r == self.units@.contains(v),
    {
        let mut i: usize = 0;
        while i < self.units.len()
            invariant
                i <= self.units.len(),
                forall|k: int| 0 <= k < i ==> self.units@[k] != v,
            decreases self.units.len() - i,
        {
            if self.units[i] == v {
                return true;
            }
            i = i + 1;
        }
        false
    }

    /// Interns `s` and returns its position in the table.
    fn intern_string(&mut self, s: &str) -> (idx: usize)
        ensures
            final(self).state() == (RenderState { strings: interned(old(self).state().strings, s@), ..old(self).state() }),
            idx == index_in(interned(old(self).state().strings, s@), s@),
    {
        let ghost strs = views(self.strings@);
        let mut i: usize = 0;
        while i < self.strings.len()
            invariant
                i <= self.strings.len(),
                strs == views(self.strings@),
                forall|k: int| 0 <= k < i ==> strs[k] != s@,
            decreases self.strings.len() - i,
        {
            if crate::text::str_eq(self.strings[i].as_str(), s) {
                proof {
                    assert(strs[i as int] == s@);
                    lemma_index_in(strs, s@, i as int);
                    assert(strs.contains(s@));
                }
                return i;
            }
            i = i + 1;
        }
        proof {
            assert(!strs.contains(s@)) by {
                if strs.contains(s@) {
                    let k = choose|k: int| 0 <= k < strs.len() && strs[k] == s@;
                }
            }
        }
        let idx = self.strings.len();
        self.strings.push(to_owned_string(s));
        proof {
            assert(views(self.strings@) =~= strs.push(s@));
            lemma_index_in(strs.push(s@), s@, idx as int);
        }
        idx
    }
}

fn push_call_args(out: &mut String, r: &Renderer, m: &Module, args: &Vec<ValueId>)
    requires
        m.types.wf(),
        r.inv(*m),
    ensures
        final(out)@ == old(out)@ + call_args(*m, r.state(), args@),
{
    let ghost start = out@;
    let ghost st = r.state();
    let mut i: usize = 0;
    while i < args.len()
        invariant
            i <= args.len(),
            m.types.wf(),
            r.inv(*m),
            st == r.state(),
            out@ == start + join(args@.take(i as int).map_values(|a: ValueId| value_llvm_type(*m, st, a) + " %"@ + vid(a)), ", "@),
        decreases args.len() - i,
    {
        if i > 0 {
            push_str(out, ", ");
        }
        let ghost mid = out@;
        r.push_value_type(out, m, args[i]);
        push_str(out, " %");
        push_nat(out, args[i].0 as u64);
        proof {
            let g = |a: ValueId| value_llvm_type(*m, st, a) + " %"@ + vid(a);
            assert(out@ =~= mid + g(args@[i as int]));
            assert(args@.take(i + 1).map_values(g) =~= args@.take(i as int).map_values(g).push(g(args@[i as int])));
            lemma_join_push(args@.take(i as int).map_values(g), ", "@, g(args@[i as int]));
        }
        i = i + 1;
    }
    assert(args@.take(args.len() as int) =~= args@);
}

fn push_callee(out: &mut String, f: &FuncRef)
    ensures
        final(out)@ == old(out)@ + callee(*f),
{
    push_str(out, "@");
    match f {
        FuncRef::Function(p) => {
            let joined = crate::text::join_strings(&p.segments, "::");
            push_str(out, sanitize_symbol(joined.as_str()).as_str());
        },
        FuncRef::Method(n) => push_str(out, sanitize_symbol(n.as_str()).as_str()),
    }
    assert(final(out)@ =~= old(out)@ + callee(*f));
}

fn push_call(out: &mut String, r: &Renderer, m: &Module, id: ValueId, ty: TypeId, f: &FuncRef, args: &Vec<ValueId>)
    requires
        m.types.wf(),
        m.types.valid_id(ty),
        r.inv(*m),
    ensures
        final(out)@ == old(out)@ + call_line(*m, r.state(), id, ty, *f, args@),
{
    let rt = format_type(m, ty);
    if crate::text::str_eq(rt.as_str(), "void") {
        push_str(out, "  call ");
    } else {
        push_result(out, id);
        push_str(out, "call ");
    }
    push_str(out, rt.as_str());
    push_str(out, " ");
    push_callee(out, f);
    push_str(out, "(");
    push_call_args(out, r, m, args);
    push_str(out, ")");
    proof {
        reveal_strlit("  call ");
        reveal_strlit("call ");
        reveal_strlit(" = ");
        reveal_strlit(" = call ");
    }
    assert(final(out)@ =~= old(out)@ + call_line(*m, r.state(), id, ty, *f, args@));
}

fn push_phi(out: &mut String, m: &Module, id: ValueId, ty: TypeId, incomings: &Vec<(BlockId, ValueId)>)
    requires
        m.types.wf(),
        m.types.valid_id(ty),
    ensures
        final(out)@ == old(out)@ + phi_line(*m, id, ty, incomings@),
{
    push_result(out, id);
    push_str(out, "phi ");
    push_type(out, m, ty);
    push_str(out, " ");
    let ghost head = out@;
    let mut i: usize = 0;
    while i < incomings.len()
        invariant
            i <= incomings.len(),
            out@ == head + join(incomings@.take(i as int).map_values(|x: (BlockId, ValueId)| incoming_text(x)), ", "@),
        decreases incomings.len() - i,
    {
        if i > 0 {
            push_str(out, ", ");
        }
        let ghost mid = out@;
        push_str(out, "[ %");
        push_nat(out, incomings[i].1.0 as u64);
        push_str(out, ", %bb");
        push_nat(out, incomings[i].0.0 as u64);
        push_str(out, " ]");
        proof {
            let g = |x: (BlockId, ValueId)| incoming_text(x);
            assert(out@ =~= mid + g(incomings@[i as int]));
            assert(incomings@.take(i + 1).map_values(g) =~= incomings@.take(i as int).map_values(g).push(g(incomings@[i as int])));
            lemma_join_push(incomings@.take(i as int).map_values(g), ", "@, g(incomings@[i as int]));
        }
        i = i + 1;
    }
    assert(incomings@.take(incomings.len() as int) =~= incomings@);
    proof {
        reveal_strlit(" = ");
        reveal_strlit("phi ");
        reveal_strlit(" = phi ");
    }
    assert(final(out)@ =~= old(out)@ + phi_line(*m, id, ty, incomings@));
}

fn push_path(out: &mut String, id: ValueId, p: &crate::syntax::ast::Path)
    ensures
        final(out)@ == old(out)@ + path_line(id, views(p.segments@)),
{
    push_result(out, id);
    push_str(out, "bitcast ptr @");
    let joined = crate::text::join_strings(&p.segments, "::");
    push_str(out, sanitize_symbol(joined.as_str()).as_str());
    push_str(out, " to ptr");
    proof {
        reveal_strlit(" = ");
        reveal_strlit("bitcast ptr @");
        reveal_strlit(" = bitcast ptr @");
    }
    assert(final(out)@ =~= old(out)@ + path_line(id, views(p.segments@)));
}


fn has_duplicate_before(fields: &Vec<(String, ValueId)>, j: usize) -> (r: bool)
    requires
        j < fields.len(),
    ensures
        r == exists|i: int| 0 <= i < j && #[trigger] lit_views(fields@)[i].0 == lit_views(fields@)[j as int].0,
{
    let ghost lits = lit_views(fields@);
    let mut i: usize = 0;
    while i < j
        invariant
            i <= j,
            j < fields.len(),
            lits == lit_views(fields@),
            forall|k: int| 0 <= k < i ==> lits[k].0 != lits[j as int].0,
        decreases j - i,
    {
        if crate::text::str_eq(fields[i].0.as_str(), fields[j].0.as_str()) {
            assert(lits[i as int].0 == lits[j as int].0);
            return true;
        }
        i = i + 1;
    }
    false
}

fn unsupported3(a: &str, b: &str, c: &str) -> (e: BackendError)
    ensures
        e@ == SpecBackendError::Unsupported(a@ + b@ + c@),
{
    let mut msg = String::new();
    push_str(&mut msg, a);
    push_str(&mut msg, b);
    push_str(&mut msg, c);
    assert(msg@ =~= a@ + b@ + c@);
    BackendError::Unsupported(msg)
}

fn unsupported4(a: &str, b: &str, c: &str, d: &str) -> (e: BackendError)
    ensures
        e@ == SpecBackendError::Unsupported(a@ + b@ + c@ + d@),
{
    let mut msg = String::new();
    push_str(&mut msg, a);
    push_str(&mut msg, b);
    push_str(&mut msg, c);
    push_str(&mut msg, d);
    assert(msg@ =~= a@ + b@ + c@ + d@);
    BackendError::Unsupported(msg)
}

/// Appends a record literal of type `ty` with the fields `fields`.
fn push_record(out: &mut String, m: &Module, id: ValueId, ty: TypeId, fields: &Vec<(String, ValueId)>) -> (res: Result<(), BackendError>)
    requires
        m.types.wf(),
        m.types.valid_id(ty),
    ensures
        match record_line(*m, id, ty, lit_views(fields@)) {
            Ok(text) => res is Ok && final(out)@ == old(out)@ + text,
            Err(e) => res matches Err(x) && x@ == e,
        },
{
    let t = format_type(m, ty);
    let ghost lits = lit_views(fields@);
    match m.type_of(ty) {
        Type::Record(r) => {
            let ghost rf = r@.fields;
            if r.fields.len() == 0 {
                push_result(out, id);
                push_str(out, t.as_str());
                push_str(out, " undef");
                assert(final(out)@ =~= old(out)@ + record_line(*m, id, ty, lits)->Ok_0);
                return Ok(());
            }
            let mut j: usize = 0;
            while j < fields.len()
                invariant
                    j <= fields.len(),
                    lits == lit_views(fields@),
                    m.types.valid_id(ty),
                    m.types.spec_get(ty) == SpecType::Record(r@),
                    r@.fields.len() > 0,
                    t@ == llvm_type(*m, ty),
                    first_duplicate(lits, 0) == first_duplicate(lits, j as int),
                decreases fields.len() - j,
            {
                assert(lits[j as int].0 == fields@[j as int].0@);
                if has_duplicate_before(fields, j) {
                    return Err(unsupported3("duplicate field '", fields[j].0.as_str(), "' in record literal"));
                }
                j = j + 1;
            }
            let mut j: usize = 0;
            while j < fields.len()
                invariant
                    j <= fields.len(),
                    lits == lit_views(fields@),
                    rf == r@.fields,
                    m.types.valid_id(ty),
                    m.types.spec_get(ty) == SpecType::Record(r@),
                    rf.len() > 0,
                    t@ == llvm_type(*m, ty),
                    first_duplicate(lits, 0) is None,
                    first_unknown(rf, lits, 0) == first_unknown(rf, lits, j as int),
                decreases fields.len() - j,
            {
                assert(lits[j as int].0 == fields@[j as int].0@);
                if r.field(fields[j].0.as_str()).is_none() {
                    return Err(unsupported4("record literal field '", fields[j].0.as_str(), "' not present in type ", t.as_str()));
                }
                j = j + 1;
            }
            let mut acc = to_owned_string("undef");
            let mut expr = String::new();
            let mut k: usize = 0;
            while k < r.fields.len()
                invariant
                    k <= r.fields.len(),
                    m.types.wf(),
                    m.types.valid_id(ty),
                    m.types.spec_get(ty) == SpecType::Record(r@),
                    lits == lit_views(fields@),
                    rf == r@.fields,
                    t@ == llvm_type(*m, ty),
                    first_duplicate(lits, 0) is None,
                    first_unknown(rf, lits, 0) is None,
                    first_missing(rf, lits, 0) == first_missing(rf, lits, k as int),
                    k > 0 ==> expr@ == insert_chain(*m, t@, rf, lits, (k - 1) as nat),
                    k > 0 ==> acc@ == "("@ + expr@ + ")"@,
                    k == 0 ==> acc@ == "undef"@,
                decreases r.fields.len() - k,
            {
                assert(rf[k as int] == r.fields@[k as int]@);
                match crate::backend::native::find_lit(fields, r.fields[k].name.as_str()) {
                    None => {
                        return Err(unsupported4("record literal missing field '", r.fields[k].name.as_str(), "' for type ", t.as_str()));
                    },
                    Some(v) => {
                        assert(rf[k as int].ty.0 < ty.0);
                        let mut e = String::new();
                        push_str(&mut e, "insertvalue ");
                        push_str(&mut e, t.as_str());
                        push_str(&mut e, " ");
                        push_str(&mut e, acc.as_str());
                        push_str(&mut e, ", ");
                        push_type(&mut e, m, r.fields[k].ty);
                        push_str(&mut e, " %");
                        push_nat(&mut e, v.0 as u64);
                        push_str(&mut e, ", ");
                        push_nat(&mut e, k as u64);
                        assert(e@ =~= insert_chain(*m, t@, rf, lits, k as nat));
                        let mut a = String::new();
                        push_str(&mut a, "(");
                        push_str(&mut a, e.as_str());
                        push_str(&mut a, ")");
                        expr = e;
                        acc = a;
                    },
                }
                k = k + 1;
            }
            push_result(out, id);
            push_str(out, expr.as_str());
            assert(final(out)@ =~= old(out)@ + record_line(*m, id, ty, lits)->Ok_0);
            Ok(())
        },
        _ => Err(unsupported3("record literal for type '", t.as_str(), "' requires a concrete record layout")),
    }
}


/// Appends the effect names of `effects`, joined by `, `.
fn push_effect_names(out: &mut String, m: &Module, effects: &Vec<EffectId>)
    requires
        forall|e: int| 0 <= e < effects@.len() ==> (#[trigger] effects@[e]).0 < m.effects@.len(),
    ensures
        final(out)@ == old(out)@ + join(effects@.map_values(|e: EffectId| m.effects@[e.0 as int]), ", "@),
{
    let ghost start = out@;
    let mut i: usize = 0;
    while i < effects.len()
        invariant
            i <= effects.len(),
            forall|e: int| 0 <= e < effects@.len() ==> (#[trigger] effects@[e]).0 < m.effects@.len(),
            out@ == start + join(effects@.take(i as int).map_values(|e: EffectId| m.effects@[e.0 as int]), ", "@),
        decreases effects.len() - i,
    {
        if i > 0 {
            push_str(out, ", ");
        }
        assert(effects@[i as int].0 < m.effects@.len());
        push_str(out, m.effect_name(effects[i]));
        proof {
            let g = |e: EffectId| m.effects@[e.0 as int];
            assert(effects@.take(i + 1).map_values(g) =~= effects@.take(i as int).map_values(g).push(g(effects@[i as int])));
            lemma_join_push(effects@.take(i as int).map_values(g), ", "@, g(effects@[i as int]));
        }
        i = i + 1;
    }
    assert(effects@.take(effects.len() as int) =~= effects@);
}

impl Renderer {
    /// Appends the line of a literal, if it has one, and learns what it
    /// teaches; returns whether a line was written.
    fn push_literal(&mut self, line: &mut String, m: &Module, id: ValueId, ty: TypeId, l: &Literal) -> (has: bool)
        requires
            m.types.wf(),
            m.types.valid_id(ty),
        ensures
            has == literal_line(*m, old(self).state(), id, ty, *l) is Some,
            has ==> final(line)@ == old(line)@ + literal_line(*m, old(self).state(), id, ty, *l)->0,
            final(self).state() == match *l {
                Literal::String(s) => RenderState { strings: interned(old(self).state().strings, s@), ..old(self).state() },
                Literal::Unit => RenderState { units: old(self).state().units.push(id), ..old(self).state() },
                _ => old(self).state(),
            },
            final(self).bindings@ == old(self).bindings@,
    {
        match l {
            Literal::Int(v) => {
                push_result(line, id);
                push_str(line, "add ");
                push_type(line, m, ty);
                push_str(line, " 0, ");
                crate::text::push_int(line, *v);
            },
            Literal::Float(x) => {
                push_result(line, id);
                push_str(line, "fadd ");
                push_type(line, m, ty);
                push_str(line, " 0.0, ");
                push_str(line, x.as_str());
            },
            Literal::Bool(b) => {
                push_result(line, id);
                push_str(line, "or ");
                push_type(line, m, ty);
                push_str(line, " false, ");
                if *b {
                    push_str(line, "true");
                } else {
                    push_str(line, "false");
                }
            },
            Literal::String(s) => {
                let idx = self.intern_string(s.as_str());
                let n = s.as_str().len();
                push_result(line, id);
                push_str(line, "getelementptr inbounds ([");
                crate::text::push_u128(line, n as u128 + 1);
                push_str(line, " x i8], ptr @.str");
                push_nat(line, idx as u64);
                push_str(line, ", i32 0, i32 0)");
            },
            Literal::Unit => {
                self.units.push(id);
                return false;
            },
        }
        proof {
            reveal_strlit(" = ");
            reveal_strlit("add ");
            reveal_strlit(" = add ");
            reveal_strlit("fadd ");
            reveal_strlit(" = fadd ");
            reveal_strlit("or ");
            reveal_strlit(" = or ");
            reveal_strlit("getelementptr inbounds ([");
            reveal_strlit(" = getelementptr inbounds ([");
        }
        assert(final(line)@ =~= old(line)@ + literal_line(*m, old(self).state(), id, ty, *l)->0);
        true
    }

    /// Renders one instruction (see [`inst_step`]).
    fn render_inst(&mut self, out: &mut String, m: &Module, inst: &Instruction) -> (res: Result<(), BackendError>)
        requires
            m.types.wf(),
            old(self).inv(*m),
            inst.ids_within(m.types@.entries.len(), m.effects@.len()),
        ensures
            final(self).inv(*m),
            match inst_step(*m, old(self).state(), *inst) {
                (Ok(text), s) => res is Ok && final(out)@ == old(out)@ + text && final(self).state() == s,
                (Err(e), _) => res matches Err(x) && x@ == e,
            },
    {
        reveal(inst_line);
        self.bindings.push((inst.id, inst.ty));
        let ghost st = self.state();
        assert(st == (RenderState { bindings: old(self).state().bindings.push((inst.id, inst.ty)), ..old(self).state() }));
        let mut line = String::new();
        let has = match &inst.kind {
            InstKind::Literal(l) => self.push_literal(&mut line, m, inst.id, inst.ty, l),
            InstKind::Binary { op, lhs, rhs } => {
                let mut tn = String::new();
                self.push_value_type(&mut tn, m, *lhs);
                push_binary(&mut line, *op, inst.id, tn.as_str(), *lhs, *rhs);
                true
            },
            InstKind::Call { func, args } => {
                push_call(&mut line, self, m, inst.id, inst.ty, func, args);
                true
            },
            InstKind::Record { fields, .. } => {
                match push_record(&mut line, m, inst.id, inst.ty, fields) {
                    Ok(()) => {},
                    Err(e) => {
                        return Err(e);
                    },
                }
                true
            },
            InstKind::Path(p) => {
                push_path(&mut line, inst.id, p);
                true
            },
            InstKind::Phi { incomings } => {
                push_phi(&mut line, m, inst.id, inst.ty, incomings);
                true
            },
        };
        assert(self.state() == inst_after(st, *inst));
        if has {
            push_str(out, line.as_str());
            if inst.effects.len() > 0 {
                push_str(out, "  ; effects: ");
                push_effect_names(out, m, &inst.effects);
            }
            push_str(out, "\n");
        }
        assert(final(out)@ =~= old(out)@ + inst_step(*m, old(self).state(), *inst).0->Ok_0);
        Ok(())
    }
}


// ---------------------------------------------------------------------------
// Terminators, blocks, functions
// ---------------------------------------------------------------------------

/// The IR of a terminator; returning a unit value returns `void`.
pub open spec fn term_text(m: Module, st: RenderState, t: Terminator) -> Seq<char> {
    match t {
        Terminator::Return(Some(v)) => if st.units.contains(v) {
            "  ret void\n"@
        } else {
            "  ret "@ + value_llvm_type(m, st, v) + " %"@ + vid(v) + "\n"@
        },
        Terminator::Return(None) => "  ret void\n"@,
        Terminator::Branch { condition, then_block, else_block } => "  br "@ + value_llvm_type(m, st, condition)
            + " %"@ + vid(condition) + ", label %bb"@ + nat_digits(then_block.0 as nat) + ", label %bb"@
            + nat_digits(else_block.0 as nat) + "\n"@,
        Terminator::Jump(b) => "  br label %bb"@ + nat_digits(b.0 as nat) + "\n"@,
    }
}

/// Renders the items `xs` one after another with `step`, threading the
/// state, and stops at the first error.
pub open spec fn fold_steps<A>(
    step: spec_fn(RenderState, A) -> (Rendered, RenderState),
    st: RenderState,
    xs: Seq<A>,
) -> (Rendered, RenderState)
    decreases xs.len(),
{
    if xs.len() == 0 {
        (Ok(Seq::empty()), st)
    } else {
        let (r, s1) = fold_steps(step, st, xs.drop_last());
        match r {
            Err(e) => (Err(e), s1),
            Ok(t) => {
                let (r2, s2) = step(s1, xs.last());
                (
                    match r2 {
                        Ok(t2) => Ok(t + t2),
                        Err(e) => Err(e),
                    },
                    s2,
                )
            },
        }
    }
}

/// One more item.
pub proof fn lemma_fold_push<A>(
    step: spec_fn(RenderState, A) -> (Rendered, RenderState),
    st: RenderState,
    xs: Seq<A>,
    x: A,
)
    ensures
        fold_steps(step, st, xs.push(x)) == ({
            let (r, s1) = fold_steps(step, st, xs);
            match r {
                Err(e) => (Err(e), s1),
                Ok(t) => {
                    let (r2, s2) = step(s1, x);
                    (
                        match r2 {
                            Ok(t2) => Ok(t + t2),
                            Err(e) => Err(e),
                        },
                        s2,
                    )
                },
            }
        }),
{
    assert(xs.push(x).drop_last() =~= xs);
}

/// An error among the first items is the error of the whole.
pub proof fn lemma_fold_err<A>(
    step: spec_fn(RenderState, A) -> (Rendered, RenderState),
    st: RenderState,
    xs: Seq<A>,
    k: int,
)
    requires
        0 <= k <= xs.len(),
        fold_steps(step, st, xs.take(k)).0 is Err,
    ensures
        fold_steps(step, st, xs).0 == fold_steps(step, st, xs.take(k)).0,
    decreases xs.len() - k,
{
    if k < xs.len() {
        lemma_fold_push(step, st, xs.take(k), xs[k]);
        assert(xs.take(k + 1) =~= xs.take(k).push(xs[k]));
        lemma_fold_err(step, st, xs, k + 1);
    } else {
        assert(xs.take(k) =~= xs);
    }
}

/// [`inst_step`] as a value.
pub open spec fn inst_stepper(m: Module) -> spec_fn(RenderState, Instruction) -> (Rendered, RenderState) {
    |s: RenderState, i: Instruction| inst_step(m, s, i)
}

/// The index of the last block with id `id`, or -1.
pub open spec fn last_with_id(blocks: Seq<BasicBlock>, id: BlockId) -> int
    decreases blocks.len(),
{
    if blocks.len() == 0 {
        -1
    } else if blocks.last().id == id {
        blocks.len() - 1
    } else {
        last_with_id(blocks.drop_last(), id)
    }
}

/// The comment giving the purity of the block with id `id`, as the last
/// block with that id has it.
pub open spec fn purity_line(blocks: Seq<BasicBlock>, id: BlockId) -> Seq<char> {
    let j = last_with_id(blocks, id);
    if 0 <= j {
        "  ; block purity: "@ + (if crate::ir::analysis::block_is_pure(blocks[j]) {
            "pure"@
        } else {
            "effectful"@
        }) + "\n"@
    } else {
        Seq::empty()
    }
}

/// Rendering a block of a function whose blocks are `blocks`: its label,
/// its purity, its instructions, its terminator.
pub open spec fn block_step(m: Module, blocks: Seq<BasicBlock>, st: RenderState, b: BasicBlock) -> (Rendered, RenderState) {
    let head = "bb"@ + nat_digits(b.id.0 as nat) + ":\n"@ + purity_line(blocks, b.id);
    let (r, s) = fold_steps(inst_stepper(m), st, b.instructions@);
    match r {
        Err(e) => (Err(e), s),
        Ok(t) => (Ok(head + t + term_text(m, s, b.terminator)), s),
    }
}

/// [`block_step`] as a value.
pub open spec fn block_stepper(m: Module, blocks: Seq<BasicBlock>) -> spec_fn(RenderState, BasicBlock) -> (Rendered, RenderState) {
    |s: RenderState, b: BasicBlock| block_step(m, blocks, s, b)
}

/// The bindings a function starts with: its parameters.
pub open spec fn param_bindings(f: Function) -> Seq<(ValueId, TypeId)> {
    f.params@.map_values(|p: crate::ir::Param| (p.value, p.ty))
}

/// The comment listing the pure regions, if there is any.
pub open spec fn regions_line(regions: Seq<Seq<BlockId>>) -> Seq<char> {
    if regions.len() > 0 {
        "  ; pure regions: "@ + join(
            regions.map_values(
                |r: Seq<BlockId>|
                    "["@ + join(r.map_values(|b: BlockId| "bb"@ + nat_digits(b.0 as nat)), ", "@) + "]"@,
            ),
            ", "@,
        ) + "\n"@
    } else {
        Seq::empty()
    }
}

/// The comment listing the function's effects, if it has any.
pub open spec fn effects_line(m: Module, f: Function) -> Seq<char> {
    if f.effect_row@.len() > 0 {
        "  ; effects: "@ + join(f.effect_row@.map_values(|e: EffectId| m.effects@[e.0 as int]), ", "@) + "\n"@
    } else {
        Seq::empty()
    }
}

/// The header of a function's definition.
pub open spec fn define_line(m: Module, f: Function) -> Seq<char> {
    "define "@ + llvm_type(m, f.ret_type) + " @"@ + f.name@ + "("@ + join(
        f.params@.map_values(|p: crate::ir::Param| llvm_type(m, p.ty) + " %"@ + p.name@),
        ", "@,
    ) + ") {\n"@
}

/// Rendering a function with its pure regions: its header and comments, its
/// blocks, a closing brace and a blank line. The string table carries over;
/// the bindings start from the parameters.
pub open spec fn fn_step(m: Module, st: RenderState, fr: (Function, Seq<Seq<BlockId>>)) -> (Rendered, RenderState) {
    let f = fr.0;
    let st0 = RenderState { bindings: param_bindings(f), units: Seq::empty(), strings: st.strings };
    let head = define_line(m, f) + regions_line(fr.1) + effects_line(m, f);
    let (r, s) = fold_steps(block_stepper(m, f.blocks@), st0, f.blocks@);
    match r {
        Err(e) => (Err(e), s),
        Ok(t) => (Ok(head + t + "}\n"@ + "\n"@), s),
    }
}

/// [`fn_step`] as a value.
pub open spec fn fn_stepper(m: Module) -> spec_fn(RenderState, (Function, Seq<Seq<BlockId>>)) -> (Rendered, RenderState) {
    |s: RenderState, fr: (Function, Seq<Seq<BlockId>>)| fn_step(m, s, fr)
}

/// The declaration of string constant `i`.
pub open spec fn string_const(strs: Seq<Seq<char>>, i: int) -> Seq<char> {
    "@.str"@ + nat_digits(i as nat) + " = private constant ["@ + nat_digits(byte_len(strs[i]) + 1)
        + " x i8] c\""@ + ir_escape(strs[i]) + "\\00\"\n"@
}

/// The module header: its id, its target triple if any, its data layout.
pub open spec fn module_header(m: Module, triple: Option<Seq<char>>) -> Seq<char> {
    "; ModuleID = '"@ + join(views(m.name@), "."@) + "'\n"@ + match triple {
        Some(t) => "target triple = \""@ + t + "\"\n"@,
        None => Seq::empty(),
    } + "target datalayout = \""@ + data_layout() + "\"\n"@ + "\n"@
}

/// The empty state a module starts from.
pub open spec fn start_state() -> RenderState {
    RenderState { bindings: Seq::empty(), units: Seq::empty(), strings: Seq::empty() }
}

/// The functions of a module paired with their pure regions.
pub open spec fn with_regions(fs: Seq<Function>, regs: Seq<Seq<Seq<BlockId>>>) -> Seq<(Function, Seq<Seq<BlockId>>)> {
    Seq::new(fs.len(), |i: int| (fs[i], regs[i]))
}

/// The IR of a module whose functions have the pure regions `regs`:
/// header, type declarations, string constants in order of first use, then
/// the functions; or the first error met in a function.
#[verifier::opaque]
pub open spec fn module_ir(m: Module, triple: Option<Seq<char>>, regs: Seq<Seq<Seq<BlockId>>>) -> Rendered {
    let (r, s) = fold_steps(fn_stepper(m), start_state(), with_regions(m.functions@, regs));
    match r {
        Err(e) => Err(e),
        Ok(fns) => Ok(
            module_header(m, triple) + type_decls(m) + crate::text::concat(
                Seq::new(s.strings.len(), |i: int| string_const(s.strings, i)),
            ) + (if s.strings.len() > 0 {
                "\n"@
            } else {
                Seq::empty()
            }) + fns,
        ),
    }
}

/// `regs` holds the pure regions of each function of `m`.
pub open spec fn regions_of(m: Module, regs: Seq<Seq<Seq<BlockId>>>) -> bool {
    &&& regs.len() == m.functions@.len()
    &&& forall|i: int|
        0 <= i < regs.len() ==> crate::ir::analysis::are_pure_regions(
            (#[trigger] m.functions@[i]).blocks@,
            regs[i],
        )
}


/// The pure regions of a report, as sequences.
pub open spec fn report_regions(report: PurityReport) -> Seq<Seq<BlockId>> {
    report.pure_regions@.map_values(|r: Vec<BlockId>| r@)
}

fn push_purity_line(out: &mut String, blocks: &Vec<BasicBlock>, report: &PurityReport, id: BlockId)
    requires
        reports(blocks@, *report),
    ensures
        final(out)@ == old(out)@ + purity_line(blocks@, id),
{
    let ghost bs = blocks@;
    let mut i: usize = report.block_effects.len();
    assert(bs.take(bs.len() as int) =~= bs);
    while i > 0
        invariant
            i <= bs.len(),
            bs == blocks@,
            out@ == old(out)@,
            reports(bs, *report),
            last_with_id(bs, id) == last_with_id(bs.take(i as int), id),
        decreases i,
    {
        let ghost p = bs.take(i as int);
        assert(p.drop_last() =~= bs.take(i - 1));
        assert(report.block_effects@[i - 1] == (bs[i - 1].id, if crate::ir::analysis::block_is_pure(bs[i - 1]) {
            BlockPurity::Pure
        } else {
            BlockPurity::Effectful
        }));
        if report.block_effects[i - 1].0 == id {
            assert(last_with_id(bs, id) == i - 1);
            push_str(out, "  ; block purity: ");
            match report.block_effects[i - 1].1 {
                BlockPurity::Pure => push_str(out, "pure"),
                BlockPurity::Effectful => push_str(out, "effectful"),
            }
            push_str(out, "\n");
            assert(final(out)@ =~= old(out)@ + purity_line(blocks@, id));
            return;
        }
        i = i - 1;
    }
    assert(bs.take(0) =~= Seq::<BasicBlock>::empty());
    assert(final(out)@ =~= old(out)@ + purity_line(blocks@, id));
}

fn push_regions_line(out: &mut String, regions: &Vec<Vec<BlockId>>)
    ensures
        final(out)@ == old(out)@ + regions_line(regions@.map_values(|r: Vec<BlockId>| r@)),
{
    let ghost rs = regions@.map_values(|r: Vec<BlockId>| r@);
    if regions.len() == 0 {
        assert(final(out)@ =~= old(out)@ + regions_line(rs));
        return;
    }
    push_str(out, "  ; pure regions: ");
    let ghost head = out@;
    let ghost g = |r: Seq<BlockId>| "["@ + join(r.map_values(|b: BlockId| "bb"@ + nat_digits(b.0 as nat)), ", "@) + "]"@;
    let mut i: usize = 0;
    while i < regions.len()
        invariant
            i <= regions.len(),
            rs == regions@.map_values(|r: Vec<BlockId>| r@),
            out@ == head + join(rs.take(i as int).map_values(|r: Seq<BlockId>| "["@ + join(r.map_values(|b: BlockId| "bb"@ + nat_digits(b.0 as nat)), ", "@) + "]"@), ", "@),
        decreases regions.len() - i,
    {
        if i > 0 {
            push_str(out, ", ");
        }
        let ghost mid = out@;
        push_str(out, "[");
        let region = &regions[i];
        let ghost inner = out@;
        let mut k: usize = 0;
        while k < region.len()
            invariant
                k <= region.len(),
                out@ == inner + join(region@.take(k as int).map_values(|b: BlockId| "bb"@ + nat_digits(b.0 as nat)), ", "@),
            decreases region.len() - k,
        {
            if k > 0 {
                push_str(out, ", ");
            }
            push_str(out, "bb");
            push_nat(out, region[k].0 as u64);
            proof {
                let h = |b: BlockId| "bb"@ + nat_digits(b.0 as nat);
                assert(region@.take(k + 1).map_values(h) =~= region@.take(k as int).map_values(h).push(h(region@[k as int])));
                lemma_join_push(region@.take(k as int).map_values(h), ", "@, h(region@[k as int]));
            }
            k = k + 1;
        }
        assert(region@.take(region.len() as int) =~= region@);
        push_str(out, "]");
        proof {
            let g = |r: Seq<BlockId>| "["@ + join(r.map_values(|b: BlockId| "bb"@ + nat_digits(b.0 as nat)), ", "@) + "]"@;
            assert(rs[i as int] == region@);
            assert(out@ =~= mid + g(rs[i as int]));
            assert(rs.take(i + 1).map_values(g) =~= rs.take(i as int).map_values(g).push(g(rs[i as int])));
            lemma_join_push(rs.take(i as int).map_values(g), ", "@, g(rs[i as int]));
        }
        i = i + 1;
    }
    assert(rs.take(rs.len() as int) =~= rs);
    push_str(out, "\n");
    assert(final(out)@ =~= old(out)@ + regions_line(rs));
}

fn push_define_line(out: &mut String, m: &Module, f: &Function)
    requires
        m.types.wf(),
        f.ids_within(m.types@.entries.len(), m.effects@.len()),
    ensures
        final(out)@ == old(out)@ + define_line(*m, *f),
{
    push_str(out, "define ");
    push_type(out, m, f.ret_type);
    push_str(out, " @");
    push_str(out, f.name.as_str());
    push_str(out, "(");
    let ghost head = out@;
    let ghost ps = f.params@;
    let mut i: usize = 0;
    while i < f.params.len()
        invariant
            i <= f.params.len(),
            m.types.wf(),
            ps == f.params@,
            f.ids_within(m.types@.entries.len(), m.effects@.len()),
            out@ == head + join(ps.take(i as int).map_values(|p: crate::ir::Param| llvm_type(*m, p.ty) + " %"@ + p.name@), ", "@),
        decreases f.params.len() - i,
    {
        if i > 0 {
            push_str(out, ", ");
        }
        let ghost mid = out@;
        assert(ps[i as int].ty.0 < m.types@.entries.len());
        push_type(out, m, f.params[i].ty);
        push_str(out, " %");
        push_str(out, f.params[i].name.as_str());
        proof {
            let g = |p: crate::ir::Param| llvm_type(*m, p.ty) + " %"@ + p.name@;
            assert(out@ =~= mid + g(ps[i as int]));
            assert(ps.take(i + 1).map_values(g) =~= ps.take(i as int).map_values(g).push(g(ps[i as int])));
            lemma_join_push(ps.take(i as int).map_values(g), ", "@, g(ps[i as int]));
        }
        i = i + 1;
    }
    assert(ps.take(ps.len() as int) =~= ps);
    push_str(out, ") {\n");
    assert(final(out)@ =~= old(out)@ + define_line(*m, *f));
}

impl Renderer {
    fn render_terminator(&self, out: &mut String, m: &Module, t: &Terminator)
        requires
            m.types.wf(),
            self.inv(*m),
        ensures
            final(out)@ == old(out)@ + term_text(*m, self.state(), *t),
    {
        match t {
            Terminator::Return(Some(v)) => {
                if self.is_unit(*v) {
                    push_str(out, "  ret void\n");
                } else {
                    push_str(out, "  ret ");
                    self.push_value_type(out, m, *v);
                    push_str(out, " %");
                    push_nat(out, v.0 as u64);
                    push_str(out, "\n");
                }
            },
            Terminator::Return(None) => push_str(out, "  ret void\n"),
            Terminator::Branch { condition, then_block, else_block } => {
                push_str(out, "  br ");
                self.push_value_type(out, m, *condition);
                push_str(out, " %");
                push_nat(out, condition.0 as u64);
                push_str(out, ", label %bb");
                push_nat(out, then_block.0 as u64);
                push_str(out, ", label %bb");
                push_nat(out, else_block.0 as u64);
                push_str(out, "\n");
            },
            Terminator::Jump(b) => {
                push_str(out, "  br label %bb");
                push_nat(out, b.0 as u64);
                push_str(out, "\n");
            },
        }
        assert(final(out)@ =~= old(out)@ + term_text(*m, self.state(), *t));
    }

    #[verifier::spinoff_prover]
    fn render_block(&mut self, out: &mut String, m: &Module, blocks: &Vec<BasicBlock>, report: &PurityReport, b: &BasicBlock) -> (res: Result<(), BackendError>)
        requires
            m.types.wf(),
            old(self).inv(*m),
            reports(blocks@, *report),
            forall|k: int| 0 <= k < b.instructions@.len() ==> (#[trigger] b.instructions@[k]).ids_within(m.types@.entries.len(), m.effects@.len()),
        ensures
            final(self).inv(*m),
            match block_step(*m, blocks@, old(self).state(), *b) {
                (Ok(text), s) => res is Ok && final(out)@ == old(out)@ + text && final(self).state() == s,
                (Err(e), _) => res matches Err(x) && x@ == e,
            },
    {
        let ghost st0 = self.state();
        let ghost insts = b.instructions@;
        push_str(out, "bb");
        push_nat(out, b.id.0 as u64);
        push_str(out, ":\n");
        push_purity_line(out, blocks, report, b.id);
        let ghost head = out@;
        let mut k: usize = 0;
        assert(insts.take(0) =~= Seq::<Instruction>::empty());
        while k < b.instructions.len()
            invariant
                k <= b.instructions.len(),
                insts == b.instructions@,
                st0 == old(self).state(),
                m.types.wf(),
                self.inv(*m),
                forall|x: int| 0 <= x < insts.len() ==> (#[trigger] insts[x]).ids_within(m.types@.entries.len(), m.effects@.len()),
                fold_steps(inst_stepper(*m), st0, insts.take(k as int)).0 is Ok,
                out@ == head + fold_steps(inst_stepper(*m), st0, insts.take(k as int)).0->Ok_0,
                self.state() == fold_steps(inst_stepper(*m), st0, insts.take(k as int)).1,
            decreases b.instructions.len() - k,
        {
            proof {
                lemma_fold_push(inst_stepper(*m), st0, insts.take(k as int), insts[k as int]);
                assert(insts.take(k + 1) =~= insts.take(k as int).push(insts[k as int]));
            }
            let ghost sk = self.state();
            match self.render_inst(out, m, &b.instructions[k]) {
                Ok(()) => {},
                Err(e) => {
                    proof {
                        assert((inst_stepper(*m))(sk, insts[k as int]) == inst_step(*m, sk, insts[k as int]));
                        assert(fold_steps(inst_stepper(*m), st0, insts.take(k + 1)).0 == Err::<Seq<char>, SpecBackendError>(e@));
                        lemma_fold_err(inst_stepper(*m), st0, insts, k + 1);
                        assert(block_step(*m, blocks@, st0, *b).0 == Err::<Seq<char>, SpecBackendError>(e@));
                    }
                    return Err(e);
                },
            }
            k = k + 1;
        }
        assert(insts.take(insts.len() as int) =~= insts);
        self.render_terminator(out, m, &b.terminator);
        assert(final(out)@ =~= old(out)@ + block_step(*m, blocks@, st0, *b).0->Ok_0);
        Ok(())
    }

    #[verifier::spinoff_prover]
    #[verifier::rlimit(40)]
    fn render_function(&mut self, out: &mut String, m: &Module, f: &Function, report: &PurityReport) -> (res: Result<(), BackendError>)
        requires
            m.types.wf(),
            f.ids_within(m.types@.entries.len(), m.effects@.len()),
            reports(f.blocks@, *report),
        ensures
            final(self).inv(*m),
            match fn_step(*m, old(self).state(), (*f, report_regions(*report))) {
                (Ok(text), s) => res is Ok && final(out)@ == old(out)@ + text && final(self).state() == s,
                (Err(e), _) => res matches Err(x) && x@ == e,
            },
    {
        let mut bindings: Vec<(ValueId, TypeId)> = Vec::new();
        let mut i: usize = 0;
        while i < f.params.len()
            invariant
                i <= f.params.len(),
                bindings@ == param_bindings(*f).take(i as int),
            decreases f.params.len() - i,
        {
            bindings.push((f.params[i].value, f.params[i].ty));
            assert(param_bindings(*f).take(i + 1) =~= param_bindings(*f).take(i as int).push((f.params@[i as int].value, f.params@[i as int].ty)));
            i = i + 1;
        }
        assert(param_bindings(*f).take(f.params.len() as int) =~= param_bindings(*f));
        self.bindings = bindings;
        self.units = Vec::new();
        let ghost st0 = self.state();
        assert(st0 == (RenderState { bindings: param_bindings(*f), units: Seq::empty(), strings: old(self).state().strings }));
        push_define_line(out, m, f);
        push_regions_line(out, &report.pure_regions);
        if f.effect_row.len() > 0 {
            push_str(out, "  ; effects: ");
            push_effect_names(out, m, &f.effect_row);
            push_str(out, "\n");
        }
        let ghost head = out@;
        let ghost blocks = f.blocks@;
        let mut k: usize = 0;
        assert(blocks.take(0) =~= Seq::<BasicBlock>::empty());
        while k < f.blocks.len()
            invariant
                k <= f.blocks.len(),
                blocks == f.blocks@,
                st0 == (RenderState { bindings: param_bindings(*f), units: Seq::empty(), strings: old(self).state().strings }),
                m.types.wf(),
                self.inv(*m),
                f.ids_within(m.types@.entries.len(), m.effects@.len()),
                reports(f.blocks@, *report),
                fold_steps(block_stepper(*m, blocks), st0, blocks.take(k as int)).0 is Ok,
                out@ == head + fold_steps(block_stepper(*m, blocks), st0, blocks.take(k as int)).0->Ok_0,
                self.state() == fold_steps(block_stepper(*m, blocks), st0, blocks.take(k as int)).1,
            decreases f.blocks.len() - k,
        {
            proof {
                lemma_fold_push(block_stepper(*m, blocks), st0, blocks.take(k as int), blocks[k as int]);
                assert(blocks.take(k + 1) =~= blocks.take(k as int).push(blocks[k as int]));
                assert forall|x: int| 0 <= x < blocks[k as int].instructions@.len() implies (#[trigger] blocks[k as int].instructions@[x]).ids_within(m.types@.entries.len(), m.effects@.len()) by {
                    assert(f.blocks@[k as int].instructions@[x].ids_within(m.types@.entries.len(), m.effects@.len()));
                }
            }
            let ghost sk = self.state();
            match self.render_block(out, m, &f.blocks, report, &f.blocks[k]) {
                Ok(()) => {},
                Err(e) => {
                    proof {
                        assert((block_stepper(*m, blocks))(sk, blocks[k as int]) == block_step(*m, blocks, sk, blocks[k as int]));
                        assert(fold_steps(block_stepper(*m, blocks), st0, blocks.take(k + 1)).0 == Err::<Seq<char>, SpecBackendError>(e@));
                        lemma_fold_err(block_stepper(*m, blocks), st0, blocks, k + 1);
                        assert(fn_step(*m, old(self).state(), (*f, report_regions(*report))).0 == Err::<Seq<char>, SpecBackendError>(e@));
                    }
                    return Err(e);
                },
            }
            k = k + 1;
        }
        assert(blocks.take(blocks.len() as int) =~= blocks);
        push_str(out, "}\n");
        push_str(out, "\n");
        assert(final(out)@ =~= old(out)@ + fn_step(*m, old(self).state(), (*f, report_regions(*report))).0->Ok_0);
        Ok(())
    }
}


// ---------------------------------------------------------------------------
// The module
// ---------------------------------------------------------------------------

fn push_string_consts(out: &mut String, strings: &Vec<String>)
    ensures
        final(out)@ == old(out)@ + crate::text::concat(Seq::new(strings@.len(), |i: int| string_const(views(strings@), i))),
{
    let ghost strs = views(strings@);
    let ghost start = out@;
    let mut i: usize = 0;
    while i < strings.len()
        invariant
            i <= strings.len(),
            strs == views(strings@),
            out@ == start + crate::text::concat(Seq::new(i as nat, |k: int| string_const(strs, k))),
        decreases strings.len() - i,
    {
        let ghost mid = out@;
        let n = strings[i].as_str().len();
        push_str(out, "@.str");
        push_nat(out, i as u64);
        push_str(out, " = private constant [");
        crate::text::push_u128(out, n as u128 + 1);
        push_str(out, " x i8] c\"");
        push_ir_escaped(out, strings[i].as_str());
        push_str(out, "\\00\"\n");
        proof {
            assert(strs[i as int] == strings@[i as int]@);
            assert(out@ =~= mid + string_const(strs, i as int));
            assert(Seq::new((i + 1) as nat, |k: int| string_const(strs, k)) =~= Seq::new(i as nat, |k: int| string_const(strs, k)).push(string_const(strs, i as int)));
            crate::text::lemma_concat_push(Seq::new(i as nat, |k: int| string_const(strs, k)), string_const(strs, i as int));
        }
        i = i + 1;
    }
}

fn push_module_header(out: &mut String, m: &Module, triple: &Option<String>)
    ensures
        final(out)@ == old(out)@ + module_header(*m, crate::ir::opt_view(*triple)),
{
    push_str(out, "; ModuleID = '");
    crate::text::push_joined(out, &m.name, ".");
    push_str(out, "'\n");
    match triple {
        Some(t) => {
            push_str(out, "target triple = \"");
            push_str(out, t.as_str());
            push_str(out, "\"\n");
        },
        None => {},
    }
    push_str(out, "target datalayout = \"");
    push_str(out, default_data_layout());
    push_str(out, "\"\n");
    push_str(out, "\n");
    assert(final(out)@ =~= old(out)@ + module_header(*m, crate::ir::opt_view(*triple)));
}

proof fn lemma_module_err(m: Module, triple: Option<Seq<char>>, regs: Seq<Seq<Seq<BlockId>>>, k: int)
    requires
        0 <= k <= m.functions@.len(),
        fold_steps(fn_stepper(m), start_state(), with_regions(m.functions@, regs).take(k)).0 is Err,
    ensures
        module_ir(m, triple, regs) == fold_steps(fn_stepper(m), start_state(), with_regions(m.functions@, regs).take(k)).0,
{
    lemma_fold_err(fn_stepper(m), start_state(), with_regions(m.functions@, regs), k);
    reveal(module_ir);
}

/// The IR of a module, naming `triple` as its target.
fn render_module(m: &Module, triple: &Option<String>) -> (r: Result<String, BackendError>)
    requires
        m.wf(),
    ensures
        exists|regs: Seq<Seq<Seq<BlockId>>>|
            regions_of(*m, regs) && match #[trigger] module_ir(*m, crate::ir::opt_view(*triple), regs) {
                Ok(text) => r matches Ok(s) && s@ == text,
                Err(e) => r matches Err(x) && x@ == e,
            },
{
    let fs = &m.functions;
    let mut purity: Vec<PurityReport> = Vec::new();
    let mut i: usize = 0;
    while i < fs.len()
        invariant
            i <= fs.len(),
            purity@.len() == i,
            forall|j: int| 0 <= j < i ==> reports(fs@[j].blocks@, #[trigger] purity@[j]),
        decreases fs.len() - i,
    {
        purity.push(crate::ir::analysis::analyze_function_purity(&fs[i]));
        i = i + 1;
    }
    let ghost regs = purity@.map_values(|p: PurityReport| report_regions(p));
    let ghost items = with_regions(fs@, regs);
    proof {
        assert forall|j: int| 0 <= j < regs.len() implies crate::ir::analysis::are_pure_regions((#[trigger] m.functions@[j]).blocks@, regs[j]) by {
            assert(reports(fs@[j].blocks@, purity@[j]));
        }
        assert(regions_of(*m, regs));
    }
    let mut rend = Renderer { bindings: Vec::new(), units: Vec::new(), strings: Vec::new() };
    assert(rend.state() == start_state()) by {
        assert(views(rend.strings@) =~= Seq::<Seq<char>>::empty());
    }
    let mut functions = String::new();
    let mut k: usize = 0;
    assert(items.take(0) =~= Seq::<(Function, Seq<Seq<BlockId>>)>::empty());
    while k < fs.len()
        invariant
            k <= fs.len(),
            m.wf(),
            fs@ == m.functions@,
            purity@.len() == fs@.len(),
            forall|j: int| 0 <= j < fs@.len() ==> reports(fs@[j].blocks@, #[trigger] purity@[j]),
            regs == purity@.map_values(|p: PurityReport| report_regions(p)),
            items == with_regions(fs@, regs),
            fold_steps(fn_stepper(*m), start_state(), items.take(k as int)).0 is Ok,
            functions@ == fold_steps(fn_stepper(*m), start_state(), items.take(k as int)).0->Ok_0,
            rend.state() == fold_steps(fn_stepper(*m), start_state(), items.take(k as int)).1,
        decreases fs.len() - k,
    {
        let ghost sk = rend.state();
        proof {
            assert(items[k as int] == (fs@[k as int], report_regions(purity@[k as int])));
            lemma_fold_push(fn_stepper(*m), start_state(), items.take(k as int), items[k as int]);
            assert(items.take(k + 1) =~= items.take(k as int).push(items[k as int]));
            assert((fn_stepper(*m))(sk, items[k as int]) == fn_step(*m, sk, items[k as int]));
            assert(fs@[k as int].ids_within(m.types@.entries.len(), m.effects@.len()));
            assert(reports(fs@[k as int].blocks@, purity@[k as int]));
        }
        match rend.render_function(&mut functions, m, &fs[k], &purity[k]) {
            Ok(()) => {},
            Err(e) => {
                proof {
                    lemma_module_err(*m, crate::ir::opt_view(*triple), regs, k + 1);
                }
                return Err(e);
            },
        }
        k = k + 1;
    }
    proof {
        assert(items.take(items.len() as int) =~= items);
    }
    let ghost fin = rend.state();
    let mut out = String::new();
    push_module_header(&mut out, m, triple);
    push_type_decls(&mut out, m);
    push_string_consts(&mut out, &rend.strings);
    if rend.strings.len() > 0 {
        push_str(&mut out, "\n");
    }
    push_str(&mut out, functions.as_str());
    proof {
        reveal(module_ir);
        assert(fin.strings == views(rend.strings@));
        assert(out@ =~= module_ir(*m, crate::ir::opt_view(*triple), regs)->Ok_0);
    }
    Ok(out)
}

fn clone_text_opt(o: &Option<String>) -> (r: Option<String>)
    ensures
        crate::ir::opt_view(r) == crate::ir::opt_view(*o),
{
    match o {
        Some(s) => Some(crate::text::copy_string(s)),
        None => None,
    }
}

/// The target triple a compile names: the back end's own, else the one of
/// the options.
pub open spec fn chosen_triple(own: Option<String>, options: Option<String>) -> Option<Seq<char>> {
    match own {
        Some(t) => Some(t@),
        None => crate::ir::opt_view(options),
    }
}

impl Backend for LlvmBackend {
    type Output = LlvmModule;

    open spec fn compiles_to(
        &self,
        module: &Module,
        options: &BackendOptions,
        result: Result<LlvmModule, BackendError>,
    ) -> bool {
        let triple = chosen_triple(self.target_triple, options.target_triple);
        exists|regs: Seq<Seq<Seq<BlockId>>>|
            regions_of(*module, regs) && match #[trigger] module_ir(*module, triple, regs) {
                Ok(text) => result matches Ok(lm) && lm.ir@ == text && crate::ir::opt_view(lm.target_triple) == triple,
                Err(e) => result matches Err(x) && x@ == e,
            }
    }

    fn compile(&self, module: &Module, options: &BackendOptions) -> (r: Result<LlvmModule, BackendError>) {
        let triple = match &self.target_triple {
            Some(t) => Some(crate::text::copy_string(t)),
            None => clone_text_opt(&options.target_triple),
        };
        match render_module(module, &triple) {
            Ok(ir) => Ok(LlvmModule { ir, target_triple: triple }),
            Err(e) => Err(e),
        }
    }
}

} // verus!
