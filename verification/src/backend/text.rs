//! A readable textual rendering of IR modules.
use vstd::prelude::*;

use super::{Backend, BackendError, BackendOptions};
use crate::ir::{
    BasicBlock, FuncRef, Function, InstKind, Instruction, Module, Param, SpecType, Terminator,
    Type, TypeId,
};
use crate::syntax::ast::{binary_symbol, Literal, Path};
use crate::text::{
    bool_text, concat, int_text, join, lemma_concat_push, lemma_join_push, nat_digits,
    push_int, push_joined, push_nat, push_str, views,
};

verus! {

/// The back end that renders a module as text.
#[derive(Debug)]
pub struct TextBackend;

// ---------------------------------------------------------------------------
// The rendering, as text
// ---------------------------------------------------------------------------

/// Decimal digits of an id.
pub open spec fn num(n: u32) -> Seq<char> {
    nat_digits(n as nat)
}

/// How a type is written.
pub open spec fn type_text(t: SpecType) -> Seq<char> {
    match t {
        SpecType::Unit => "Unit"@,
        SpecType::Int => "Int"@,
        SpecType::Float => "Float"@,
        SpecType::Bool => "Bool"@,
        SpecType::String => "String"@,
        SpecType::Named(n) => n,
        SpecType::Record(r) => match r.name {
            Some(n) => n,
            None => "record"@,
        },
        SpecType::Unknown => "_"@,
    }
}

/// How a literal is written.
pub open spec fn literal_text(l: Literal) -> Seq<char> {
    match l {
        Literal::Int(v) => int_text(v as int),
        Literal::Float(t) => t@,
        Literal::Bool(b) => bool_text(b),
        Literal::String(s) => "\""@ + s@ + "\""@,
        Literal::Unit => "()"@,
    }
}

/// A path with its segments joined by `::`.
pub open spec fn path_text(p: Path) -> Seq<char> {
    join(views(p.segments@), "::"@)
}

pub open spec fn value_ref(v: crate::ir::ValueId) -> Seq<char> {
    "%"@ + num(v.0)
}

pub open spec fn callee_text(f: FuncRef) -> Seq<char> {
    match f {
        FuncRef::Function(p) => path_text(p),
        FuncRef::Method(n) => n@,
    }
}

pub open spec fn field_text(f: (String, crate::ir::ValueId)) -> Seq<char> {
    f.0@ + ": "@ + value_ref(f.1)
}

pub open spec fn incoming_text(i: (crate::ir::BlockId, crate::ir::ValueId)) -> Seq<char> {
    "bb"@ + num(i.0.0) + ": "@ + value_ref(i.1)
}

/// How an instruction's operation is written.
pub open spec fn inst_text(kind: InstKind) -> Seq<char> {
    match kind {
        InstKind::Literal(l) => literal_text(l),
        InstKind::Binary { op, lhs, rhs } => binary_symbol(op) + " "@ + value_ref(lhs) + ", "@
            + value_ref(rhs),
        InstKind::Call { func, args } => "call "@ + callee_text(func) + "("@ + join(
            args@.map_values(|a: crate::ir::ValueId| value_ref(a)),
            ", "@,
        ) + ")"@,
        InstKind::Record { type_path, fields } => {
            let parts = join(
                fields@.map_values(|f: (String, crate::ir::ValueId)| field_text(f)),
                ", "@,
            );
            match type_path {
                Some(p) => "record "@ + path_text(p) + " { "@ + parts + " }"@,
                None => "record { "@ + parts + " }"@,
            }
        },
        InstKind::Path(p) => "path "@ + path_text(p),
        InstKind::Phi { incomings } => "phi { "@ + join(
            incomings@.map_values(|i: (crate::ir::BlockId, crate::ir::ValueId)| incoming_text(i)),
            ", "@,
        ) + " }"@,
    }
}

/// How a terminator is written.
pub open spec fn terminator_text(t: Terminator) -> Seq<char> {
    match t {
        Terminator::Return(Some(v)) => "return "@ + value_ref(v),
        Terminator::Return(None) => "return"@,
        Terminator::Branch { condition, then_block, else_block } => "branch "@ + value_ref(
            condition,
        ) + " -> bb"@ + num(then_block.0) + ", bb"@ + num(else_block.0),
        Terminator::Jump(b) => "jump bb"@ + num(b.0),
    }
}

/// A branch is written `branch %c -> bbT, bbE`: after the condition comes
/// first the block taken when it holds, then the block taken otherwise.
pub proof fn lemma_branch_text_roles(c: crate::ir::ValueId, t: crate::ir::BlockId, e: crate::ir::BlockId)
    ensures
        terminator_text(Terminator::Branch { condition: c, then_block: t, else_block: e })
            == "branch %"@ + nat_digits(c.0 as nat) + " -> bb"@ + nat_digits(t.0 as nat) + ", bb"@
            + nat_digits(e.0 as nat),
{
    reveal_strlit("branch %");
    reveal_strlit("branch ");
    reveal_strlit("%");
    assert("branch "@ + "%"@ =~= "branch %"@);
    assert(terminator_text(Terminator::Branch { condition: c, then_block: t, else_block: e }) =~= "branch %"@
        + nat_digits(c.0 as nat) + " -> bb"@ + nat_digits(t.0 as nat) + ", bb"@ + nat_digits(e.0 as nat));
}

/// A jump names its target block; a return names the returned value.
pub proof fn lemma_jump_return_text(b: crate::ir::BlockId, v: crate::ir::ValueId)
    ensures
        terminator_text(Terminator::Jump(b)) == "jump bb"@ + nat_digits(b.0 as nat),
        terminator_text(Terminator::Return(Some(v))) == "return %"@ + nat_digits(v.0 as nat),
{
    reveal_strlit("return %");
    reveal_strlit("return ");
    reveal_strlit("%");
    assert("return "@ + "%"@ =~= "return %"@);
    assert(terminator_text(Terminator::Return(Some(v))) =~= "return %"@ + nat_digits(v.0 as nat));
}

pub open spec fn type_of_text(m: Module, t: TypeId) -> Seq<char> {
    type_text(m.types.spec_get(t))
}

#[verifier::opaque]
pub open spec fn inst_line(m: Module, inst: Instruction) -> Seq<char> {
    "    "@ + value_ref(inst.id) + " = "@ + inst_text(inst.kind) + " : "@ + type_of_text(
        m,
        inst.ty,
    ) + "\n"@
}

#[verifier::opaque]
pub open spec fn block_text(m: Module, b: BasicBlock) -> Seq<char> {
    "  block "@ + num(b.id.0) + ":\n"@ + concat(
        b.instructions@.map_values(|i: Instruction| inst_line(m, i)),
    ) + "    "@ + terminator_text(b.terminator) + "\n"@
}

pub open spec fn param_text(m: Module, p: Param) -> Seq<char> {
    p.name@ + ": "@ + type_of_text(m, p.ty)
}

/// The function's signature line, without its line break.
#[verifier::opaque]
pub open spec fn signature_text(m: Module, f: Function) -> Seq<char> {
    let ret = if m.types.spec_get(f.ret_type) == SpecType::Unit {
        Seq::empty()
    } else {
        " -> "@ + type_of_text(m, f.ret_type)
    };
    let effects = if f.effect_row@.len() == 0 {
        Seq::empty()
    } else {
        " !{"@ + join(
            f.effect_row@.map_values(|e: crate::ir::EffectId| m.effects@[e.0 as int]),
            ", "@,
        ) + "}"@
    };
    "fn "@ + f.name@ + "("@ + join(f.params@.map_values(|p: Param| param_text(m, p)), ", "@)
        + ")"@ + ret + effects
}

#[verifier::opaque]
pub open spec fn function_text(m: Module, f: Function) -> Seq<char> {
    signature_text(m, f) + "\n"@ + concat(f.blocks@.map_values(|b: BasicBlock| block_text(m, b)))
}

/// The whole module as text.
pub open spec fn module_text(m: Module) -> Seq<char> {
    "module "@ + join(views(m.name@), "."@) + "\n"@ + concat(
        m.functions@.map_values(|f: Function| "\n"@ + function_text(m, f)),
    )
}

// ---------------------------------------------------------------------------
// Rendering
// ---------------------------------------------------------------------------

fn push_num(out: &mut String, n: u32)
    ensures
        final(out)@ == old(out)@ + num(n),
{
    push_nat(out, n as u64);
}

fn push_value_ref(out: &mut String, v: crate::ir::ValueId)
    ensures
        final(out)@ == old(out)@ + value_ref(v),
{
    push_str(out, "%");
    push_num(out, v.0);
    assert(final(out)@ =~= old(out)@ + value_ref(v));
}

fn push_path(out: &mut String, p: &Path)
    ensures
        final(out)@ == old(out)@ + path_text(*p),
{
    push_joined(out, &p.segments, "::");
}

fn push_type(out: &mut String, t: &Type)
    ensures
        final(out)@ == old(out)@ + type_text(t@),
{
    match t {
        Type::Unit => push_str(out, "Unit"),
        Type::Int => push_str(out, "Int"),
        Type::Float => push_str(out, "Float"),
        Type::Bool => push_str(out, "Bool"),
        Type::String => push_str(out, "String"),
        Type::Named(n) => push_str(out, n.as_str()),
        Type::Record(r) => match &r.name {
            Some(n) => push_str(out, n.as_str()),
            None => push_str(out, "record"),
        },
        Type::Unknown => push_str(out, "_"),
    }
}

fn push_literal(out: &mut String, l: &Literal)
    ensures
        final(out)@ == old(out)@ + literal_text(*l),
{
    match l {
        Literal::Int(v) => push_int(out, *v),
        Literal::Float(t) => push_str(out, t.as_str()),
        Literal::Bool(b) => {
            if *b {
                push_str(out, "true");
            } else {
                push_str(out, "false");
            }
        },
        Literal::String(s) => {
            push_str(out, "\"");
            push_str(out, s.as_str());
            push_str(out, "\"");
            assert(final(out)@ =~= old(out)@ + literal_text(*l));
        },
        Literal::Unit => push_str(out, "()"),
    }
}

fn push_value_list(out: &mut String, args: &Vec<crate::ir::ValueId>)
    ensures
        final(out)@ == old(out)@ + join(
            args@.map_values(|a: crate::ir::ValueId| value_ref(a)),
            ", "@,
        ),
{
    let ghost start = out@;
    let mut i: usize = 0;
    while i < args.len()
        invariant
            i <= args.len(),
            out@ == start + join(
                args@.take(i as int).map_values(|a: crate::ir::ValueId| value_ref(a)),
                ", "@,
            ),
        decreases args.len() - i,
    {
        let ghost before = out@;
        if i > 0 {
            push_str(out, ", ");
        }
        push_value_ref(out, args[i]);
        proof {
            let f = |a: crate::ir::ValueId| value_ref(a);
            assert(args@.take(i + 1).map_values(f) =~= args@.take(i as int).map_values(f).push(
                f(args@[i as int]),
            ));
            lemma_join_push(args@.take(i as int).map_values(f), ", "@, f(args@[i as int]));
        }
        i = i + 1;
    }
    assert(args@.take(args.len() as int) =~= args@);
}

fn push_fields(out: &mut String, fields: &Vec<(String, crate::ir::ValueId)>)
    ensures
        final(out)@ == old(out)@ + join(
            fields@.map_values(|f: (String, crate::ir::ValueId)| field_text(f)),
            ", "@,
        ),
{
    let ghost start = out@;
    let mut i: usize = 0;
    while i < fields.len()
        invariant
            i <= fields.len(),
            out@ == start + join(
                fields@.take(i as int).map_values(
                    |f: (String, crate::ir::ValueId)| field_text(f),
                ),
                ", "@,
            ),
        decreases fields.len() - i,
    {
        let ghost before = out@;
        if i > 0 {
            push_str(out, ", ");
        }
        let ghost mid = out@;
        push_str(out, fields[i].0.as_str());
        push_str(out, ": ");
        push_value_ref(out, fields[i].1);
        proof {
            let f = |f: (String, crate::ir::ValueId)| field_text(f);
            assert(out@ =~= mid + f(fields@[i as int]));
            assert(fields@.take(i + 1).map_values(f) =~= fields@.take(i as int).map_values(
                f,
            ).push(f(fields@[i as int])));
            lemma_join_push(fields@.take(i as int).map_values(f), ", "@, f(fields@[i as int]));
        }
        i = i + 1;
    }
    assert(fields@.take(fields.len() as int) =~= fields@);
}

fn push_incomings(out: &mut String, incomings: &Vec<(crate::ir::BlockId, crate::ir::ValueId)>)
    ensures
        final(out)@ == old(out)@ + join(
            incomings@.map_values(
                |i: (crate::ir::BlockId, crate::ir::ValueId)| incoming_text(i),
            ),
            ", "@,
        ),
{
    let ghost start = out@;
    let mut i: usize = 0;
    while i < incomings.len()
        invariant
            i <= incomings.len(),
            out@ == start + join(
                incomings@.take(i as int).map_values(
                    |i: (crate::ir::BlockId, crate::ir::ValueId)| incoming_text(i),
                ),
                ", "@,
            ),
        decreases incomings.len() - i,
    {
        if i > 0 {
            push_str(out, ", ");
        }
        let ghost mid = out@;
        push_str(out, "bb");
        push_num(out, incomings[i].0.0);
        push_str(out, ": ");
        push_value_ref(out, incomings[i].1);
        proof {
            let f = |i: (crate::ir::BlockId, crate::ir::ValueId)| incoming_text(i);
            assert(out@ =~= mid + f(incomings@[i as int]));
            assert(incomings@.take(i + 1).map_values(f) =~= incomings@.take(i as int).map_values(
                f,
            ).push(f(incomings@[i as int])));
            lemma_join_push(incomings@.take(i as int).map_values(f), ", "@, f(incomings@[i as int]));
        }
        i = i + 1;
    }
    assert(incomings@.take(incomings.len() as int) =~= incomings@);
}

/// Appends the written form of an instruction's operation.
fn format_inst(out: &mut String, kind: &InstKind)
    ensures
        final(out)@ == old(out)@ + inst_text(*kind),
{
    match kind {
        InstKind::Literal(l) => push_literal(out, l),
        InstKind::Binary { op, lhs, rhs } => {
            op.push_symbol(out);
            push_str(out, " ");
            push_value_ref(out, *lhs);
            push_str(out, ", ");
            push_value_ref(out, *rhs);
            assert(final(out)@ =~= old(out)@ + inst_text(*kind));
        },
        InstKind::Call { func, args } => {
            push_str(out, "call ");
            match func {
                FuncRef::Function(p) => push_path(out, p),
                FuncRef::Method(n) => push_str(out, n.as_str()),
            }
            push_str(out, "(");
            push_value_list(out, args);
            push_str(out, ")");
            assert(final(out)@ =~= old(out)@ + inst_text(*kind));
        },
        InstKind::Record { type_path, fields } => {
            match type_path {
                Some(p) => {
                    push_str(out, "record ");
                    push_path(out, p);
                    push_str(out, " { ");
                },
                None => push_str(out, "record { "),
            }
            push_fields(out, fields);
            push_str(out, " }");
            assert(final(out)@ =~= old(out)@ + inst_text(*kind));
        },
        InstKind::Path(p) => {
            push_str(out, "path ");
            push_path(out, p);
            assert(final(out)@ =~= old(out)@ + inst_text(*kind));
        },
        InstKind::Phi { incomings } => {
            push_str(out, "phi { ");
            push_incomings(out, incomings);
            push_str(out, " }");
            assert(final(out)@ =~= old(out)@ + inst_text(*kind));
        },
    }
}

/// Appends the written form of a terminator.
fn format_terminator(out: &mut String, t: &Terminator)
    ensures
        final(out)@ == old(out)@ + terminator_text(*t),
{
    match t {
        Terminator::Return(Some(v)) => {
            push_str(out, "return ");
            push_value_ref(out, *v);
        },
        Terminator::Return(None) => push_str(out, "return"),
        Terminator::Branch { condition, then_block, else_block } => {
            push_str(out, "branch ");
            push_value_ref(out, *condition);
            push_str(out, " -> bb");
            push_num(out, then_block.0);
            push_str(out, ", bb");
            push_num(out, else_block.0);
        },
        Terminator::Jump(b) => {
            push_str(out, "jump bb");
            push_num(out, b.0);
        },
    }
    assert(final(out)@ =~= old(out)@ + terminator_text(*t));
}

fn push_block(out: &mut String, m: &Module, b: &BasicBlock)
    requires
        m.types.wf(),
        forall|k: int|
            0 <= k < b.instructions@.len() ==> (#[trigger] b.instructions@[k]).ty.0
                < m.types@.entries.len(),
    ensures
        final(out)@ == old(out)@ + block_text(*m, *b),
{
    reveal(block_text);
    let ghost start = out@;
    push_str(out, "  block ");
    push_num(out, b.id.0);
    push_str(out, ":\n");
    let ghost head = out@;
    let mut i: usize = 0;
    while i < b.instructions.len()
        invariant
            i <= b.instructions.len(),
            m.types.wf(),
            forall|k: int|
                0 <= k < b.instructions@.len() ==> (#[trigger] b.instructions@[k]).ty.0
                    < m.types@.entries.len(),
            out@ == head + concat(
                b.instructions@.take(i as int).map_values(|x: Instruction| inst_line(*m, x)),
            ),
        decreases b.instructions.len() - i,
    {
        let inst = &b.instructions[i];
        let ghost before = out@;
        push_str(out, "    ");
        push_value_ref(out, inst.id);
        push_str(out, " = ");
        format_inst(out, &inst.kind);
        push_str(out, " : ");
        assert(b.instructions@[i as int].ty.0 < m.types@.entries.len());
        push_type(out, m.type_of(inst.ty));
        push_str(out, "\n");
        proof {
            reveal(inst_line);
            let f = |x: Instruction| inst_line(*m, x);
            assert(out@ =~= before + f(*inst));
            assert(b.instructions@.take(i + 1).map_values(f) =~= b.instructions@.take(
                i as int,
            ).map_values(f).push(f(*inst)));
            lemma_concat_push(b.instructions@.take(i as int).map_values(f), f(*inst));
        }
        i = i + 1;
    }
    assert(b.instructions@.take(b.instructions.len() as int) =~= b.instructions@);
    push_str(out, "    ");
    format_terminator(out, &b.terminator);
    push_str(out, "\n");
    assert(final(out)@ =~= old(out)@ + block_text(*m, *b));
}

fn push_params(out: &mut String, m: &Module, params: &Vec<Param>)
    requires
        m.types.wf(),
        forall|i: int| 0 <= i < params@.len() ==> (#[trigger] params@[i]).ty.0 < m.types@.entries.len(),
    ensures
        final(out)@ == old(out)@ + join(params@.map_values(|p: Param| param_text(*m, p)), ", "@),
{
    let ghost start = out@;
    let mut i: usize = 0;
    while i < params.len()
        invariant
            i <= params.len(),
            m.types.wf(),
            forall|i: int| 0 <= i < params@.len() ==> (#[trigger] params@[i]).ty.0 < m.types@.entries.len(),
            out@ == start + join(params@.take(i as int).map_values(|p: Param| param_text(*m, p)), ", "@),
        decreases params.len() - i,
    {
        if i > 0 {
            push_str(out, ", ");
        }
        let ghost mid = out@;
        let p = &params[i];
        push_str(out, p.name.as_str());
        push_str(out, ": ");
        assert(params@[i as int].ty.0 < m.types@.entries.len());
        push_type(out, m.type_of(p.ty));
        proof {
            let f = |p: Param| param_text(*m, p);
            assert(out@ =~= mid + f(*p));
            assert(params@.take(i + 1).map_values(f) =~= params@.take(i as int).map_values(f).push(f(*p)));
            lemma_join_push(params@.take(i as int).map_values(f), ", "@, f(*p));
        }
        i = i + 1;
    }
    assert(params@.take(params.len() as int) =~= params@);
}

fn push_effect_names(out: &mut String, m: &Module, row: &Vec<crate::ir::EffectId>)
    requires
        forall|e: int| 0 <= e < row@.len() ==> (#[trigger] row@[e]).0 < m.effects@.len(),
    ensures
        final(out)@ == old(out)@ + join(
            row@.map_values(|e: crate::ir::EffectId| m.effects@[e.0 as int]),
            ", "@,
        ),
{
    let ghost start = out@;
    let mut i: usize = 0;
    while i < row.len()
        invariant
            i <= row.len(),
            forall|e: int| 0 <= e < row@.len() ==> (#[trigger] row@[e]).0 < m.effects@.len(),
            out@ == start + join(
                row@.take(i as int).map_values(|e: crate::ir::EffectId| m.effects@[e.0 as int]),
                ", "@,
            ),
        decreases row.len() - i,
    {
        if i > 0 {
            push_str(out, ", ");
        }
        assert(row@[i as int].0 < m.effects@.len());
        push_str(out, m.effect_name(row[i]));
        proof {
            let f = |e: crate::ir::EffectId| m.effects@[e.0 as int];
            assert(row@.take(i + 1).map_values(f) =~= row@.take(i as int).map_values(f).push(f(row@[i as int])));
            lemma_join_push(row@.take(i as int).map_values(f), ", "@, f(row@[i as int]));
        }
        i = i + 1;
    }
    assert(row@.take(row.len() as int) =~= row@);
}

/// Appends the text of one function.
#[verifier::spinoff_prover]
#[verifier::rlimit(40)]
fn render_function(out: &mut String, m: &Module, f: &Function)
    requires
        m.types.wf(),
        f.ids_within(m.types@.entries.len(), m.effects@.len()),
    ensures
        final(out)@ == old(out)@ + function_text(*m, *f),
{
    reveal(signature_text);
    reveal(function_text);
    push_str(out, "fn ");
    push_str(out, f.name.as_str());
    push_str(out, "(");
    push_params(out, m, &f.params);
    push_str(out, ")");
    let ret_type = m.type_of(f.ret_type);
    match ret_type {
        Type::Unit => {},
        _ => {
            push_str(out, " -> ");
            push_type(out, ret_type);
        },
    }
    if f.effect_row.len() > 0 {
        push_str(out, " !{");
        push_effect_names(out, m, &f.effect_row);
        push_str(out, "}");
    }
    assert(out@ =~= old(out)@ + signature_text(*m, *f));
    push_str(out, "\n");
    let ghost head = out@;
    let mut i: usize = 0;
    while i < f.blocks.len()
        invariant
            i <= f.blocks.len(),
            m.types.wf(),
            f.ids_within(m.types@.entries.len(), m.effects@.len()),
            out@ == head + concat(f.blocks@.take(i as int).map_values(|b: BasicBlock| block_text(*m, b))),
        decreases f.blocks.len() - i,
    {
        let ghost before = out@;
        assert forall|k: int| 0 <= k < f.blocks@[i as int].instructions@.len() implies (#[trigger] f.blocks@[i as int].instructions@[k]).ty.0 < m.types@.entries.len() by {
            assert(f.blocks@[i as int].instructions@[k].ids_within(m.types@.entries.len(), m.effects@.len()));
        }
        push_block(out, m, &f.blocks[i]);
        proof {
            let g = |b: BasicBlock| block_text(*m, b);
            assert(f.blocks@.take(i + 1).map_values(g) =~= f.blocks@.take(i as int).map_values(g).push(g(f.blocks@[i as int])));
            lemma_concat_push(f.blocks@.take(i as int).map_values(g), g(f.blocks@[i as int]));
        }
        i = i + 1;
    }
    assert(f.blocks@.take(f.blocks.len() as int) =~= f.blocks@);
    assert(final(out)@ =~= old(out)@ + function_text(*m, *f));
}

/// The module rendered as text: a `module` header, then each function.
pub fn render_module(module: &Module) -> (s: String)
    requires
        module.wf(),
    ensures
        s@ == module_text(*module),
{
    let mut out = String::new();
    push_str(&mut out, "module ");
    push_joined(&mut out, &module.name, ".");
    push_str(&mut out, "\n");
    let ghost head = out@;
    let mut i: usize = 0;
    while i < module.functions.len()
        invariant
            i <= module.functions.len(),
            module.wf(),
            out@ == head + concat(module.functions@.take(i as int).map_values(|f: Function| "\n"@ + function_text(*module, f))),
        decreases module.functions.len() - i,
    {
        let ghost before = out@;
        push_str(&mut out, "\n");
        assert(module.functions@[i as int].ids_within(module.types@.entries.len(), module.effects@.len()));
        render_function(&mut out, module, &module.functions[i]);
        proof {
            let g = |f: Function| "\n"@ + function_text(*module, f);
            assert(out@ =~= before + g(module.functions@[i as int]));
            assert(module.functions@.take(i + 1).map_values(g) =~= module.functions@.take(i as int).map_values(g).push(g(module.functions@[i as int])));
            lemma_concat_push(module.functions@.take(i as int).map_values(g), g(module.functions@[i as int]));
        }
        i = i + 1;
    }
    assert(module.functions@.take(module.functions.len() as int) =~= module.functions@);
    assert(out@ =~= module_text(*module));
    out
}

impl Backend for TextBackend {
    type Output = String;

    open spec fn compiles_to(
        &self,
        module: &Module,
        options: &BackendOptions,
        result: Result<String, BackendError>,
    ) -> bool {
        result matches Ok(s) && s@ == module_text(*module)
    }

    fn compile(&self, module: &Module, options: &BackendOptions) -> (r: Result<String, BackendError>) {
        Ok(render_module(module))
    }
}

} // verus!
