//! The IR of a module as a JSON document.
use vstd::prelude::*;

use crate::cli::report::{obj1, obj2, obj3, obj4, obj5};
use crate::cli::{array_text, json_array, json_string, json_string_array, object_text, quoted, strs};
use crate::ir::{
    BasicBlock, EffectId, FuncRef, Function, InstKind, Instruction, Module, Param, SpecField, SpecType,
    Terminator, Type,
};
use crate::syntax::ast::{binary_symbol, Literal};
use crate::text::{bool_text, copy_string, int_text, int_to_string, nat_digits, nat_to_string, to_owned_string, views};

verus! {

/// A number in decimal.
pub open spec fn num(n: nat) -> Seq<char> {
    nat_digits(n)
}

pub open spec fn literal_json(l: Literal) -> Seq<char> {
    match l {
        Literal::Int(v) => object_text(seq![("type"@, quoted("Int"@)), ("value"@, int_text(v as int))]),
        Literal::Float(t) => object_text(seq![("type"@, quoted("Float"@)), ("value"@, t@)]),
        Literal::Bool(b) => object_text(seq![("type"@, quoted("Bool"@)), ("value"@, bool_text(b))]),
        Literal::String(s) => object_text(seq![("type"@, quoted("String"@)), ("value"@, quoted(s@))]),
        Literal::Unit => object_text(seq![("type"@, quoted("Unit"@))]),
    }
}

pub open spec fn terminator_json(t: Terminator) -> Seq<char> {
    match t {
        Terminator::Return(Some(v)) => object_text(seq![("kind"@, quoted("Return"@)), ("value"@, num(v.0 as nat))]),
        Terminator::Return(None) => object_text(seq![("kind"@, quoted("Return"@)), ("value"@, "null"@)]),
        Terminator::Branch { condition, then_block, else_block } => object_text(
            seq![
                ("kind"@, quoted("Branch"@)),
                ("condition"@, num(condition.0 as nat)),
                ("then"@, num(then_block.0 as nat)),
                ("else"@, num(else_block.0 as nat)),
            ],
        ),
        Terminator::Jump(target) => object_text(seq![("kind"@, quoted("Jump"@)), ("target"@, num(target.0 as nat))]),
    }
}

pub open spec fn func_ref_json(f: FuncRef) -> Seq<char> {
    match f {
        FuncRef::Function(p) => object_text(seq![("type"@, quoted("Function"@)), ("path"@, strs(views(p.segments@)))]),
        FuncRef::Method(n) => object_text(seq![("type"@, quoted("Method"@)), ("name"@, quoted(n@))]),
    }
}

pub open spec fn value_list(vs: Seq<crate::ir::ValueId>) -> Seq<char> {
    array_text(vs.map_values(|v: crate::ir::ValueId| num(v.0 as nat)))
}

pub open spec fn field_json(f: (String, crate::ir::ValueId)) -> Seq<char> {
    object_text(seq![("name"@, quoted(f.0@)), ("value"@, num(f.1.0 as nat))])
}

pub open spec fn incoming_json(i: (crate::ir::BlockId, crate::ir::ValueId)) -> Seq<char> {
    object_text(seq![("block"@, num(i.0.0 as nat)), ("value"@, num(i.1.0 as nat))])
}

pub open spec fn inst_kind_json(k: InstKind) -> Seq<char> {
    match k {
        InstKind::Literal(l) => object_text(seq![("kind"@, quoted("Literal"@)), ("value"@, literal_json(l))]),
        InstKind::Binary { op, lhs, rhs } => object_text(
            seq![
                ("kind"@, quoted("Binary"@)),
                ("op"@, quoted(binary_symbol(op))),
                ("lhs"@, num(lhs.0 as nat)),
                ("rhs"@, num(rhs.0 as nat)),
            ],
        ),
        InstKind::Call { func, args } => object_text(
            seq![("kind"@, quoted("Call"@)), ("function"@, func_ref_json(func)), ("args"@, value_list(args@))],
        ),
        InstKind::Record { type_path, fields } => object_text(
            seq![
                ("kind"@, quoted("Record"@)),
                ("type_path"@, match type_path {
                    Some(p) => strs(views(p.segments@)),
                    None => "null"@,
                }),
                ("fields"@, array_text(fields@.map_values(|f: (String, crate::ir::ValueId)| field_json(f)))),
            ],
        ),
        InstKind::Path(p) => object_text(seq![("kind"@, quoted("Path"@)), ("segments"@, strs(views(p.segments@)))]),
        InstKind::Phi { incomings } => object_text(
            seq![
                ("kind"@, quoted("Phi"@)),
                ("incomings"@, array_text(
                    incomings@.map_values(|i: (crate::ir::BlockId, crate::ir::ValueId)| incoming_json(i)),
                )),
            ],
        ),
    }
}

/// The names of the effects `ids` in the table `names`.
pub open spec fn effect_names(names: Seq<Seq<char>>, ids: Seq<EffectId>) -> Seq<Seq<char>> {
    ids.map_values(|e: EffectId| names[e.0 as int])
}

pub open spec fn inst_json(names: Seq<Seq<char>>, i: Instruction) -> Seq<char> {
    object_text(
        seq![
            ("id"@, num(i.id.0 as nat)),
            ("type"@, num(i.ty.0 as nat)),
            ("effects"@, strs(effect_names(names, i.effects@))),
            ("kind"@, inst_kind_json(i.kind)),
        ],
    )
}

pub open spec fn block_json(names: Seq<Seq<char>>, b: BasicBlock) -> Seq<char> {
    object_text(
        seq![
            ("id"@, num(b.id.0 as nat)),
            ("instructions"@, array_text(b.instructions@.map_values(|i: Instruction| inst_json(names, i)))),
            ("terminator"@, terminator_json(b.terminator)),
        ],
    )
}

pub open spec fn param_json(p: Param) -> Seq<char> {
    object_text(seq![("name"@, quoted(p.name@)), ("type"@, num(p.ty.0 as nat)), ("value"@, num(p.value.0 as nat))])
}

pub open spec fn function_json(names: Seq<Seq<char>>, f: Function) -> Seq<char> {
    object_text(
        seq![
            ("name"@, quoted(f.name@)),
            ("ret_type"@, num(f.ret_type.0 as nat)),
            ("effect_row"@, strs(effect_names(names, f.effect_row@))),
            ("params"@, array_text(f.params@.map_values(|p: Param| param_json(p)))),
            ("blocks"@, array_text(f.blocks@.map_values(|b: BasicBlock| block_json(names, b)))),
        ],
    )
}

pub open spec fn record_field_json(f: SpecField) -> Seq<char> {
    object_text(seq![("name"@, quoted(f.name)), ("type"@, num(f.ty.0 as nat)), ("offset"@, num(f.offset as nat))])
}

pub open spec fn type_json(t: SpecType) -> Seq<char> {
    match t {
        SpecType::Unit => object_text(seq![("kind"@, quoted("Unit"@))]),
        SpecType::Int => object_text(seq![("kind"@, quoted("Int"@))]),
        SpecType::Float => object_text(seq![("kind"@, quoted("Float"@))]),
        SpecType::Bool => object_text(seq![("kind"@, quoted("Bool"@))]),
        SpecType::String => object_text(seq![("kind"@, quoted("String"@))]),
        SpecType::Named(n) => object_text(seq![("kind"@, quoted("Named"@)), ("name"@, quoted(n))]),
        SpecType::Record(r) => object_text(
            seq![
                ("kind"@, quoted("Record"@)),
                ("name"@, match r.name {
                    Some(n) => quoted(n),
                    None => "null"@,
                }),
                ("fields"@, array_text(r.fields.map_values(|f: SpecField| record_field_json(f)))),
                ("size"@, num(r.size as nat)),
                ("align"@, num(r.align as nat)),
            ],
        ),
        SpecType::Unknown => object_text(seq![("kind"@, quoted("Unknown"@))]),
    }
}

/// The JSON document of an IR module: its name, functions, types (with
/// their ids) and effects (with their ids).
pub open spec fn module_json(m: Module) -> Seq<char> {
    let names = m.effects.names();
    let es = m.types@.entries;
    object_text(
        seq![
            ("name"@, strs(views(m.name@))),
            ("functions"@, array_text(m.functions@.map_values(|f: Function| function_json(names, f)))),
            ("types"@, array_text(
                Seq::new(es.len(), |i: int| object_text(seq![("id"@, num(i as nat)), ("type"@, type_json(es[i]))])),
            )),
            ("effects"@, array_text(
                Seq::new(names.len(), |i: int| object_text(seq![("id"@, num(i as nat)), ("name"@, quoted(names[i]))])),
            )),
        ],
    )
}

fn num_string(n: u64) -> (s: String)
    ensures
        s@ == num(n as nat),
{
    nat_to_string(n)
}

fn literal_to_json(l: &Literal) -> (s: String)
    ensures
        s@ == literal_json(*l),
{
    match l {
        Literal::Int(v) => obj2("type", json_string("Int"), "value", int_to_string(*v)),
        Literal::Float(t) => obj2("type", json_string("Float"), "value", copy_string(t)),
        Literal::Bool(b) => obj2("type", json_string("Bool"), "value", crate::cli::bool_string(*b)),
        Literal::String(v) => obj2("type", json_string("String"), "value", json_string(v.as_str())),
        Literal::Unit => obj1("type", json_string("Unit")),
    }
}

fn terminator_to_json(t: &Terminator) -> (s: String)
    ensures
        s@ == terminator_json(*t),
{
    match t {
        Terminator::Return(Some(v)) => obj2("kind", json_string("Return"), "value", num_string(v.0 as u64)),
        Terminator::Return(None) => obj2("kind", json_string("Return"), "value", to_owned_string("null")),
        Terminator::Branch { condition, then_block, else_block } => obj4(
            "kind",
            json_string("Branch"),
            "condition",
            num_string(condition.0 as u64),
            "then",
            num_string(then_block.0 as u64),
            "else",
            num_string(else_block.0 as u64),
        ),
        Terminator::Jump(target) => obj2("kind", json_string("Jump"), "target", num_string(target.0 as u64)),
    }
}

fn value_list_to_json(vs: &Vec<crate::ir::ValueId>) -> (s: String)
    ensures
        s@ == value_list(vs@),
{
    let mut out: Vec<String> = Vec::new();
    let mut i: usize = 0;
    while i < vs.len()
        invariant
            i <= vs.len(),
            views(out@) == vs@.take(i as int).map_values(|v: crate::ir::ValueId| num(v.0 as nat)),
        decreases vs.len() - i,
    {
        let ghost o0 = views(out@);
        out.push(num_string(vs[i].0 as u64));
        proof {
            let f = |v: crate::ir::ValueId| num(v.0 as nat);
            assert(views(out@) =~= o0.push(f(vs@[i as int])));
            assert(vs@.take(i + 1).map_values(f) =~= vs@.take(i as int).map_values(f).push(f(vs@[i as int])));
        }
        i = i + 1;
    }
    assert(vs@.take(vs.len() as int) =~= vs@);
    json_array(out)
}

fn fields_to_json(fs: &Vec<(String, crate::ir::ValueId)>) -> (s: String)
    ensures
        s@ == array_text(fs@.map_values(|f: (String, crate::ir::ValueId)| field_json(f))),
{
    let mut out: Vec<String> = Vec::new();
    let mut i: usize = 0;
    while i < fs.len()
        invariant
            i <= fs.len(),
            views(out@) == fs@.take(i as int).map_values(|f: (String, crate::ir::ValueId)| field_json(f)),
        decreases fs.len() - i,
    {
        let ghost o0 = views(out@);
        let j = obj2("name", json_string(fs[i].0.as_str()), "value", num_string(fs[i].1.0 as u64));
        out.push(j);
        proof {
            let f = |f: (String, crate::ir::ValueId)| field_json(f);
            assert(views(out@) =~= o0.push(f(fs@[i as int])));
            assert(fs@.take(i + 1).map_values(f) =~= fs@.take(i as int).map_values(f).push(f(fs@[i as int])));
        }
        i = i + 1;
    }
    assert(fs@.take(fs.len() as int) =~= fs@);
    json_array(out)
}

fn incomings_to_json(is: &Vec<(crate::ir::BlockId, crate::ir::ValueId)>) -> (s: String)
    ensures
        s@ == array_text(is@.map_values(|i: (crate::ir::BlockId, crate::ir::ValueId)| incoming_json(i))),
{
    let mut out: Vec<String> = Vec::new();
    let mut i: usize = 0;
    while i < is.len()
        invariant
            i <= is.len(),
            views(out@) == is@.take(i as int).map_values(|i: (crate::ir::BlockId, crate::ir::ValueId)| incoming_json(i)),
        decreases is.len() - i,
    {
        let ghost o0 = views(out@);
        let j = obj2("block", num_string(is[i].0.0 as u64), "value", num_string(is[i].1.0 as u64));
        out.push(j);
        proof {
            let f = |i: (crate::ir::BlockId, crate::ir::ValueId)| incoming_json(i);
            assert(views(out@) =~= o0.push(f(is@[i as int])));
            assert(is@.take(i + 1).map_values(f) =~= is@.take(i as int).map_values(f).push(f(is@[i as int])));
        }
        i = i + 1;
    }
    assert(is@.take(is.len() as int) =~= is@);
    json_array(out)
}

fn func_ref_to_json(f: &FuncRef) -> (s: String)
    ensures
        s@ == func_ref_json(*f),
{
    match f {
        FuncRef::Function(p) => obj2("type", json_string("Function"), "path", json_string_array(&p.segments)),
        FuncRef::Method(n) => obj2("type", json_string("Method"), "name", json_string(n.as_str())),
    }
}

/// An instruction kind as JSON.
pub fn ir_instruction_kind_json(kind: &InstKind) -> (s: String)
    ensures
        s@ == inst_kind_json(*kind),
{
    match kind {
        InstKind::Literal(l) => obj2("kind", json_string("Literal"), "value", literal_to_json(l)),
        InstKind::Binary { op, lhs, rhs } => obj4(
            "kind",
            json_string("Binary"),
            "op",
            json_string(op.to_display_string().as_str()),
            "lhs",
            num_string(lhs.0 as u64),
            "rhs",
            num_string(rhs.0 as u64),
        ),
        InstKind::Call { func, args } => obj3(
            "kind",
            json_string("Call"),
            "function",
            func_ref_to_json(func),
            "args",
            value_list_to_json(args),
        ),
        InstKind::Record { type_path, fields } => {
            let tp = match type_path {
                Some(p) => json_string_array(&p.segments),
                None => to_owned_string("null"),
            };
            let ghost tv = tp@;
            let fj = fields_to_json(fields);
            let ghost fv = fj@;
            let r = obj3("kind", json_string("Record"), "type_path", tp, "fields", fj);
            assert(seq![("kind"@, quoted("Record"@)), ("type_path"@, tv), ("fields"@, fv)] =~= seq![
                ("kind"@, quoted("Record"@)),
                ("type_path"@, match type_path {
                    Some(p) => strs(views(p.segments@)),
                    None => "null"@,
                }),
                ("fields"@, array_text(fields@.map_values(|f: (String, crate::ir::ValueId)| field_json(f)))),
            ]);
            r
        },
        InstKind::Path(p) => obj2("kind", json_string("Path"), "segments", json_string_array(&p.segments)),
        InstKind::Phi { incomings } => obj2("kind", json_string("Phi"), "incomings", incomings_to_json(incomings)),
    }
}

fn effect_names_to_json(m: &Module, ids: &Vec<EffectId>) -> (s: String)
    requires
        forall|e: int| 0 <= e < ids@.len() ==> m.effects.valid_id(#[trigger] ids@[e]),
    ensures
        s@ == strs(effect_names(m.effects.names(), ids@)),
{
    let ghost names = m.effects.names();
    let mut out: Vec<String> = Vec::new();
    let mut i: usize = 0;
    while i < ids.len()
        invariant
            i <= ids.len(),
            names == m.effects.names(),
            forall|e: int| 0 <= e < ids@.len() ==> m.effects.valid_id(#[trigger] ids@[e]),
            views(out@) == effect_names(names, ids@.take(i as int)),
        decreases ids.len() - i,
    {
        let ghost o0 = views(out@);
        out.push(to_owned_string(m.effects.name(ids[i])));
        proof {
            assert(views(out@) =~= o0.push(names[ids@[i as int].0 as int]));
            assert(effect_names(names, ids@.take(i + 1)) =~= effect_names(names, ids@.take(i as int)).push(
                names[ids@[i as int].0 as int],
            ));
        }
        i = i + 1;
    }
    assert(ids@.take(ids.len() as int) =~= ids@);
    json_string_array(&out)
}

/// An instruction as JSON: id, type, effects by name and kind.
pub fn ir_instruction_json(m: &Module, inst: &Instruction) -> (s: String)
    requires
        inst.ids_within(m.types@.entries.len(), m.effects.names().len()),
    ensures
        s@ == inst_json(m.effects.names(), *inst),
{
    obj4(
        "id",
        num_string(inst.id.0 as u64),
        "type",
        num_string(inst.ty.0 as u64),
        "effects",
        effect_names_to_json(m, &inst.effects),
        "kind",
        ir_instruction_kind_json(&inst.kind),
    )
}

/// A block as JSON: id, instructions and terminator.
pub fn ir_block_json(m: &Module, b: &BasicBlock) -> (s: String)
    requires
        forall|k: int|
            0 <= k < b.instructions@.len() ==> (#[trigger] b.instructions@[k]).ids_within(
                m.types@.entries.len(),
                m.effects.names().len(),
            ),
    ensures
        s@ == block_json(m.effects.names(), *b),
{
    let ghost names = m.effects.names();
    let mut out: Vec<String> = Vec::new();
    let mut i: usize = 0;
    while i < b.instructions.len()
        invariant
            i <= b.instructions.len(),
            names == m.effects.names(),
            forall|k: int|
                0 <= k < b.instructions@.len() ==> (#[trigger] b.instructions@[k]).ids_within(
                    m.types@.entries.len(),
                    m.effects.names().len(),
                ),
            views(out@) == b.instructions@.take(i as int).map_values(|x: Instruction| inst_json(names, x)),
        decreases b.instructions.len() - i,
    {
        let ghost o0 = views(out@);
        out.push(ir_instruction_json(m, &b.instructions[i]));
        proof {
            let f = |x: Instruction| inst_json(names, x);
            assert(views(out@) =~= o0.push(f(b.instructions@[i as int])));
            assert(b.instructions@.take(i + 1).map_values(f) =~= b.instructions@.take(i as int).map_values(f).push(
                f(b.instructions@[i as int]),
            ));
        }
        i = i + 1;
    }
    assert(b.instructions@.take(b.instructions.len() as int) =~= b.instructions@);
    assert(b.instructions@.map_values(|x: Instruction| inst_json(names, x)) =~= b.instructions@.map_values(
        |i: Instruction| inst_json(names, i),
    ));
    obj3("id", num_string(b.id.0 as u64), "instructions", json_array(out), "terminator", terminator_to_json(&b.terminator))
}

fn params_to_json(ps: &Vec<Param>) -> (s: String)
    ensures
        s@ == array_text(ps@.map_values(|p: Param| param_json(p))),
{
    let mut out: Vec<String> = Vec::new();
    let mut i: usize = 0;
    while i < ps.len()
        invariant
            i <= ps.len(),
            views(out@) == ps@.take(i as int).map_values(|p: Param| param_json(p)),
        decreases ps.len() - i,
    {
        let ghost o0 = views(out@);
        let j = obj3(
            "name",
            json_string(ps[i].name.as_str()),
            "type",
            num_string(ps[i].ty.0 as u64),
            "value",
            num_string(ps[i].value.0 as u64),
        );
        out.push(j);
        proof {
            let f = |p: Param| param_json(p);
            assert(views(out@) =~= o0.push(f(ps@[i as int])));
            assert(ps@.take(i + 1).map_values(f) =~= ps@.take(i as int).map_values(f).push(f(ps@[i as int])));
        }
        i = i + 1;
    }
    assert(ps@.take(ps.len() as int) =~= ps@);
    json_array(out)
}

/// A function as JSON: name, return type, effects by name, parameters and
/// blocks.
pub fn ir_function_json(m: &Module, f: &Function) -> (s: String)
    requires
        f.ids_within(m.types@.entries.len(), m.effects.names().len()),
    ensures
        s@ == function_json(m.effects.names(), *f),
{
    let ghost names = m.effects.names();
    let mut blocks: Vec<String> = Vec::new();
    let mut i: usize = 0;
    while i < f.blocks.len()
        invariant
            i <= f.blocks.len(),
            names == m.effects.names(),
            f.ids_within(m.types@.entries.len(), m.effects.names().len()),
            views(blocks@) == f.blocks@.take(i as int).map_values(|b: BasicBlock| block_json(names, b)),
        decreases f.blocks.len() - i,
    {
        let ghost o0 = views(blocks@);
        proof {
            assert forall|k: int| 0 <= k < f.blocks@[i as int].instructions@.len() implies (#[trigger] f.blocks@[i as int].instructions@[k]).ids_within(
                m.types@.entries.len(),
                m.effects.names().len(),
            ) by {
                assert(f.blocks@[i as int].instructions@[k].ids_within(m.types@.entries.len(), m.effects.names().len()));
            }
        }
        blocks.push(ir_block_json(m, &f.blocks[i]));
        proof {
            let g = |b: BasicBlock| block_json(names, b);
            assert(views(blocks@) =~= o0.push(g(f.blocks@[i as int])));
            assert(f.blocks@.take(i + 1).map_values(g) =~= f.blocks@.take(i as int).map_values(g).push(g(f.blocks@[i as int])));
        }
        i = i + 1;
    }
    assert(f.blocks@.take(f.blocks.len() as int) =~= f.blocks@);
    obj5(
        "name",
        json_string(f.name.as_str()),
        "ret_type",
        num_string(f.ret_type.0 as u64),
        "effect_row",
        effect_names_to_json(m, &f.effect_row),
        "params",
        params_to_json(&f.params),
        "blocks",
        json_array(blocks),
    )
}

fn record_fields_to_json(fs: &Vec<crate::ir::RecordField>) -> (s: String)
    ensures
        s@ == array_text(fs@.map_values(|f: crate::ir::RecordField| f@).map_values(|f: SpecField| record_field_json(f))),
{
    let ghost fv = fs@.map_values(|f: crate::ir::RecordField| f@);
    let mut out: Vec<String> = Vec::new();
    let mut i: usize = 0;
    while i < fs.len()
        invariant
            i <= fs.len(),
            fv == fs@.map_values(|f: crate::ir::RecordField| f@),
            views(out@) == fv.take(i as int).map_values(|f: SpecField| record_field_json(f)),
        decreases fs.len() - i,
    {
        let ghost o0 = views(out@);
        let j = obj3(
            "name",
            json_string(fs[i].name.as_str()),
            "type",
            num_string(fs[i].ty.0 as u64),
            "offset",
            num_string(fs[i].offset as u64),
        );
        out.push(j);
        proof {
            let g = |f: SpecField| record_field_json(f);
            assert(views(out@) =~= o0.push(g(fv[i as int])));
            assert(fv.take(i + 1).map_values(g) =~= fv.take(i as int).map_values(g).push(g(fv[i as int])));
        }
        i = i + 1;
    }
    assert(fv.take(fs.len() as int) =~= fv);
    json_array(out)
}

/// A type as JSON.
pub fn ir_type_json(t: &Type) -> (s: String)
    ensures
        s@ == type_json(t@),
{
    match t {
        Type::Unit => obj1("kind", json_string("Unit")),
        Type::Int => obj1("kind", json_string("Int")),
        Type::Float => obj1("kind", json_string("Float")),
        Type::Bool => obj1("kind", json_string("Bool")),
        Type::String => obj1("kind", json_string("String")),
        Type::Named(n) => obj2("kind", json_string("Named"), "name", json_string(n.as_str())),
        Type::Record(r) => {
            let name = match &r.name {
                Some(n) => json_string(n.as_str()),
                None => to_owned_string("null"),
            };
            let ghost nv = name@;
            let fj = record_fields_to_json(&r.fields);
            let ghost fv = fj@;
            let out = obj5(
                "kind",
                json_string("Record"),
                "name",
                name,
                "fields",
                fj,
                "size",
                num_string(r.size as u64),
                "align",
                num_string(r.align as u64),
            );
            let ghost rv = r@;
            assert(seq![
                ("kind"@, quoted("Record"@)),
                ("name"@, nv),
                ("fields"@, fv),
                ("size"@, num(r.size as nat)),
                ("align"@, num(r.align as nat)),
            ] =~= seq![
                ("kind"@, quoted("Record"@)),
                ("name"@, match rv.name {
                    Some(n) => quoted(n),
                    None => "null"@,
                }),
                ("fields"@, array_text(rv.fields.map_values(|f: SpecField| record_field_json(f)))),
                ("size"@, num(rv.size as nat)),
                ("align"@, num(rv.align as nat)),
            ]);
            out
        },
        Type::Unknown => obj1("kind", json_string("Unknown")),
    }
}

fn types_to_json(es: &Vec<Type>, Ghost(ev): Ghost<Seq<SpecType>>) -> (s: String)
    requires
        es@.map_values(|t: Type| t@) == ev,
    ensures
        s@ == array_text(Seq::new(ev.len(), |i: int| object_text(seq![("id"@, num(i as nat)), ("type"@, type_json(ev[i]))]))),
{
    let mut types: Vec<String> = Vec::new();
    let mut k: usize = 0;
    while k < es.len()
        invariant
            k <= es.len(),
            es@.map_values(|t: Type| t@) == ev,
            views(types@) == Seq::new(k as nat, |i: int| object_text(seq![("id"@, num(i as nat)), ("type"@, type_json(ev[i]))])),
        decreases es.len() - k,
    {
        let ghost o0 = views(types@);
        let ns = num_string(k as u64);
        let tj = ir_type_json(&es[k]);
        let ghost nv = ns@;
        let ghost tv = tj@;
        let j = obj2("id", ns, "type", tj);
        let ghost jv = j@;
        types.push(j);
        proof {
            assert(es@[k as int]@ == ev[k as int]);
            assert(seq![("id"@, nv), ("type"@, tv)] =~= seq![("id"@, num(k as nat)), ("type"@, type_json(ev[k as int]))]);
            assert(views(types@) =~= o0.push(jv));
            assert(views(types@) =~= Seq::new((k + 1) as nat, |i: int| object_text(seq![("id"@, num(i as nat)), ("type"@, type_json(ev[i]))])));
        }
        k = k + 1;
    }
    json_array(types)
}

fn effects_to_json(m: &Module) -> (s: String)
    ensures
        s@ == array_text(Seq::new(m.effects.names().len(), |i: int| object_text(seq![("id"@, num(i as nat)), ("name"@, quoted(m.effects.names()[i]))]))),
{
    let ghost names = m.effects.names();
    let mut effects: Vec<String> = Vec::new();
    let mut e: usize = 0;
    while e < m.effects.len()
        invariant
            e <= names.len(),
            names == m.effects.names(),
            views(effects@) == Seq::new(e as nat, |i: int| object_text(seq![("id"@, num(i as nat)), ("name"@, quoted(names[i]))])),
        decreases names.len() - e,
    {
        let ghost o0 = views(effects@);
        let ns = num_string(e as u64);
        let nm = json_string(m.effects.name(EffectId(e)));
        let ghost nv = ns@;
        let ghost mv = nm@;
        let j = obj2("id", ns, "name", nm);
        let ghost jv = j@;
        effects.push(j);
        proof {
            assert(seq![("id"@, nv), ("name"@, mv)] =~= seq![("id"@, num(e as nat)), ("name"@, quoted(names[e as int]))]);
            assert(views(effects@) =~= o0.push(jv));
            assert(views(effects@) =~= Seq::new((e + 1) as nat, |i: int| object_text(seq![("id"@, num(i as nat)), ("name"@, quoted(names[i]))])));
        }
        e = e + 1;
    }
    json_array(effects)
}

/// The IR of a module as one JSON object.
pub fn ir_module_to_json(m: &Module) -> (s: String)
    requires
        m.wf(),
    ensures
        s@ == module_json(*m),
{
    let ghost names = m.effects.names();
    let mut functions: Vec<String> = Vec::new();
    let mut i: usize = 0;
    while i < m.functions.len()
        invariant
            i <= m.functions.len(),
            m.wf(),
            names == m.effects.names(),
            views(functions@) == m.functions@.take(i as int).map_values(|f: Function| function_json(names, f)),
        decreases m.functions.len() - i,
    {
        let ghost o0 = views(functions@);
        proof {
            assert(m.functions@[i as int].ids_within(m.types@.entries.len(), m.effects@.len()));
        }
        functions.push(ir_function_json(m, &m.functions[i]));
        proof {
            let g = |f: Function| function_json(names, f);
            assert(views(functions@) =~= o0.push(g(m.functions@[i as int])));
            assert(m.functions@.take(i + 1).map_values(g) =~= m.functions@.take(i as int).map_values(g).push(
                g(m.functions@[i as int]),
            ));
        }
        i = i + 1;
    }
    assert(m.functions@.take(m.functions.len() as int) =~= m.functions@);
    let types = types_to_json(m.types.entries(), Ghost(m.types@.entries));
    let effects = effects_to_json(m);
    let s = obj4(
        "name",
        json_string_array(&m.name),
        "functions",
        json_array(functions),
        "types",
        types,
        "effects",
        effects,
    );
    assert(m.functions@.map_values(|g: Function| function_json(names, g)) =~= m.functions@.map_values(
        |f: Function| function_json(names, f),
    ));
    s
}

} // verus!
