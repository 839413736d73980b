//! Lowering of the high-level form into SSA: each function becomes a list of
//! basic blocks whose instructions carry interned types and effects;
//! conditionals become a branch, two arms and a phi in a merge block.
use vstd::prelude::*;

use crate::ir::{
    intern_expr_spec, intern_spec, type_eq, BasicBlock, BlockId, EffectId, EffectTable, FuncRef, Function, InstKind,
    Instruction, Module, Param, SpecType, TableView, Terminator, Type, TypeId, TypeTable, ValueId,
};
use crate::lower::{
    func_ref_v, hexpr_v, hexprs_v, hstmt_v, hstmts_v, HBlock, HExpr, HExprV, HFuncRef, HFuncRefV,
    HFunction, HItem, HModule, HParam, HStmt, HStmtV, HTypeAlias,
};
use crate::syntax::ast::{BinaryOp, Literal, Path, TypeExpr};
use crate::syntax::model::{literal_v, LiteralV};
use crate::text::{copy_string, str_eq, string_eq_str, views};

verus! {

// ---------------------------------------------------------------------------
// What the lowering keeps of its input
// ---------------------------------------------------------------------------

/// `f` is the lowering of `h` from some type table and some signatures of
/// the functions before it.
pub open spec fn lowered_from(f: Function, h: HFunction) -> bool {
    exists|t: TableView, sigs: Seq<SigV>| lowers_to(f, t, sigs, h)
}

/// The functions of a high-level module, in order.
pub open spec fn hir_functions(items: Seq<HItem>) -> Seq<HFunction>
    decreases items.len(),
{
    if items.len() == 0 {
        Seq::empty()
    } else {
        let rest = hir_functions(items.drop_last());
        match items.last() {
            HItem::Function(f) => rest.push(f),
            HItem::TypeAlias(_) => rest,
        }
    }
}

/// The name of a lowered function and the names of its parameters.
pub open spec fn ir_shape(f: Function) -> (Seq<char>, Seq<Seq<char>>) {
    (f.name@, f.params@.map_values(|p: Param| p.name@))
}

/// The name of a high-level function and the names of its parameters.
pub open spec fn hir_shape(f: HFunction) -> (Seq<char>, Seq<Seq<char>>) {
    (f.name@, f.params@.map_values(|p: crate::lower::HParam| p.name@))
}

// ---------------------------------------------------------------------------
// The lowering of one function, as mathematical values
// ---------------------------------------------------------------------------

pub enum KindV {
    Literal(LiteralV),
    Binary(BinaryOp, ValueId, ValueId),
    Call(HFuncRefV, Seq<ValueId>),
    Record(Option<Seq<Seq<char>>>, Seq<(Seq<char>, ValueId)>),
    Path(Seq<Seq<char>>),
    Phi(Seq<(BlockId, ValueId)>),
}

pub struct InstV {
    pub id: ValueId,
    pub ty: TypeId,
    pub effects: Seq<EffectId>,
    pub kind: KindV,
}

pub struct BlockV {
    pub id: BlockId,
    pub insts: Seq<InstV>,
    pub term: Terminator,
}

/// The state of lowering one function: value and block counters, the
/// block being filled and whether it has ended, the finished blocks, the
/// scopes of names, the type of each value, and the result type so far.
pub struct LowerState {
    pub next_value: u32,
    pub next_block: u32,
    pub current_id: BlockId,
    pub current: Seq<InstV>,
    pub terminator: Option<Terminator>,
    pub blocks: Seq<BlockV>,
    pub scopes: Seq<Seq<(Seq<char>, ValueId)>>,
    pub value_types: Seq<TypeId>,
    pub ret_type: TypeId,
    pub unknown: TypeId,
}

/// A lowering state with the type table it interns into.
pub struct Lw {
    pub s: LowerState,
    pub t: TableView,
}

/// A function seen so far: its name, result type and effects.
pub struct SigV {
    pub name: Seq<char>,
    pub ret: TypeId,
    pub effects: Seq<EffectId>,
}

pub open spec fn func_ref_view(f: FuncRef) -> HFuncRefV {
    match f {
        FuncRef::Function(p) => HFuncRefV::Function(views(p.segments@)),
        FuncRef::Method(n) => HFuncRefV::Method(n@),
    }
}

pub open spec fn kind_v(k: InstKind) -> KindV {
    match k {
        InstKind::Literal(l) => KindV::Literal(literal_v(l)),
        InstKind::Binary { op, lhs, rhs } => KindV::Binary(op, lhs, rhs),
        InstKind::Call { func, args } => KindV::Call(func_ref_view(func), args@),
        InstKind::Record { type_path, fields } => KindV::Record(
            match type_path {
                Some(p) => Some(views(p.segments@)),
                None => None,
            },
            fields@.map_values(|f: (String, ValueId)| (f.0@, f.1)),
        ),
        InstKind::Path(p) => KindV::Path(views(p.segments@)),
        InstKind::Phi { incomings } => KindV::Phi(incomings@),
    }
}

pub open spec fn inst_v(i: Instruction) -> InstV {
    InstV { id: i.id, ty: i.ty, effects: i.effects@, kind: kind_v(i.kind) }
}

pub open spec fn insts_v(is: Seq<Instruction>) -> Seq<InstV> {
    is.map_values(|i: Instruction| inst_v(i))
}

pub open spec fn block_v(b: BasicBlock) -> BlockV {
    BlockV { id: b.id, insts: insts_v(b.instructions@), term: b.terminator }
}

pub open spec fn blocks_v(bs: Seq<BasicBlock>) -> Seq<BlockV> {
    bs.map_values(|b: BasicBlock| block_v(b))
}

pub open spec fn literal_type_v(l: LiteralV) -> SpecType {
    match l {
        LiteralV::Unit => SpecType::Unit,
        LiteralV::Int(_) => SpecType::Int,
        LiteralV::Float(_) => SpecType::Float,
        LiteralV::Bool(_) => SpecType::Bool,
        LiteralV::String(_) => SpecType::String,
    }
}

pub open spec fn alloc_v(s: LowerState, ty: TypeId) -> (LowerState, ValueId) {
    (
        LowerState {
            next_value: if s.next_value < u32::MAX {
                (s.next_value + 1) as u32
            } else {
                s.next_value
            },
            value_types: s.value_types.push(ty),
            ..s
        },
        ValueId(s.next_value),
    )
}

/// Emitting an instruction: a new value of type `ty`; the instruction is
/// kept unless the current block has ended.
pub open spec fn emit_s(s: LowerState, kind: KindV, ty: TypeId, effects: Seq<EffectId>) -> (LowerState, ValueId) {
    let (s1, id) = alloc_v(s, ty);
    let s2 = if s1.terminator is None {
        LowerState { current: s1.current.push(InstV { id, ty, effects, kind }), ..s1 }
    } else {
        s1
    };
    (s2, id)
}

pub open spec fn emit_v(w: Lw, kind: KindV, ty: TypeId, effects: Seq<EffectId>) -> (Lw, (ValueId, TypeId)) {
    let (s2, id) = emit_s(w.s, kind, ty, effects);
    (Lw { s: s2, t: w.t }, (id, ty))
}

pub open spec fn emit_lit_v(w: Lw, l: LiteralV) -> (Lw, (ValueId, TypeId)) {
    let (t2, ty) = intern_spec(w.t, literal_type_v(l));
    emit_v(Lw { s: w.s, t: t2 }, KindV::Literal(l), ty, Seq::empty())
}

pub open spec fn scope_find(scope: Seq<(Seq<char>, ValueId)>, name: Seq<char>) -> Option<ValueId>
    decreases scope.len(),
{
    if scope.len() == 0 {
        None
    } else if scope.last().0 == name {
        Some(scope.last().1)
    } else {
        scope_find(scope.drop_last(), name)
    }
}

/// The value a name is bound to, innermost scope and latest binding first.
pub open spec fn lookup_v(scopes: Seq<Seq<(Seq<char>, ValueId)>>, name: Seq<char>) -> Option<ValueId>
    decreases scopes.len(),
{
    if scopes.len() == 0 {
        None
    } else {
        match scope_find(scopes.last(), name) {
            Some(v) => Some(v),
            None => lookup_v(scopes.drop_last(), name),
        }
    }
}

pub open spec fn value_type_v(s: LowerState, id: ValueId) -> TypeId {
    if (id.0 as int) < s.value_types.len() {
        s.value_types[id.0 as int]
    } else {
        s.unknown
    }
}

pub open spec fn merge_ret_v(s: LowerState, t: TableView, ty: TypeId) -> LowerState {
    if s.ret_type.0 == s.unknown.0 {
        LowerState { ret_type: ty, ..s }
    } else if ty.0 == s.unknown.0 {
        s
    } else if t.entries[s.ret_type.0 as int] != t.entries[ty.0 as int] {
        LowerState { ret_type: s.unknown, ..s }
    } else {
        s
    }
}

pub open spec fn join_v(s: LowerState, t: TableView, a: TypeId, b: TypeId) -> TypeId {
    if a.0 == b.0 {
        a
    } else if a.0 == s.unknown.0 {
        b
    } else if b.0 == s.unknown.0 {
        a
    } else if t.entries[a.0 as int] == t.entries[b.0 as int] {
        a
    } else {
        s.unknown
    }
}

/// The last signature recorded under `name`.
pub open spec fn sig_find(sigs: Seq<SigV>, name: Seq<char>) -> Option<int>
    decreases sigs.len(),
{
    if sigs.len() == 0 {
        None
    } else if sigs.last().name == name {
        Some(sigs.len() - 1)
    } else {
        sig_find(sigs.drop_last(), name)
    }
}

pub open spec fn called_sig(sigs: Seq<SigV>, f: HFuncRefV) -> Option<int> {
    match f {
        HFuncRefV::Function(p) => if p.len() == 1 {
            sig_find(sigs, p[0])
        } else {
            None
        },
        HFuncRefV::Method(_) => None,
    }
}

pub open spec fn effects_for(sigs: Seq<SigV>, f: HFuncRefV) -> Seq<EffectId> {
    match called_sig(sigs, f) {
        Some(i) => sigs[i].effects,
        None => Seq::empty(),
    }
}

pub open spec fn ret_for(s: LowerState, sigs: Seq<SigV>, f: HFuncRefV) -> TypeId {
    match called_sig(sigs, f) {
        Some(i) => sigs[i].ret,
        None => s.unknown,
    }
}

pub open spec fn alloc_block_v(s: LowerState) -> (LowerState, BlockId) {
    (
        LowerState {
            next_block: if s.next_block < u32::MAX {
                (s.next_block + 1) as u32
            } else {
                s.next_block
            },
            ..s
        },
        BlockId(s.next_block),
    )
}

/// Closing the current block (ending it with a return of nothing if no
/// terminator was set) and continuing in a fresh block `id`.
pub open spec fn switch_v(s: LowerState, id: BlockId) -> LowerState {
    LowerState {
        blocks: s.blocks.push(
            BlockV {
                id: s.current_id,
                insts: s.current,
                term: match s.terminator {
                    Some(t) => t,
                    None => Terminator::Return(None),
                },
            },
        ),
        current_id: id,
        current: Seq::empty(),
        terminator: None,
        ..s
    }
}

pub open spec fn push_scope_v(s: LowerState) -> LowerState {
    LowerState { scopes: s.scopes.push(Seq::empty()), ..s }
}

pub open spec fn pop_scope_v(s: LowerState) -> LowerState {
    if s.scopes.len() == 0 {
        s
    } else {
        LowerState { scopes: s.scopes.drop_last(), ..s }
    }
}

pub open spec fn define_v(s: LowerState, name: Seq<char>, v: ValueId) -> LowerState {
    if s.scopes.len() == 0 {
        s
    } else {
        LowerState { scopes: s.scopes.update(s.scopes.len() - 1, s.scopes.last().push((name, v))), ..s }
    }
}

pub open spec fn with_term(s: LowerState, t: Terminator) -> LowerState {
    LowerState { terminator: Some(t), ..s }
}

pub open spec fn ret_unit_v(w: Lw) -> Lw {
    if w.s.terminator is Some {
        w
    } else {
        let (t2, unit) = intern_spec(w.t, SpecType::Unit);
        Lw { s: with_term(merge_ret_v(w.s, t2, unit), Terminator::Return(None)), t: t2 }
    }
}

pub open spec fn ret_value_v(sigs: Seq<SigV>, w: Lw, e: HExprV) -> Lw
    decreases e, 4nat,
{
    if w.s.terminator is Some {
        w
    } else {
        let (w1, (v, ty)) = l_expr(sigs, w, e);
        Lw { s: with_term(merge_ret_v(w1.s, w1.t, ty), Terminator::Return(Some(v))), t: w1.t }
    }
}

/// Lowering an expression: the state afterwards and the value and type of
/// the expression.
pub open spec fn l_expr(sigs: Seq<SigV>, w: Lw, e: HExprV) -> (Lw, (ValueId, TypeId))
    decreases e, 3nat,
{
    match e {
        HExprV::Literal(l) => emit_lit_v(w, l),
        HExprV::Path(segs) => if segs.len() == 1 && lookup_v(w.s.scopes, segs[0]) is Some {
            let id = lookup_v(w.s.scopes, segs[0])->0;
            (w, (id, value_type_v(w.s, id)))
        } else {
            emit_v(w, KindV::Path(segs), w.s.unknown, Seq::empty())
        },
        HExprV::Call { func, args } => if func == HFuncRefV::Method("if"@) && args.len() >= 2 {
            l_if(sigs, w, args)
        } else {
            let (w1, ids) = l_args(sigs, w, args);
            emit_v(w1, KindV::Call(func, ids), ret_for(w1.s, sigs, func), effects_for(sigs, func))
        },
        HExprV::Binary { lhs, op, rhs } => {
            let (w1, (l, lt)) = l_expr(sigs, w, *lhs);
            let (w2, (r, rt)) = l_expr(sigs, w1, *rhs);
            let ty = if lt.0 != w2.s.unknown.0 && lt.0 == rt.0 {
                lt
            } else {
                w2.s.unknown
            };
            emit_v(w2, KindV::Binary(op, l, r), ty, Seq::empty())
        },
        HExprV::Block(stmts) => l_block(sigs, w, stmts),
    }
}

pub open spec fn l_args(sigs: Seq<SigV>, w: Lw, args: Seq<HExprV>) -> (Lw, Seq<ValueId>)
    decreases args, 0nat,
{
    if args.len() == 0 {
        (w, Seq::empty())
    } else {
        let (w1, ids) = l_args(sigs, w, args.drop_last());
        let (w2, (v, _)) = l_expr(sigs, w1, args.last());
        (w2, ids.push(v))
    }
}

pub open spec fn jump_unless_ended(s: LowerState, target: BlockId) -> LowerState {
    if s.terminator is None {
        with_term(s, Terminator::Jump(target))
    } else {
        s
    }
}

/// A conditional: a branch on the condition to two fresh blocks, each arm
/// in its own scope jumping to a merge block, and a phi of the two values
/// in the merge block.
pub open spec fn l_if(sigs: Seq<SigV>, w: Lw, args: Seq<HExprV>) -> (Lw, (ValueId, TypeId))
    decreases args, 1nat,
{
    if args.len() < 2 {
        (w, (ValueId(0), w.s.unknown))
    } else {
        let (w1, (cond, _)) = l_expr(sigs, w, args[0]);
        let (s2, then_id) = alloc_block_v(w1.s);
        let (s3, else_id) = alloc_block_v(s2);
        let (s4, merge_id) = alloc_block_v(s3);
        let s5 = with_term(s4, Terminator::Branch { condition: cond, then_block: then_id, else_block: else_id });
        let s6 = push_scope_v(switch_v(s5, then_id));
        let (w7, (tv, tt)) = l_expr(sigs, Lw { s: s6, t: w1.t }, args[1]);
        let s8 = switch_v(jump_unless_ended(pop_scope_v(w7.s), merge_id), else_id);
        let (w9, (ev, et)) = if args.len() > 2 {
            let (wa, r) = l_expr(sigs, Lw { s: push_scope_v(s8), t: w7.t }, args[2]);
            (Lw { s: pop_scope_v(wa.s), t: wa.t }, r)
        } else {
            emit_lit_v(Lw { s: s8, t: w7.t }, LiteralV::Unit)
        };
        let s10 = switch_v(jump_unless_ended(w9.s, merge_id), merge_id);
        let ty = join_v(s10, w9.t, tt, et);
        emit_v(Lw { s: s10, t: w9.t }, KindV::Phi(seq![(then_id, tv), (else_id, ev)]), ty, Seq::empty())
    }
}

/// Where lowering a block's statements stands: the state, the value of the
/// last expression statement, and whether the block has ended.
pub struct BlockAcc {
    pub w: Lw,
    pub result: Option<(ValueId, TypeId)>,
    pub done: bool,
}

/// The statements of a block expression, in order until one ends the block.
pub open spec fn l_bstmts(sigs: Seq<SigV>, acc: BlockAcc, stmts: Seq<HStmtV>) -> BlockAcc
    decreases stmts, 0nat,
{
    if stmts.len() == 0 {
        acc
    } else {
        let a = l_bstmts(sigs, acc, stmts.drop_last());
        if a.done {
            a
        } else {
            let (w1, res) = match stmts.last() {
                HStmtV::Let { name, value } => {
                    let (w2, (v, _)) = l_expr(sigs, a.w, value);
                    (Lw { s: define_v(w2.s, name, v), t: w2.t }, a.result)
                },
                HStmtV::Expr(e) => {
                    let (w2, r) = l_expr(sigs, a.w, e);
                    (w2, Some(r))
                },
                HStmtV::Return(Some(e)) => (ret_value_v(sigs, a.w, e), a.result),
                HStmtV::Return(None) => (ret_unit_v(a.w), a.result),
            };
            BlockAcc { w: w1, result: res, done: w1.s.terminator is Some }
        }
    }
}

/// A block expression: its statements in a scope of their own; its value
/// is that of its last expression statement, else unit.
pub open spec fn l_block(sigs: Seq<SigV>, w: Lw, stmts: Seq<HStmtV>) -> (Lw, (ValueId, TypeId))
    decreases stmts, 2nat,
{
    let a = l_bstmts(sigs, BlockAcc { w: Lw { s: push_scope_v(w.s), t: w.t }, result: None, done: false }, stmts);
    let w1 = Lw { s: pop_scope_v(a.w.s), t: a.w.t };
    match a.result {
        Some(r) => (w1, r),
        None => emit_lit_v(w1, LiteralV::Unit),
    }
}

/// A statement of a function body other than its final expression.
pub open spec fn l_stmt(sigs: Seq<SigV>, w: Lw, st: HStmtV) -> Lw {
    match st {
        HStmtV::Let { name, value } => {
            let (w1, (v, _)) = l_expr(sigs, w, value);
            Lw { s: define_v(w1.s, name, v), t: w1.t }
        },
        HStmtV::Expr(e) => l_expr(sigs, w, e).0,
        HStmtV::Return(Some(e)) => ret_value_v(sigs, w, e),
        HStmtV::Return(None) => ret_unit_v(w),
    }
}

/// The statements of a function body of `n` statements, in order until
/// the current block ends; an expression in last place is returned.
pub open spec fn body_acc(sigs: Seq<SigV>, w: Lw, stmts: Seq<HStmtV>, n: int) -> (Lw, bool)
    decreases stmts.len(),
{
    if stmts.len() == 0 {
        (w, false)
    } else {
        let (w1, done) = body_acc(sigs, w, stmts.drop_last(), n);
        if done || w1.s.terminator is Some {
            (w1, true)
        } else {
            match stmts.last() {
                HStmtV::Expr(e) => if stmts.len() == n {
                    (ret_value_v(sigs, w1, e), true)
                } else {
                    (l_stmt(sigs, w1, stmts.last()), false)
                },
                _ => (l_stmt(sigs, w1, stmts.last()), false),
            }
        }
    }
}

/// A function body, in a scope of its own.
pub open spec fn l_body(sigs: Seq<SigV>, w: Lw, stmts: Seq<HStmtV>) -> Lw {
    let (w1, _) = body_acc(sigs, Lw { s: push_scope_v(w.s), t: w.t }, stmts, stmts.len() as int);
    Lw { s: pop_scope_v(w1.s), t: w1.t }
}

/// Ending a function: a block that no statement ended returns unit; the
/// last block is closed.
pub open spec fn close_v(w: Lw) -> Lw {
    let w1 = if w.s.terminator is None {
        let (w2, (unit, unit_ty)) = emit_lit_v(w, LiteralV::Unit);
        Lw { s: merge_ret_v(with_term(w2.s, Terminator::Return(Some(unit))), w2.t, unit_ty), t: w2.t }
    } else {
        w
    };
    Lw { s: switch_v(w1.s, BlockId(0)), t: w1.t }
}

/// Binding a parameter: its type is interned and a fresh value stands for it.
pub open spec fn param_v(w: Lw, name: Seq<char>, ty: TypeExpr) -> Lw {
    let (t1, id) = intern_expr_spec(w.t, ty);
    let (s1, v) = alloc_v(w.s, id);
    Lw { s: define_v(s1, name, v), t: t1 }
}

pub open spec fn params_v(w: Lw, ps: Seq<HParam>) -> Lw
    decreases ps.len(),
{
    if ps.len() == 0 {
        w
    } else {
        param_v(params_v(w, ps.drop_last()), ps.last().name@, ps.last().ty)
    }
}

/// The state a function starts in: block 0 open, one empty scope.
pub open spec fn start_state(ret_type: TypeId, unknown: TypeId) -> LowerState {
    LowerState {
        next_value: 0,
        next_block: 1,
        current_id: BlockId(0),
        current: Seq::empty(),
        terminator: None,
        blocks: Seq::empty(),
        scopes: seq![Seq::empty()],
        value_types: Seq::empty(),
        ret_type,
        unknown,
    }
}

/// `f` is the lowering of `h` from type table `t0`, with the signatures
/// `sigs0` of the functions before it: the declared result type is
/// interned, the function's own signature is added, the parameters are
/// bound, the body is lowered and the function closed; `f` has the blocks
/// and result type this yields.
pub open spec fn lowers_to(f: Function, t0: TableView, sigs0: Seq<SigV>, h: HFunction) -> bool {
    let (t1, declared) = match h.return_type {
        Some(te) => {
            let (ta, id) = intern_expr_spec(t0, te);
            (ta, Some(id))
        },
        None => (t0, None),
    };
    let ret = match declared {
        Some(id) => id,
        None => t1.unknown,
    };
    let sigs1 = sigs0.push(SigV { name: h.name@, ret, effects: f.effect_row@ });
    let start = Lw { s: start_state(ret, t1.unknown), t: t1 };
    let w = close_v(l_body(sigs1, params_v(start, h.params@), hstmts_v(h.body.stmts@)));
    &&& blocks_v(f.blocks@) == w.s.blocks
    &&& f.ret_type == w.s.ret_type
}

// ---------------------------------------------------------------------------
// Signatures of the functions lowered so far
// ---------------------------------------------------------------------------

struct Signature {
    name: String,
    ret_type: TypeId,
    effects: Vec<EffectId>,
}

spec fn effects_within(es: Seq<EffectId>, ne: nat) -> bool {
    forall|e: int| 0 <= e < es.len() ==> (#[trigger] es[e]).0 < ne
}

spec fn sigs_within(sigs: Seq<Signature>, nt: nat, ne: nat) -> bool {
    forall|s: int|
        0 <= s < sigs.len() ==> (#[trigger] sigs[s]).ret_type.0 < nt && effects_within(
            sigs[s].effects@,
            ne,
        )
}

spec fn insts_within(insts: Seq<Instruction>, nt: nat, ne: nat) -> bool {
    forall|k: int| 0 <= k < insts.len() ==> (#[trigger] insts[k]).ids_within(nt, ne)
}

spec fn blocks_within(blocks: Seq<BasicBlock>, nt: nat, ne: nat) -> bool {
    forall|b: int| 0 <= b < blocks.len() ==> insts_within((#[trigger] blocks[b]).instructions@, nt, ne)
}

spec fn scopes_v(sc: Seq<Vec<(String, ValueId)>>) -> Seq<Seq<(Seq<char>, ValueId)>> {
    sc.map_values(|v: Vec<(String, ValueId)>| v@.map_values(|p: (String, ValueId)| (p.0@, p.1)))
}

spec fn sigs_v(sigs: Seq<Signature>) -> Seq<SigV> {
    sigs.map_values(|g: Signature| SigV { name: g.name@, ret: g.ret_type, effects: g.effects@ })
}

proof fn lemma_hexprs_index(s: Seq<HExpr>)
    ensures
        hexprs_v(s).len() == s.len(),
        forall|i: int| 0 <= i < s.len() ==> hexprs_v(s)[i] == hexpr_v(#[trigger] s[i]),
    decreases s.len(),
{
    if s.len() > 0 {
        lemma_hexprs_index(s.drop_last());
        assert forall|i: int| 0 <= i < s.len() implies hexprs_v(s)[i] == hexpr_v(#[trigger] s[i]) by {
            if i < s.len() - 1 {
                assert(s.drop_last()[i] == s[i]);
            }
        }
    }
}

proof fn lemma_hstmts_index(s: Seq<HStmt>)
    ensures
        hstmts_v(s).len() == s.len(),
        forall|i: int| 0 <= i < s.len() ==> hstmts_v(s)[i] == hstmt_v(#[trigger] s[i]),
    decreases s.len(),
{
    if s.len() > 0 {
        lemma_hstmts_index(s.drop_last());
        assert forall|i: int| 0 <= i < s.len() implies hstmts_v(s)[i] == hstmt_v(#[trigger] s[i]) by {
            if i < s.len() - 1 {
                assert(s.drop_last()[i] == s[i]);
            }
        }
    }
}

/// Once a block has ended, later statements leave it as it is.
proof fn lemma_bstmts_done(sigs: Seq<SigV>, acc: BlockAcc, ss: Seq<HStmtV>, i: int, k: int)
    requires
        0 <= i <= k <= ss.len(),
        l_bstmts(sigs, acc, ss.take(i)).done,
    ensures
        l_bstmts(sigs, acc, ss.take(k)) == l_bstmts(sigs, acc, ss.take(i)),
    decreases k - i,
{
    if k > i {
        lemma_bstmts_done(sigs, acc, ss, i, k - 1);
        assert(ss.take(k).drop_last() =~= ss.take(k - 1));
    }
}

/// Once a body's block has ended, later statements leave it as it is.
proof fn lemma_body_done(sigs: Seq<SigV>, w: Lw, ss: Seq<HStmtV>, n: int, i: int, k: int)
    requires
        0 <= i <= k <= ss.len(),
        body_acc(sigs, w, ss.take(i), n).1,
    ensures
        body_acc(sigs, w, ss.take(k), n) == body_acc(sigs, w, ss.take(i), n),
    decreases k - i,
{
    if k > i {
        lemma_body_done(sigs, w, ss, n, i, k - 1);
        assert(ss.take(k).drop_last() =~= ss.take(k - 1));
    }
}

fn copy_effects(es: &Vec<EffectId>) -> (r: Vec<EffectId>)
    ensures
        r@ == es@,
{
    let mut r: Vec<EffectId> = Vec::new();
    let mut i: usize = 0;
    while i < es.len()
        invariant
            i <= es.len(),
            r@ == es@.take(i as int),
        decreases es.len() - i,
    {
        r.push(es[i]);
        assert(es@.take(i + 1) =~= es@.take(i as int).push(es@[i as int]));
        i = i + 1;
    }
    assert(es@.take(es.len() as int) =~= es@);
    r
}

/// The last signature recorded for `name`.
fn find_signature(sigs: &Vec<Signature>, name: &str) -> (r: Option<usize>)
    ensures
        r matches Some(i) ==> i < sigs@.len() && sig_find(sigs_v(sigs@), name@) == Some(i as int),
        r is None ==> sig_find(sigs_v(sigs@), name@) is None,
{
    let ghost sv = sigs_v(sigs@);
    let mut i = sigs.len();
    assert(sv.take(i as int) =~= sv);
    while i > 0
        invariant
            i <= sigs.len(),
            sv == sigs_v(sigs@),
            sig_find(sv, name@) == sig_find(sv.take(i as int), name@),
        decreases i,
    {
        assert(sv.take(i as int).last() == sv[i - 1]);
        if string_eq_str(&sigs[i - 1].name, name) {
            return Some(i - 1);
        }
        assert(sv.take(i as int).drop_last() =~= sv.take(i - 1));
        i = i - 1;
    }
    None
}

fn copy_path(p: &Path) -> (r: Path)
    ensures
        views(r.segments@) == views(p.segments@),
{
    let mut segs: Vec<String> = Vec::new();
    let mut i: usize = 0;
    while i < p.segments.len()
        invariant
            i <= p.segments.len(),
            views(segs@) == views(p.segments@.take(i as int)),
        decreases p.segments.len() - i,
    {
        let ghost s0 = segs@;
        segs.push(copy_string(&p.segments[i]));
        assert(views(segs@) =~= views(s0).push(p.segments@[i as int]@));
        assert(p.segments@.take(i + 1) =~= p.segments@.take(i as int).push(p.segments@[i as int]));
        assert(views(p.segments@.take(i + 1)) =~= views(p.segments@.take(i as int)).push(
            p.segments@[i as int]@,
        ));
        i = i + 1;
    }
    assert(p.segments@.take(p.segments.len() as int) =~= p.segments@);
    Path { segments: segs }
}

fn copy_literal(l: &Literal) -> (r: Literal)
    ensures
        crate::ir::literal_type(r) == crate::ir::literal_type(*l),
        literal_v(r) == literal_v(*l),
{
    match l {
        Literal::Int(v) => Literal::Int(*v),
        Literal::Float(t) => Literal::Float(copy_string(t)),
        Literal::Bool(b) => Literal::Bool(*b),
        Literal::String(s) => Literal::String(copy_string(s)),
        Literal::Unit => Literal::Unit,
    }
}

/// Interns a type that is not a record; the table only grows.
fn intern_plain(types: &mut TypeTable, ty: Type) -> (id: TypeId)
    requires
        old(types).wf(),
        !(ty@ is Record),
    ensures
        final(types).wf(),
        final(types).valid_id(id),
        old(types)@.entries.len() <= final(types)@.entries.len(),
        (final(types)@, id) == intern_spec(old(types)@, ty@),
{
    let id = types.intern(ty);
    proof {
        let t = old(types)@;
        if exists|i: int| 0 <= i < t.entries.len() && t.entries[i] == ty@ {
            let i = choose|i: int| 0 <= i < t.entries.len() && t.entries[i] == ty@;
            assert(0 <= i < t.entries.len());
        }
    }
    id
}

// ---------------------------------------------------------------------------
// Lowering one function
// ---------------------------------------------------------------------------

struct FnLower {
    name: String,
    params: Vec<Param>,
    next_value: u32,
    next_block: u32,
    current_id: BlockId,
    current: Vec<Instruction>,
    terminator: Option<Terminator>,
    blocks: Vec<BasicBlock>,
    scopes: Vec<Vec<(String, ValueId)>>,
    value_types: Vec<TypeId>,
    ret_type: TypeId,
    effect_row: Vec<EffectId>,
    unknown: TypeId,
    n_effects: Ghost<nat>,
}

impl FnLower {
    /// Every type and effect the function under construction mentions is an
    /// entry of tables with `nt` types and `self.n_effects` effects.
    spec fn inv(&self, nt: nat) -> bool {
        let ne = self.n_effects@;
        &&& self.unknown.0 < nt
        &&& self.ret_type.0 < nt
        &&& forall|i: int| 0 <= i < self.params@.len() ==> (#[trigger] self.params@[i]).ty.0 < nt
        &&& effects_within(self.effect_row@, ne)
        &&& insts_within(self.current@, nt, ne)
        &&& blocks_within(self.blocks@, nt, ne)
        &&& forall|i: int| 0 <= i < self.value_types@.len() ==> (#[trigger] self.value_types@[i]).0 < nt
    }

    /// The lowering state as mathematical values.
    spec fn ls(&self) -> LowerState {
        LowerState {
            next_value: self.next_value,
            next_block: self.next_block,
            current_id: self.current_id,
            current: insts_v(self.current@),
            terminator: self.terminator,
            blocks: blocks_v(self.blocks@),
            scopes: scopes_v(self.scopes@),
            value_types: self.value_types@,
            ret_type: self.ret_type,
            unknown: self.unknown,
        }
    }

    /// What lowering never changes: the name, the parameters and the size
    /// of the effect table.
    spec fn keeps(&self, other: &Self) -> bool {
        &&& self.name == other.name
        &&& self.params == other.params
        &&& self.n_effects == other.n_effects
        &&& self.effect_row == other.effect_row
    }

    fn alloc_value(&mut self, ty: TypeId) -> (id: ValueId)
        ensures
            (final(self).ls(), id) == alloc_v(old(self).ls(), ty),
            final(self).value_types@ == old(self).value_types@.push(ty),
            final(self).params == old(self).params,
            final(self).name == old(self).name,
            final(self).current == old(self).current,
            final(self).terminator == old(self).terminator,
            final(self).blocks == old(self).blocks,
            final(self).scopes == old(self).scopes,
            final(self).ret_type == old(self).ret_type,
            final(self).effect_row == old(self).effect_row,
            final(self).unknown == old(self).unknown,
            final(self).n_effects == old(self).n_effects,
            final(self).current_id == old(self).current_id,
            final(self).next_block == old(self).next_block,
    {
        let id = ValueId(self.next_value);
        // Ids are dense; a function would need more than 2^32 values to
        // exhaust them.
        if self.next_value < u32::MAX {
            self.next_value = self.next_value + 1;
        }
        self.value_types.push(ty);
        id
    }

    fn alloc_block(&mut self) -> (id: BlockId)
        ensures
            (final(self).ls(), id) == alloc_block_v(old(self).ls()),
            *final(self) == (FnLower { next_block: final(self).next_block, ..*old(self) }),
    {
        let id = BlockId(self.next_block);
        if self.next_block < u32::MAX {
            self.next_block = self.next_block + 1;
        }
        id
    }

    /// The type recorded for a value.
    fn value_type(&self, id: ValueId) -> (t: TypeId)
        ensures
            forall|nt: nat| self.inv(nt) ==> t.0 < nt,
            t == value_type_v(self.ls(), id),
    {
        let i = id.0 as usize;
        if i < self.value_types.len() {
            self.value_types[i]
        } else {
            self.unknown
        }
    }

    /// Appends an instruction of type `ty` to the current block and returns
    /// its value. A block that already ends keeps no further instructions.
    fn emit(&mut self, kind: InstKind, ty: TypeId, effects: Vec<EffectId>, Ghost(nt): Ghost<nat>) -> (r: (ValueId, TypeId))
        requires
            old(self).inv(nt),
            ty.0 < nt,
            effects_within(effects@, old(self).n_effects@),
        ensures
            final(self).inv(nt),
            r.1 == ty,
            final(self).keeps(old(self)),
            (final(self).ls(), r.0) == emit_s(old(self).ls(), kind_v(kind), ty, effects@),
    {
        let id = self.alloc_value(ty);
        if self.terminator.is_none() {
            let ghost c0 = self.current@;
            let inst = Instruction { id, ty, effects, kind };
            self.current.push(inst);
            assert(insts_v(self.current@) =~= insts_v(c0).push(inst_v(inst)));
        }
        (id, ty)
    }

    fn emit_literal(&mut self, types: &mut TypeTable, literal: Literal) -> (r: (ValueId, TypeId))
        requires
            old(types).wf(),
            old(self).inv(old(types)@.entries.len()),
        ensures
            final(types).wf(),
            old(types)@.entries.len() <= final(types)@.entries.len(),
            final(self).inv(final(types)@.entries.len()),
            r.1.0 < final(types)@.entries.len(),
            final(self).keeps(old(self)),
            (Lw { s: final(self).ls(), t: final(types)@ }, r) == emit_lit_v(
                Lw { s: old(self).ls(), t: old(types)@ },
                literal_v(literal),
            ),
    {
        let ty = intern_plain(types, Type::from_literal(&literal));
        self.emit(InstKind::Literal(literal), ty, Vec::new(), Ghost(types@.entries.len()))
    }

    fn define(&mut self, name: String, value: ValueId)
        ensures
            *final(self) == (FnLower { scopes: final(self).scopes, ..*old(self) }),
            final(self).ls() == define_v(old(self).ls(), name@, value),
    {
        let ghost sc0 = self.scopes@;
        match self.scopes.pop() {
            Some(mut scope) => {
                let ghost v0 = scope@;
                scope.push((name, value));
                self.scopes.push(scope);
                assert(scope@.map_values(|p: (String, ValueId)| (p.0@, p.1)) =~= v0.map_values(
                    |p: (String, ValueId)| (p.0@, p.1),
                ).push((name@, value)));
                assert(scopes_v(self.scopes@) =~= scopes_v(sc0).update(
                    sc0.len() - 1,
                    scopes_v(sc0).last().push((name@, value)),
                ));
            },
            None => {},
        }
    }

    fn push_scope(&mut self)
        ensures
            *final(self) == (FnLower { scopes: final(self).scopes, ..*old(self) }),
            final(self).ls() == push_scope_v(old(self).ls()),
    {
        let fresh: Vec<(String, ValueId)> = Vec::new();
        assert(fresh@.map_values(|p: (String, ValueId)| (p.0@, p.1)) =~= Seq::empty());
        self.scopes.push(fresh);
        assert(scopes_v(self.scopes@) =~= scopes_v(old(self).scopes@).push(Seq::empty()));
    }

    fn pop_scope(&mut self)
        ensures
            *final(self) == (FnLower { scopes: final(self).scopes, ..*old(self) }),
            final(self).ls() == pop_scope_v(old(self).ls()),
    {
        let _ = self.scopes.pop();
        assert(old(self).scopes@.len() > 0 ==> scopes_v(self.scopes@) =~= scopes_v(
            old(self).scopes@,
        ).drop_last());
    }

    /// The value a name is bound to, innermost scope and latest binding first.
    fn lookup(&self, name: &str) -> (r: Option<ValueId>)
        ensures
            r == lookup_v(self.ls().scopes, name@),
    {
        let ghost sv = scopes_v(self.scopes@);
        let mut s = self.scopes.len();
        assert(sv.take(s as int) =~= sv);
        while s > 0
            invariant
                s <= self.scopes.len(),
                sv == scopes_v(self.scopes@),
                sv == self.ls().scopes,
                lookup_v(sv, name@) == lookup_v(sv.take(s as int), name@),
            decreases s,
        {
            let scope = &self.scopes[s - 1];
            let ghost cv = sv[s - 1];
            assert(cv == scope@.map_values(|p: (String, ValueId)| (p.0@, p.1)));
            let mut k = scope.len();
            assert(cv.take(k as int) =~= cv);
            while k > 0
                invariant
                    0 < s <= self.scopes.len(),
                    sv == scopes_v(self.scopes@),
                    sv == self.ls().scopes,
                    lookup_v(sv, name@) == lookup_v(sv.take(s as int), name@),
                    cv == sv[s - 1],
                    k <= scope.len(),
                    cv == scope@.map_values(|p: (String, ValueId)| (p.0@, p.1)),
                    scope_find(cv, name@) == scope_find(cv.take(k as int), name@),
                decreases k,
            {
                if string_eq_str(&scope[k - 1].0, name) {
                    assert(cv.take(k as int).last() == cv[k - 1]);
                    assert(sv.take(s as int).last() == cv);
                    return Some(scope[k - 1].1);
                }
                assert(cv.take(k as int).drop_last() =~= cv.take(k - 1));
                k = k - 1;
            }
            assert(sv.take(s as int).last() == cv);
            assert(sv.take(s as int).drop_last() =~= sv.take(s - 1));
            s = s - 1;
        }
        None
    }

    /// Closes the current block and continues in a fresh block `id`.
    fn switch_to(&mut self, id: BlockId)
        ensures
            forall|nt: nat| old(self).inv(nt) ==> final(self).inv(nt),
            final(self).terminator is None,
            final(self).blocks@.len() == old(self).blocks@.len() + 1,
            final(self).keeps(old(self)),
            final(self).ls() == switch_v(old(self).ls(), id),
    {
        let mut insts: Vec<Instruction> = Vec::new();
        std::mem::swap(&mut insts, &mut self.current);
        let terminator = match self.terminator {
            Some(t) => t,
            None => Terminator::Return(None),
        };
        let ghost b0 = self.blocks@;
        let block = BasicBlock { id: self.current_id, instructions: insts, terminator };
        self.blocks.push(block);
        assert(blocks_v(self.blocks@) =~= blocks_v(b0).push(block_v(block)));
        self.current_id = id;
        self.terminator = None;
        assert(insts_v(self.current@) =~= Seq::<InstV>::empty());
        proof {
            assert forall|nt: nat| old(self).inv(nt) implies self.inv(nt) by {
                let ne = self.n_effects@;
                assert forall|b: int| 0 <= b < self.blocks@.len() implies insts_within(
                    (#[trigger] self.blocks@[b]).instructions@,
                    nt,
                    ne,
                ) by {
                    if b < b0.len() {
                        assert(self.blocks@[b] == b0[b]);
                    }
                }
            }
        }
    }

    fn merge_return_type(&mut self, types: &TypeTable, ty: TypeId)
        requires
            types.wf(),
            old(self).inv(types@.entries.len()),
            ty.0 < types@.entries.len(),
        ensures
            *final(self) == (FnLower { ret_type: final(self).ret_type, ..*old(self) }),
            final(self).inv(types@.entries.len()),
            final(self).ls() == merge_ret_v(old(self).ls(), types@, ty),
    {
        if self.ret_type.0 == self.unknown.0 {
            self.ret_type = ty;
            return;
        }
        if ty.0 == self.unknown.0 {
            return;
        }
        if !type_eq(types.get(self.ret_type), types.get(ty)) {
            self.ret_type = self.unknown;
        }
    }

    fn join_types(&self, types: &TypeTable, lhs: TypeId, rhs: TypeId) -> (t: TypeId)
        requires
            types.wf(),
            self.inv(types@.entries.len()),
            lhs.0 < types@.entries.len(),
            rhs.0 < types@.entries.len(),
        ensures
            t.0 < types@.entries.len(),
            t == join_v(self.ls(), types@, lhs, rhs),
    {
        if lhs.0 == rhs.0 {
            lhs
        } else if lhs.0 == self.unknown.0 {
            rhs
        } else if rhs.0 == self.unknown.0 {
            lhs
        } else if type_eq(types.get(lhs), types.get(rhs)) {
            lhs
        } else {
            self.unknown
        }
    }

    fn lookup_effects(&self, sigs: &Vec<Signature>, func: &HFuncRef, Ghost(nt): Ghost<nat>) -> (es: Vec<EffectId>)
        requires
            sigs_within(sigs@, nt, self.n_effects@),
        ensures
            effects_within(es@, self.n_effects@),
            es@ == effects_for(sigs_v(sigs@), func_ref_v(*func)),
    {
        match func {
            HFuncRef::Function(path) => {
                if path.segments.len() == 1 {
                    match find_signature(sigs, path.segments[0].as_str()) {
                        Some(i) => copy_effects(&sigs[i].effects),
                        None => Vec::new(),
                    }
                } else {
                    Vec::new()
                }
            },
            HFuncRef::Method(_) => Vec::new(),
        }
    }

    fn lookup_return_type(&self, sigs: &Vec<Signature>, func: &HFuncRef, Ghost(nt): Ghost<nat>) -> (t: TypeId)
        requires
            sigs_within(sigs@, nt, self.n_effects@),
            self.inv(nt),
        ensures
            t.0 < nt,
            t == ret_for(self.ls(), sigs_v(sigs@), func_ref_v(*func)),
    {
        match func {
            HFuncRef::Function(path) => {
                if path.segments.len() == 1 {
                    match find_signature(sigs, path.segments[0].as_str()) {
                        Some(i) => sigs[i].ret_type,
                        None => self.unknown,
                    }
                } else {
                    self.unknown
                }
            },
            HFuncRef::Method(_) => self.unknown,
        }
    }

    fn lower_return_unit(&mut self, types: &mut TypeTable)
        requires
            old(types).wf(),
            old(self).inv(old(types)@.entries.len()),
        ensures
            final(types).wf(),
            old(types)@.entries.len() <= final(types)@.entries.len(),
            final(self).inv(final(types)@.entries.len()),
            final(self).keeps(old(self)),
            (Lw { s: final(self).ls(), t: final(types)@ }) == ret_unit_v(
                Lw { s: old(self).ls(), t: old(types)@ },
            ),
    {
        if self.terminator.is_some() {
            return;
        }
        let unit = intern_plain(types, Type::Unit);
        self.merge_return_type(types, unit);
        self.terminator = Some(Terminator::Return(None));
    }

    fn lower_return_value(&mut self, types: &mut TypeTable, sigs: &Vec<Signature>, e: &HExpr)
        requires
            old(types).wf(),
            old(self).inv(old(types)@.entries.len()),
            sigs_within(sigs@, old(types)@.entries.len(), old(self).n_effects@),
        ensures
            final(types).wf(),
            old(types)@.entries.len() <= final(types)@.entries.len(),
            final(self).inv(final(types)@.entries.len()),
            final(self).keeps(old(self)),
            (Lw { s: final(self).ls(), t: final(types)@ }) == ret_value_v(
                sigs_v(sigs@),
                Lw { s: old(self).ls(), t: old(types)@ },
                hexpr_v(*e),
            ),
        decreases e, 4nat,
    {
        if self.terminator.is_some() {
            return;
        }
        let (v, ty) = self.lower_expr(types, sigs, e);
        self.merge_return_type(types, ty);
        self.terminator = Some(Terminator::Return(Some(v)));
    }

    fn lower_args(&mut self, types: &mut TypeTable, sigs: &Vec<Signature>, args: &Vec<HExpr>) -> (ids: Vec<ValueId>)
        requires
            old(types).wf(),
            old(self).inv(old(types)@.entries.len()),
            sigs_within(sigs@, old(types)@.entries.len(), old(self).n_effects@),
        ensures
            final(types).wf(),
            old(types)@.entries.len() <= final(types)@.entries.len(),
            final(self).inv(final(types)@.entries.len()),
            final(self).keeps(old(self)),
            (Lw { s: final(self).ls(), t: final(types)@ }, ids@) == l_args(
                sigs_v(sigs@),
                Lw { s: old(self).ls(), t: old(types)@ },
                hexprs_v(args@),
            ),
        decreases args, 0nat,
    {
        let ghost nt0 = types@.entries.len();
        let ghost sv = sigs_v(sigs@);
        let ghost w0 = Lw { s: self.ls(), t: types@ };
        let ghost av = hexprs_v(args@);
        proof {
            lemma_hexprs_index(args@);
        }
        let mut ids: Vec<ValueId> = Vec::new();
        let mut i: usize = 0;
        assert(av.take(0) =~= Seq::<HExprV>::empty());
        assert(ids@ =~= Seq::<ValueId>::empty());
        while i < args.len()
            invariant
                i <= args.len(),
                types.wf(),
                nt0 <= types@.entries.len(),
                self.inv(types@.entries.len()),
                self.keeps(old(self)),
                sigs_within(sigs@, types@.entries.len(), self.n_effects@),
                sv == sigs_v(sigs@),
                w0 == (Lw { s: old(self).ls(), t: old(types)@ }),
                av == hexprs_v(args@),
                av.len() == args@.len(),
                forall|k: int| 0 <= k < args@.len() ==> av[k] == hexpr_v(#[trigger] args@[k]),
                (Lw { s: self.ls(), t: types@ }, ids@) == l_args(sv, w0, av.take(i as int)),
            decreases args.len() - i,
        {
            proof {
                assert(decreases_to!(args => args@));
                assert(decreases_to!(args@ => args@[i as int]));
            }
            let (v, _) = self.lower_expr(types, sigs, &args[i]);
            ids.push(v);
            assert(av.take(i + 1).drop_last() =~= av.take(i as int));
            assert(av.take(i + 1).last() == hexpr_v(args@[i as int]));
            i = i + 1;
        }
        assert(av.take(args.len() as int) =~= av);
        ids
    }

    fn lower_if(&mut self, types: &mut TypeTable, sigs: &Vec<Signature>, args: &Vec<HExpr>) -> (r: (ValueId, TypeId))
        requires
            old(types).wf(),
            old(self).inv(old(types)@.entries.len()),
            sigs_within(sigs@, old(types)@.entries.len(), old(self).n_effects@),
            args@.len() >= 2,
        ensures
            final(types).wf(),
            old(types)@.entries.len() <= final(types)@.entries.len(),
            final(self).inv(final(types)@.entries.len()),
            final(self).keeps(old(self)),
            r.1.0 < final(types)@.entries.len(),
            (Lw { s: final(self).ls(), t: final(types)@ }, r) == l_if(
                sigs_v(sigs@),
                Lw { s: old(self).ls(), t: old(types)@ },
                hexprs_v(args@),
            ),
        decreases args, 1nat,
    {
        proof {
            assert(decreases_to!(args => args@));
            assert(decreases_to!(args@ => args@[0]));
            assert(decreases_to!(args@ => args@[1]));
            lemma_hexprs_index(args@);
        }
        let ghost sv = sigs_v(sigs@);
        let ghost av = hexprs_v(args@);
        let ghost w0 = Lw { s: self.ls(), t: types@ };
        let (cond, _) = self.lower_expr(types, sigs, &args[0]);
        let ghost w1 = Lw { s: self.ls(), t: types@ };
        assert(l_expr(sv, w0, av[0]).0 == w1 && l_expr(sv, w0, av[0]).1.0 == cond);
        let then_id = self.alloc_block();
        let else_id = self.alloc_block();
        let merge_id = self.alloc_block();
        self.terminator = Some(Terminator::Branch { condition: cond, then_block: then_id, else_block: else_id });
        let ghost s5 = self.ls();
        let ghost before = *self;
        self.switch_to(then_id);
        assert(before.inv(types@.entries.len()));
        assert(self.inv(types@.entries.len()));
        self.push_scope();
        assert(self.inv(types@.entries.len()));
        let ghost w6 = Lw { s: self.ls(), t: types@ };
        assert(w6.s == push_scope_v(switch_v(s5, then_id)));
        let (then_value, then_ty) = self.lower_expr(types, sigs, &args[1]);
        let ghost w7 = Lw { s: self.ls(), t: types@ };
        assert(l_expr(sv, w6, av[1]) == (w7, (then_value, then_ty)));
        self.pop_scope();
        if self.terminator.is_none() {
            self.terminator = Some(Terminator::Jump(merge_id));
        }
        assert(self.ls() == jump_unless_ended(pop_scope_v(w7.s), merge_id));
        let ghost before2 = *self;
        self.switch_to(else_id);
        let ghost s8 = self.ls();
        assert(before2.inv(types@.entries.len()));
        assert(self.inv(types@.entries.len()));
        let (else_value, else_ty) = if args.len() > 2 {
            proof {
                assert(decreases_to!(args@ => args@[2]));
            }
            self.push_scope();
            assert(self.inv(types@.entries.len()));
            let ghost wa0 = Lw { s: self.ls(), t: types@ };
            assert(wa0 == (Lw { s: push_scope_v(s8), t: w7.t }));
            let r = self.lower_expr(types, sigs, &args[2]);
            let ghost wa = Lw { s: self.ls(), t: types@ };
            assert(l_expr(sv, wa0, av[2]) == (wa, r));
            self.pop_scope();
            r
        } else {
            self.emit_literal(types, Literal::Unit)
        };
        let ghost w9 = Lw { s: self.ls(), t: types@ };
        if self.terminator.is_none() {
            self.terminator = Some(Terminator::Jump(merge_id));
        }
        self.switch_to(merge_id);
        let ghost s10 = self.ls();
        assert(s10 == switch_v(jump_unless_ended(w9.s, merge_id), merge_id));
        let ty = self.join_types(types, then_ty, else_ty);
        let mut incomings: Vec<(BlockId, ValueId)> = Vec::new();
        incomings.push((then_id, then_value));
        incomings.push((else_id, else_value));
        assert(incomings@ =~= seq![(then_id, then_value), (else_id, else_value)]);
        let kind = InstKind::Phi { incomings };
        assert(kind_v(kind) == KindV::Phi(seq![(then_id, then_value), (else_id, else_value)]));
        self.emit(kind, ty, Vec::new(), Ghost(types@.entries.len()))
    }

    fn lower_block_expr(&mut self, types: &mut TypeTable, sigs: &Vec<Signature>, block: &HBlock) -> (r: (ValueId, TypeId))
        requires
            old(types).wf(),
            old(self).inv(old(types)@.entries.len()),
            sigs_within(sigs@, old(types)@.entries.len(), old(self).n_effects@),
        ensures
            final(types).wf(),
            old(types)@.entries.len() <= final(types)@.entries.len(),
            final(self).inv(final(types)@.entries.len()),
            final(self).keeps(old(self)),
            r.1.0 < final(types)@.entries.len(),
            (Lw { s: final(self).ls(), t: final(types)@ }, r) == l_block(
                sigs_v(sigs@),
                Lw { s: old(self).ls(), t: old(types)@ },
                hstmts_v(block.stmts@),
            ),
        decreases block, 2nat,
    {
        let ghost nt0 = types@.entries.len();
        let ghost sv = sigs_v(sigs@);
        let ghost ss = hstmts_v(block.stmts@);
        proof {
            lemma_hstmts_index(block.stmts@);
        }
        let mut result: Option<(ValueId, TypeId)> = None;
        self.push_scope();
        let ghost acc0 = BlockAcc { w: Lw { s: self.ls(), t: types@ }, result: None, done: false };
        let mut i: usize = 0;
        let mut done = false;
        assert(ss.take(0) =~= Seq::<HStmtV>::empty());
        while i < block.stmts.len() && !done
            invariant
                i <= block.stmts.len(),
                types.wf(),
                nt0 <= types@.entries.len(),
                self.inv(types@.entries.len()),
                self.keeps(old(self)),
                sigs_within(sigs@, types@.entries.len(), self.n_effects@),
                result matches Some(r) ==> r.1.0 < types@.entries.len(),
                sv == sigs_v(sigs@),
                ss == hstmts_v(block.stmts@),
                ss.len() == block.stmts@.len(),
                forall|k: int| 0 <= k < block.stmts@.len() ==> ss[k] == hstmt_v(#[trigger] block.stmts@[k]),
                acc0 == (BlockAcc {
                    w: Lw { s: push_scope_v(old(self).ls()), t: old(types)@ },
                    result: None,
                    done: false,
                }),
                (BlockAcc { w: Lw { s: self.ls(), t: types@ }, result, done }) == l_bstmts(
                    sv,
                    acc0,
                    ss.take(i as int),
                ),
            decreases block.stmts.len() - i,
        {
            let ghost a = BlockAcc { w: Lw { s: self.ls(), t: types@ }, result, done };
            assert(ss.take(i + 1).drop_last() =~= ss.take(i as int));
            assert(ss.take(i + 1).last() == hstmt_v(block.stmts@[i as int]));
            proof {
                assert(decreases_to!(block => block.stmts));
                assert(decreases_to!(block.stmts => block.stmts@));
                assert(decreases_to!(block.stmts@ => block.stmts@[i as int]));
            }
            match &block.stmts[i] {
                HStmt::Let { name, value } => {
                    proof {
                        assert(decreases_to!(block.stmts@[i as int] => block.stmts@[i as int]->Let_value));
                    }
                    let (v, _) = self.lower_expr(types, sigs, value);
                    self.define(copy_string(name), v);
                },
                HStmt::Expr(e) => {
                    proof {
                        assert(decreases_to!(block.stmts@[i as int] => block.stmts@[i as int]->Expr_0));
                    }
                    result = Some(self.lower_expr(types, sigs, e));
                },
                HStmt::Return(o) => {
                    match o {
                        Some(e) => {
                            proof {
                                assert(decreases_to!(block.stmts@[i as int] => block.stmts@[i as int]->Return_0));
                            }
                            self.lower_return_value(types, sigs, e);
                        },
                        None => self.lower_return_unit(types),
                    }
                },
            }
            if self.terminator.is_some() {
                done = true;
            }
            i = i + 1;
        }
        proof {
            if i < ss.len() {
                lemma_bstmts_done(sv, acc0, ss, i as int, ss.len() as int);
            }
            assert(ss.take(ss.len() as int) =~= ss);
        }
        self.pop_scope();
        match result {
            Some(r) => r,
            None => self.emit_literal(types, Literal::Unit),
        }
    }

    fn lower_expr(&mut self, types: &mut TypeTable, sigs: &Vec<Signature>, e: &HExpr) -> (r: (ValueId, TypeId))
        requires
            old(types).wf(),
            old(self).inv(old(types)@.entries.len()),
            sigs_within(sigs@, old(types)@.entries.len(), old(self).n_effects@),
        ensures
            final(types).wf(),
            old(types)@.entries.len() <= final(types)@.entries.len(),
            final(self).inv(final(types)@.entries.len()),
            final(self).keeps(old(self)),
            r.1.0 < final(types)@.entries.len(),
            (Lw { s: final(self).ls(), t: final(types)@ }, r) == l_expr(
                sigs_v(sigs@),
                Lw { s: old(self).ls(), t: old(types)@ },
                hexpr_v(*e),
            ),
        decreases e, 3nat,
    {
        match e {
            HExpr::Literal(l) => self.emit_literal(types, copy_literal(l)),
            HExpr::Path(p) => {
                if p.segments.len() == 1 {
                    match self.lookup(p.segments[0].as_str()) {
                        Some(id) => {
                            let ty = self.value_type(id);
                            return (id, ty);
                        },
                        None => {},
                    }
                }
                let unknown = self.unknown;
                self.emit(InstKind::Path(copy_path(p)), unknown, Vec::new(), Ghost(types@.entries.len()))
            },
            HExpr::Call { func, args } => {
                proof {
                    lemma_hexprs_index(args@);
                }
                let is_if = match func {
                    HFuncRef::Method(n) => string_eq_str(n, "if"),
                    HFuncRef::Function(_) => false,
                };
                if is_if && args.len() >= 2 {
                    self.lower_if(types, sigs, args)
                } else {
                    let ids = self.lower_args(types, sigs, args);
                    let func_ref = match func {
                        HFuncRef::Function(path) => FuncRef::Function(copy_path(path)),
                        HFuncRef::Method(name) => FuncRef::Method(copy_string(name)),
                    };
                    let effects = self.lookup_effects(sigs, func, Ghost(types@.entries.len()));
                    let ret = self.lookup_return_type(sigs, func, Ghost(types@.entries.len()));
                    self.emit(InstKind::Call { func: func_ref, args: ids }, ret, effects, Ghost(types@.entries.len()))
                }
            },
            HExpr::Binary { lhs, op, rhs } => {
                let (l, lt) = self.lower_expr(types, sigs, lhs);
                let (r, rt) = self.lower_expr(types, sigs, rhs);
                let ty = if lt.0 != self.unknown.0 && lt.0 == rt.0 {
                    lt
                } else {
                    self.unknown
                };
                self.emit(InstKind::Binary { op: *op, lhs: l, rhs: r }, ty, Vec::new(), Ghost(types@.entries.len()))
            },
            HExpr::Block(b) => self.lower_block_expr(types, sigs, b),
        }
    }
}

impl FnLower {
    fn lower_stmt(&mut self, types: &mut TypeTable, sigs: &Vec<Signature>, stmt: &HStmt)
        requires
            old(types).wf(),
            old(self).inv(old(types)@.entries.len()),
            sigs_within(sigs@, old(types)@.entries.len(), old(self).n_effects@),
        ensures
            final(types).wf(),
            old(types)@.entries.len() <= final(types)@.entries.len(),
            final(self).inv(final(types)@.entries.len()),
            final(self).keeps(old(self)),
            (Lw { s: final(self).ls(), t: final(types)@ }) == l_stmt(
                sigs_v(sigs@),
                Lw { s: old(self).ls(), t: old(types)@ },
                hstmt_v(*stmt),
            ),
    {
        match stmt {
            HStmt::Let { name, value } => {
                let (v, _) = self.lower_expr(types, sigs, value);
                self.define(copy_string(name), v);
            },
            HStmt::Expr(e) => {
                let _ = self.lower_expr(types, sigs, e);
            },
            HStmt::Return(o) => match o {
                Some(e) => self.lower_return_value(types, sigs, e),
                None => self.lower_return_unit(types),
            },
        }
    }

    /// Lowers a function body: statements in order until the block ends; a
    /// final expression statement is the returned value.
    fn lower_body(&mut self, types: &mut TypeTable, sigs: &Vec<Signature>, block: &HBlock)
        requires
            old(types).wf(),
            old(self).inv(old(types)@.entries.len()),
            sigs_within(sigs@, old(types)@.entries.len(), old(self).n_effects@),
        ensures
            final(types).wf(),
            old(types)@.entries.len() <= final(types)@.entries.len(),
            final(self).inv(final(types)@.entries.len()),
            final(self).keeps(old(self)),
            (Lw { s: final(self).ls(), t: final(types)@ }) == l_body(
                sigs_v(sigs@),
                Lw { s: old(self).ls(), t: old(types)@ },
                hstmts_v(block.stmts@),
            ),
    {
        let ghost nt0 = types@.entries.len();
        let ghost sv = sigs_v(sigs@);
        let ghost ss = hstmts_v(block.stmts@);
        proof {
            lemma_hstmts_index(block.stmts@);
        }
        self.push_scope();
        let ghost w0 = Lw { s: self.ls(), t: types@ };
        let n = block.stmts.len();
        let mut i: usize = 0;
        let mut done = false;
        assert(ss.take(0) =~= Seq::<HStmtV>::empty());
        while i < n && !done
            invariant
                n == block.stmts.len(),
                i <= n,
                types.wf(),
                nt0 <= types@.entries.len(),
                self.inv(types@.entries.len()),
                self.keeps(old(self)),
                sigs_within(sigs@, types@.entries.len(), self.n_effects@),
                sv == sigs_v(sigs@),
                ss == hstmts_v(block.stmts@),
                ss.len() == n,
                forall|k: int| 0 <= k < n ==> ss[k] == hstmt_v(#[trigger] block.stmts@[k]),
                w0 == (Lw { s: push_scope_v(old(self).ls()), t: old(types)@ }),
                (Lw { s: self.ls(), t: types@ }, done) == body_acc(sv, w0, ss.take(i as int), n as int),
            decreases n - i,
        {
            assert(ss.take(i + 1).drop_last() =~= ss.take(i as int));
            assert(ss.take(i + 1).last() == hstmt_v(block.stmts@[i as int]));
            assert(ss.take(i + 1).len() == i + 1);
            if self.terminator.is_some() {
                done = true;
            } else {
                let is_last = i + 1 == n;
                match &block.stmts[i] {
                    HStmt::Expr(e) => {
                        if is_last {
                            self.lower_return_value(types, sigs, e);
                            done = true;
                        } else {
                            self.lower_stmt(types, sigs, &block.stmts[i]);
                        }
                    },
                    other => self.lower_stmt(types, sigs, other),
                }
            }
            i = i + 1;
        }
        proof {
            if i < n {
                lemma_body_done(sv, w0, ss, n as int, i as int, n as int);
            }
            assert(ss.take(n as int) =~= ss);
        }
        self.pop_scope();
    }

    fn push_param(&mut self, types: &mut TypeTable, name: &String, ty_expr: &TypeExpr)
        requires
            old(types).wf(),
            old(self).inv(old(types)@.entries.len()),
        ensures
            final(types).wf(),
            old(types)@.entries.len() <= final(types)@.entries.len(),
            final(self).inv(final(types)@.entries.len()),
            final(self).name == old(self).name,
            final(self).n_effects == old(self).n_effects,
            final(self).params@.map_values(|p: Param| p.name@) == old(self).params@.map_values(
                |p: Param| p.name@,
            ).push(name@),
            final(self).effect_row == old(self).effect_row,
            (Lw { s: final(self).ls(), t: final(types)@ }) == param_v(
                Lw { s: old(self).ls(), t: old(types)@ },
                name@,
                *ty_expr,
            ),
    {
        let ty = types.intern_type_expr(ty_expr);
        let id = self.alloc_value(ty);
        self.define(copy_string(name), id);
        let ghost p0 = self.params@;
        self.params.push(Param { name: copy_string(name), ty, value: id });
        assert(self.params@.map_values(|p: Param| p.name@) =~= p0.map_values(|p: Param| p.name@).push(name@));
    }

    fn finish(self, types: &mut TypeTable) -> (f: Function)
        requires
            old(types).wf(),
            self.inv(old(types)@.entries.len()),
        ensures
            final(types).wf(),
            old(types)@.entries.len() <= final(types)@.entries.len(),
            f.ids_within(final(types)@.entries.len(), self.n_effects@),
            f.name == self.name,
            f.params == self.params,
            f.blocks@.len() >= 1,
            f.effect_row == self.effect_row,
            blocks_v(f.blocks@) == close_v(Lw { s: self.ls(), t: old(types)@ }).s.blocks,
            f.ret_type == close_v(Lw { s: self.ls(), t: old(types)@ }).s.ret_type,
    {
        let mut this = self;
        this.close(types);
        assert(this.inv(types@.entries.len()));
        Function {
            name: this.name,
            params: this.params,
            ret_type: this.ret_type,
            blocks: this.blocks,
            effect_row: this.effect_row,
        }
    }

    /// Ends the current block with a return of unit when nothing ended it,
    /// and closes it.
    fn close(&mut self, types: &mut TypeTable)
        requires
            old(types).wf(),
            old(self).inv(old(types)@.entries.len()),
        ensures
            final(types).wf(),
            old(types)@.entries.len() <= final(types)@.entries.len(),
            final(self).inv(final(types)@.entries.len()),
            final(self).keeps(old(self)),
            final(self).blocks@.len() >= 1,
            (Lw { s: final(self).ls(), t: final(types)@ }) == close_v(Lw { s: old(self).ls(), t: old(types)@ }),
    {
        if self.terminator.is_none() {
            let (unit, unit_ty) = self.emit_literal(types, Literal::Unit);
            self.terminator = Some(Terminator::Return(Some(unit)));
            self.merge_return_type(types, unit_ty);
        }
        let next = BlockId(0);
        self.switch_to(next);
    }
}

proof fn lemma_function_within_mono(f: Function, nt: nat, ne: nat, nt2: nat, ne2: nat)
    requires
        f.ids_within(nt, ne),
        nt <= nt2,
        ne <= ne2,
    ensures
        f.ids_within(nt2, ne2),
{
    assert forall|b: int, k: int|
        0 <= b < f.blocks@.len() && 0 <= k < f.blocks@[b].instructions@.len() implies (
        #[trigger] f.blocks@[b].instructions@[k]).ids_within(nt2, ne2) by {
        assert(f.blocks@[b].instructions@[k].ids_within(nt, ne));
    }
}

/// Interns the effect names of a signature.
fn intern_effects(effects: &mut EffectTable, names: &Vec<String>) -> (ids: Vec<EffectId>)
    requires
        old(effects).wf(),
    ensures
        final(effects).wf(),
        old(effects)@.len() <= final(effects)@.len(),
        effects_within(ids@, final(effects)@.len()),
{
    let mut ids: Vec<EffectId> = Vec::new();
    let mut i: usize = 0;
    while i < names.len()
        invariant
            i <= names.len(),
            effects.wf(),
            old(effects)@.len() <= effects@.len(),
            effects_within(ids@, effects@.len()),
        decreases names.len() - i,
    {
        let ghost n0 = effects@.len();
        let id = effects.intern(copy_string(&names[i]));
        assert(n0 <= effects@.len());
        ids.push(id);
        i = i + 1;
    }
    ids
}

fn lower_function(
    types: &mut TypeTable,
    effects: &mut EffectTable,
    sigs: &mut Vec<Signature>,
    func: &HFunction,
) -> (f: Function)
    requires
        old(types).wf(),
        old(effects).wf(),
        sigs_within(old(sigs)@, old(types)@.entries.len(), old(effects)@.len()),
    ensures
        final(types).wf(),
        final(effects).wf(),
        old(types)@.entries.len() <= final(types)@.entries.len(),
        old(effects)@.len() <= final(effects)@.len(),
        sigs_within(final(sigs)@, final(types)@.entries.len(), final(effects)@.len()),
        f.ids_within(final(types)@.entries.len(), final(effects)@.len()),
        ir_shape(f) == hir_shape(*func),
        f.blocks@.len() >= 1,
        lowers_to(f, old(types)@, sigs_v(old(sigs)@), *func),
{
    let declared: Option<TypeId> = match &func.return_type {
        Some(t) => Some(types.intern_type_expr(t)),
        None => None,
    };
    let unknown = types.unknown();
    let ret_type = match declared {
        Some(t) => t,
        None => unknown,
    };
    let ghost t1 = types@;
    let effect_row = intern_effects(effects, &func.effect_row);
    let ghost row = effect_row@;
    let ghost ne = effects@.len();
    let ghost nt_start = old(types)@.entries.len();
    let ghost sv0 = sigs_v(sigs@);
    sigs.push(Signature { name: copy_string(&func.name), ret_type, effects: copy_effects(&effect_row) });
    let ghost sv1 = sigs_v(sigs@);
    assert(sv1 =~= sv0.push(SigV { name: func.name@, ret: ret_type, effects: row }));
    assert(sigs_within(sigs@, types@.entries.len(), ne)) by {
        assert forall|s: int| 0 <= s < sigs@.len() implies (#[trigger] sigs@[s]).ret_type.0 < types@.entries.len()
            && effects_within(sigs@[s].effects@, ne) by {
            if s < sigs@.len() - 1 {
                assert(sigs@[s] == old(sigs)@[s]);
            }
        }
    }
    let mut scopes: Vec<Vec<(String, ValueId)>> = Vec::new();
    let first: Vec<(String, ValueId)> = Vec::new();
    assert(first@.map_values(|p: (String, ValueId)| (p.0@, p.1)) =~= Seq::empty());
    scopes.push(first);
    assert(scopes_v(scopes@) =~= seq![Seq::<(Seq<char>, ValueId)>::empty()]);
    let mut lowerer = FnLower {
        name: copy_string(&func.name),
        params: Vec::new(),
        next_value: 0,
        next_block: 1,
        current_id: BlockId(0),
        current: Vec::new(),
        terminator: None,
        blocks: Vec::new(),
        scopes,
        value_types: Vec::new(),
        ret_type,
        effect_row,
        unknown,
        n_effects: Ghost(ne),
    };
    let ghost start = Lw { s: start_state(ret_type, t1.unknown), t: t1 };
    assert(insts_v(lowerer.current@) =~= Seq::<InstV>::empty());
    assert(blocks_v(lowerer.blocks@) =~= Seq::<BlockV>::empty());
    assert(lowerer.value_types@ =~= Seq::<TypeId>::empty());
    assert(lowerer.ls() == start.s);
    assert(func.params@.take(0) =~= Seq::<HParam>::empty());
    let mut i: usize = 0;
    while i < func.params.len()
        invariant
            i <= func.params.len(),
            types.wf(),
            lowerer.inv(types@.entries.len()),
            lowerer.name@ == func.name@,
            lowerer.n_effects@ == ne,
            nt_start <= types@.entries.len(),
            effects@.len() == ne,
            effects.wf(),
            sigs_within(sigs@, types@.entries.len(), ne),
            lowerer.params@.map_values(|p: Param| p.name@) == func.params@.take(i as int).map_values(
                |p: crate::lower::HParam| p.name@,
            ),
            lowerer.effect_row@ == row,
            sigs_v(sigs@) == sv1,
            (Lw { s: lowerer.ls(), t: types@ }) == params_v(start, func.params@.take(i as int)),
        decreases func.params.len() - i,
    {
        assert(func.params@.take(i + 1).drop_last() =~= func.params@.take(i as int));
        assert(func.params@.take(i + 1).last() == func.params@[i as int]);
        lowerer.push_param(types, &func.params[i].name, &func.params[i].ty);
        assert(func.params@.take(i + 1).map_values(|p: crate::lower::HParam| p.name@) =~= func.params@.take(
            i as int,
        ).map_values(|p: crate::lower::HParam| p.name@).push(func.params@[i as int].name@));
        i = i + 1;
    }
    assert(func.params@.take(func.params.len() as int) =~= func.params@);
    lowerer.lower_body(types, sigs, &func.body);
    let ghost w_end = Lw { s: lowerer.ls(), t: types@ };
    assert(w_end == l_body(sv1, params_v(start, func.params@), hstmts_v(func.body.stmts@)));
    let f = lowerer.finish(types);
    assert(lowers_to(f, old(types)@, sv0, *func));
    let ghost s0 = sigs@;
    sigs.push(Signature { name: copy_string(&func.name), ret_type: f.ret_type, effects: copy_effects(&f.effect_row) });
    assert(sigs_within(sigs@, types@.entries.len(), ne)) by {
        assert forall|s: int| 0 <= s < sigs@.len() implies (#[trigger] sigs@[s]).ret_type.0 < types@.entries.len()
            && effects_within(sigs@[s].effects@, ne) by {
            if s < sigs@.len() - 1 {
                assert(sigs@[s] == s0[s]);
            }
        }
    }
    f
}

fn push_type_alias(types: &mut TypeTable, alias: &HTypeAlias)
    requires
        old(types).wf(),
    ensures
        final(types).wf(),
        old(types)@.entries.len() <= final(types)@.entries.len(),
{
    if alias.params.len() > 0 {
        return;
    }
    match &alias.value {
        TypeExpr::Record(fields) => {
            let _ = types.intern_record(Some(alias.name.as_str()), fields);
        },
        other => {
            let ty = types.intern_type_expr(other);
            types.define_alias(alias.name.as_str(), ty);
        },
    }
}

fn copy_names(v: &Vec<String>) -> (r: Vec<String>)
    ensures
        views(r@) == views(v@),
{
    let mut r: Vec<String> = Vec::new();
    let mut i: usize = 0;
    while i < v.len()
        invariant
            i <= v.len(),
            views(r@) == views(v@.take(i as int)),
        decreases v.len() - i,
    {
        let ghost r0 = r@;
        r.push(copy_string(&v[i]));
        assert(views(r@) =~= views(r0).push(v@[i as int]@));
        assert(v@.take(i + 1) =~= v@.take(i as int).push(v@[i as int]));
        assert(views(v@.take(i + 1)) =~= views(v@.take(i as int)).push(v@[i as int]@));
        i = i + 1;
    }
    assert(v@.take(v.len() as int) =~= v@);
    r
}

/// Lowers a high-level module to SSA. Type aliases without parameters are
/// registered first (records with their layout); then each function is
/// lowered in order, seeing the signatures of the functions before it and
/// its own. The result is well formed: every type and effect id an
/// instruction, parameter or signature mentions is an entry of the
/// module's tables. Each function keeps its name and parameter names and
/// has at least one block.
pub fn lower_module(module: &HModule) -> (m: Module)
    ensures
        m.wf(),
        views(m.name@) == views(module.name@),
        m.functions@.map_values(|f: Function| ir_shape(f)) == hir_functions(module.items@).map_values(
            |f: HFunction| hir_shape(f),
        ),
        forall|i: int| 0 <= i < m.functions@.len() ==> (#[trigger] m.functions@[i]).blocks@.len() >= 1,
        forall|i: int|
            0 <= i < m.functions@.len() ==> lowered_from(
                #[trigger] m.functions@[i],
                hir_functions(module.items@)[i],
            ),
{
    let mut types = TypeTable::new();
    let mut effects = EffectTable::new();
    let mut k: usize = 0;
    while k < module.items.len()
        invariant
            k <= module.items.len(),
            types.wf(),
        decreases module.items.len() - k,
    {
        match &module.items[k] {
            HItem::TypeAlias(alias) => push_type_alias(&mut types, alias),
            HItem::Function(_) => {},
        }
        k = k + 1;
    }
    let mut sigs: Vec<Signature> = Vec::new();
    let mut functions: Vec<Function> = Vec::new();
    let mut i: usize = 0;
    while i < module.items.len()
        invariant
            i <= module.items.len(),
            types.wf(),
            effects.wf(),
            sigs_within(sigs@, types@.entries.len(), effects@.len()),
            forall|f: int| 0 <= f < functions@.len() ==> (#[trigger] functions@[f]).ids_within(
                types@.entries.len(),
                effects@.len(),
            ),
            forall|f: int| 0 <= f < functions@.len() ==> (#[trigger] functions@[f]).blocks@.len() >= 1,
            functions@.map_values(|f: Function| ir_shape(f)) == hir_functions(module.items@.take(i as int)).map_values(
                |f: HFunction| hir_shape(f),
            ),
            forall|f: int|
                0 <= f < functions@.len() ==> lowered_from(
                    #[trigger] functions@[f],
                    hir_functions(module.items@.take(i as int))[f],
                ),
        decreases module.items.len() - i,
    {
        proof {
            assert(module.items@.take(i + 1).drop_last() =~= module.items@.take(i as int));
            assert(module.items@.take(i + 1).last() == module.items@[i as int]);
        }
        match &module.items[i] {
            HItem::Function(func) => {
                let ghost nt = types@.entries.len();
                let ghost ne = effects@.len();
                let ghost f0 = functions@;
                let ghost t0 = types@;
                let ghost sv0 = sigs_v(sigs@);
                let f = lower_function(&mut types, &mut effects, &mut sigs, func);
                assert(lowers_to(f, t0, sv0, *func));
                assert(lowered_from(f, *func));
                functions.push(f);
                proof {
                    let hf0 = hir_functions(module.items@.take(i as int));
                    assert(f0.map_values(|f: Function| ir_shape(f)).len() == hf0.map_values(|f: HFunction| hir_shape(f)).len());
                    assert forall|j: int| 0 <= j < functions@.len() implies lowered_from(
                        #[trigger] functions@[j],
                        hir_functions(module.items@.take(i + 1))[j],
                    ) by {
                        assert(hir_functions(module.items@.take(i + 1)) == hf0.push(*func));
                        if j < f0.len() {
                            assert(functions@[j] == f0[j]);
                        }
                    }
                    assert forall|j: int| 0 <= j < functions@.len() implies (#[trigger] functions@[j]).ids_within(
                        types@.entries.len(),
                        effects@.len(),
                    ) by {
                        if j < f0.len() {
                            assert(functions@[j] == f0[j]);
                            lemma_function_within_mono(f0[j], nt, ne, types@.entries.len(), effects@.len());
                        }
                    }
                    assert(forall|j: int| 0 <= j < f0.len() ==> functions@[j] == f0[j]);
                    assert(functions@.map_values(|f: Function| ir_shape(f)) =~= f0.map_values(|f: Function| ir_shape(f)).push(
                        hir_shape(*func),
                    ));
                    assert(hir_functions(module.items@.take(i + 1)) == hir_functions(module.items@.take(i as int)).push(*func));
                    assert(hir_functions(module.items@.take(i + 1)).map_values(|f: HFunction| hir_shape(f)) =~= hir_functions(
                        module.items@.take(i as int),
                    ).map_values(|f: HFunction| hir_shape(f)).push(hir_shape(*func)));
                }
            },
            HItem::TypeAlias(_) => {},
        }
        i = i + 1;
    }
    assert(module.items@.take(module.items.len() as int) =~= module.items@);
    Module { name: copy_names(&module.name), functions, types, effects }
}

} // verus!
