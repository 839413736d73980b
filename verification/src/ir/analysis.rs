//! Purity analysis of a function's control-flow graph: which instructions
//! carry effects, which blocks are free of them, and how the pure blocks
//! group into connected regions.
use vstd::prelude::*;

use super::{BasicBlock, BlockId, FuncRef, Function, InstKind, Instruction, Terminator, ValueId};

verus! {

/// Whether a block carries effects.
#[derive(Debug, Clone, Copy, PartialEq, Eq, Structural)]
pub enum BlockPurity {
    Pure,
    Effectful,
}

/// The outcome of [`analyze_function_purity`].
///
/// `pure_blocks` and `effectful_instructions` hold each id once;
/// `block_effects` holds one entry per block, in block order (a later entry
/// for a repeated id supersedes an earlier one); `pure_regions` holds the
/// connected groups of pure blocks, each sorted by index, ordered by their
/// smallest block.
#[derive(Debug)]
pub struct PurityReport {
    pub pure_blocks: Vec<BlockId>,
    pub effectful_instructions: Vec<ValueId>,
    pub pure_regions: Vec<Vec<BlockId>>,
    pub block_effects: Vec<(BlockId, BlockPurity)>,
}

// ---------------------------------------------------------------------------
// The model
// ---------------------------------------------------------------------------

/// An instruction is effectful when it lists effects, or when it is a call
/// through a method that lists none (such a call is not known to stay pure).
pub open spec fn inst_effectful(inst: Instruction) -> bool {
    inst.effects@.len() > 0 || inst.kind matches InstKind::Call { func: FuncRef::Method(_), .. }
}

/// A block is pure when none of its instructions is effectful.
pub open spec fn block_is_pure(b: BasicBlock) -> bool {
    forall|k: int| 0 <= k < b.instructions@.len() ==> !inst_effectful(#[trigger] b.instructions@[k])
}

/// Block `i` has id `id` and is pure.
pub open spec fn pure_at(blocks: Seq<BasicBlock>, i: int, id: BlockId) -> bool {
    0 <= i < blocks.len() && blocks[i].id == id && block_is_pure(blocks[i])
}

/// Some block with id `id` is pure.
pub open spec fn is_pure_id(blocks: Seq<BasicBlock>, id: BlockId) -> bool {
    exists|i: int| #[trigger] pure_at(blocks, i, id)
}

/// Instruction `k` of block `i` has id `id` and is effectful.
pub open spec fn effectful_at(blocks: Seq<BasicBlock>, i: int, k: int, id: ValueId) -> bool {
    &&& 0 <= i < blocks.len()
    &&& 0 <= k < blocks[i].instructions@.len()
    &&& blocks[i].instructions@[k].id == id
    &&& inst_effectful(blocks[i].instructions@[k])
}

/// Some effectful instruction has id `id`.
pub open spec fn is_effectful_id(blocks: Seq<BasicBlock>, id: ValueId) -> bool {
    exists|i: int, k: int| #[trigger] effectful_at(blocks, i, k, id)
}

/// Whether terminator `t` may transfer control to `target`.
pub open spec fn targets(t: Terminator, target: BlockId) -> bool {
    match t {
        Terminator::Return(_) => false,
        Terminator::Branch { then_block, else_block, .. } => then_block == target || else_block
            == target,
        Terminator::Jump(b) => b == target,
    }
}

/// Block `i` links `x` and `y`: it is one of them and jumps or branches to
/// the other.
pub open spec fn edge_at(blocks: Seq<BasicBlock>, i: int, x: BlockId, y: BlockId) -> bool {
    0 <= i < blocks.len() && ((blocks[i].id == x && targets(blocks[i].terminator, y)) || (
    blocks[i].id == y && targets(blocks[i].terminator, x)))
}

/// `x` and `y` are adjacent in the undirected control-flow graph.
pub open spec fn linked(blocks: Seq<BasicBlock>, x: BlockId, y: BlockId) -> bool {
    exists|i: int| #[trigger] edge_at(blocks, i, x, y)
}

/// `x` and `y` are adjacent through one of the first `n` blocks.
pub open spec fn linked_within(blocks: Seq<BasicBlock>, n: int, x: BlockId, y: BlockId) -> bool {
    exists|i: int| 0 <= i < n && #[trigger] edge_at(blocks, i, x, y)
}

/// Element `k` of `order` is adjacent to an element before it.
pub open spec fn has_earlier_link(blocks: Seq<BasicBlock>, order: Seq<BlockId>, k: int) -> bool {
    exists|j: int| 0 <= j < k && #[trigger] linked(blocks, order[j], order[k])
}

/// Every element of `order` after the first is adjacent to an earlier one.
pub open spec fn spans(blocks: Seq<BasicBlock>, order: Seq<BlockId>) -> bool {
    forall|k: int| 0 < k < order.len() ==> #[trigger] has_earlier_link(blocks, order, k)
}

/// The blocks of `region` are connected: some ordering of them starts
/// anywhere and reaches each next block from an earlier one.
pub open spec fn connected(blocks: Seq<BasicBlock>, region: Seq<BlockId>) -> bool {
    exists|order: Seq<BlockId>|
        #![trigger spans(blocks, order)]
        order.len() > 0 && spans(blocks, order) && forall|x: BlockId|
            order.contains(x) <==> region.contains(x)
}

/// Ids strictly ascending by index.
pub open spec fn ascending(ids: Seq<BlockId>) -> bool {
    forall|a: int, b: int| 0 <= a < b < ids.len() ==> ids[a].0 < ids[b].0
}

/// A pure block's id in `region`, with every pure neighbour of a member
/// also a member.
pub open spec fn closed(blocks: Seq<BasicBlock>, region: Seq<BlockId>) -> bool {
    forall|x: BlockId, y: BlockId|
        #![trigger region.contains(x), linked(blocks, x, y)]
        region.contains(x) && is_pure_id(blocks, y) && linked(blocks, x, y) ==> region.contains(y)
}

/// The pure regions of `blocks`: the connected components of the pure
/// blocks under adjacency, each sorted by index, ordered by their smallest
/// block.
pub open spec fn are_pure_regions(blocks: Seq<BasicBlock>, regions: Seq<Seq<BlockId>>) -> bool {
    &&& forall|r: int|
        0 <= r < regions.len() ==> {
            &&& (#[trigger] regions[r]).len() > 0
            &&& ascending(regions[r])
            &&& closed(blocks, regions[r])
            &&& connected(blocks, regions[r])
        }
    &&& forall|r: int, x: BlockId|
        0 <= r < regions.len() && (#[trigger] regions[r].contains(x)) ==> is_pure_id(blocks, x)
    &&& forall|x: BlockId|
        #[trigger] is_pure_id(blocks, x) ==> exists|r: int|
            0 <= r < regions.len() && #[trigger] regions[r].contains(x)
    &&& forall|r1: int, r2: int, x: BlockId|
        0 <= r1 < r2 < regions.len() && #[trigger] regions[r1].contains(x) ==> !(
        #[trigger] regions[r2].contains(x))
    &&& forall|r1: int, r2: int|
        0 <= r1 < r2 < regions.len() ==> (#[trigger] regions[r1])[0].0 < (
        #[trigger] regions[r2])[0].0
}

/// What the analysis reports about `blocks`.
pub open spec fn reports(blocks: Seq<BasicBlock>, report: PurityReport) -> bool {
    &&& report.pure_blocks@.no_duplicates()
    &&& forall|id: BlockId| report.pure_blocks@.contains(id) <==> is_pure_id(blocks, id)
    &&& report.effectful_instructions@.no_duplicates()
    &&& forall|id: ValueId|
        report.effectful_instructions@.contains(id) <==> is_effectful_id(blocks, id)
    &&& report.block_effects@.len() == blocks.len()
    &&& forall|i: int|
        0 <= i < blocks.len() ==> #[trigger] report.block_effects@[i] == (
            blocks[i].id,
            if block_is_pure(blocks[i]) {
                BlockPurity::Pure
            } else {
                BlockPurity::Effectful
            },
        )
    &&& are_pure_regions(blocks, report.pure_regions@.map_values(|r: Vec<BlockId>| r@))
}

// ---------------------------------------------------------------------------
// Small facts
// ---------------------------------------------------------------------------

proof fn lemma_linked_symmetric(blocks: Seq<BasicBlock>, x: BlockId, y: BlockId)
    ensures
        linked(blocks, x, y) == linked(blocks, y, x),
{
    if linked(blocks, x, y) {
        let i = choose|i: int| #[trigger] edge_at(blocks, i, x, y);
        assert(edge_at(blocks, i, y, x));
    }
    if linked(blocks, y, x) {
        let i = choose|i: int| #[trigger] edge_at(blocks, i, y, x);
        assert(edge_at(blocks, i, x, y));
    }
}

proof fn lemma_spans_push(blocks: Seq<BasicBlock>, order: Seq<BlockId>, j: int, y: BlockId)
    requires
        spans(blocks, order),
        0 <= j < order.len(),
        linked(blocks, order[j], y),
    ensures
        spans(blocks, order.push(y)),
{
    let o2 = order.push(y);
    assert forall|k: int| 0 < k < o2.len() implies #[trigger] has_earlier_link(blocks, o2, k) by {
        if k < order.len() {
            assert(has_earlier_link(blocks, order, k));
            let w = choose|w: int| 0 <= w < k && #[trigger] linked(blocks, order[w], order[k]);
            assert(o2[w] == order[w] && o2[k] == order[k]);
            assert(linked(blocks, o2[w], o2[k]));
        } else {
            assert(o2[j] == order[j] && o2[k] == y);
            assert(linked(blocks, o2[j], o2[k]));
        }
    }
}

// ---------------------------------------------------------------------------
// Executable pieces
// ---------------------------------------------------------------------------

/// Every terminator of the IR keeps a block pure.
pub fn is_pure_terminator(term: &Terminator) -> (r: bool)
    ensures
        r,
{
    match term {
        Terminator::Return(_) | Terminator::Branch { .. } | Terminator::Jump(_) => true,
    }
}

fn targets_block(t: &Terminator, target: BlockId) -> (r: bool)
    ensures
        r == targets(*t, target),
{
    match t {
        Terminator::Return(_) => false,
        Terminator::Branch { then_block, else_block, .. } => *then_block == target || *else_block
            == target,
        Terminator::Jump(b) => *b == target,
    }
}

fn contains_block(v: &Vec<BlockId>, id: BlockId) -> (r: bool)
    ensures
        r == v@.contains(id),
{
    let mut i: usize = 0;
    while i < v.len()
        invariant
            i <= v.len(),
            forall|k: int| 0 <= k < i ==> v@[k] != id,
        decreases v.len() - i,
    {
        if v[i] == id {
            return true;
        }
        i = i + 1;
    }
    false
}

fn contains_value(v: &Vec<ValueId>, id: ValueId) -> (r: bool)
    ensures
        r == v@.contains(id),
{
    let mut i: usize = 0;
    while i < v.len()
        invariant
            i <= v.len(),
            forall|k: int| 0 <= k < i ==> v@[k] != id,
        decreases v.len() - i,
    {
        if v[i] == id {
            return true;
        }
        i = i + 1;
    }
    false
}

fn inst_is_effectful(inst: &Instruction) -> (r: bool)
    ensures
        r == inst_effectful(*inst),
{
    if inst.effects.len() > 0 {
        return true;
    }
    match &inst.kind {
        InstKind::Call { func, .. } => match func {
            FuncRef::Method(_) => true,
            FuncRef::Function(_) => false,
        },
        _ => false,
    }
}

fn block_pure(b: &BasicBlock) -> (r: bool)
    ensures
        r == block_is_pure(*b),
{
    let mut i: usize = 0;
    while i < b.instructions.len()
        invariant
            i <= b.instructions.len(),
            forall|k: int| 0 <= k < i ==> !inst_effectful(#[trigger] b.instructions@[k]),
        decreases b.instructions.len() - i,
    {
        if inst_is_effectful(&b.instructions[i]) {
            return false;
        }
        i = i + 1;
    }
    is_pure_terminator(&b.terminator)
}

/// The ids of `v` sorted by index.
fn sort_ids(v: &Vec<BlockId>) -> (out: Vec<BlockId>)
    requires
        v@.no_duplicates(),
    ensures
        out@.len() == v@.len(),
        ascending(out@),
        forall|x: BlockId| out@.contains(x) <==> v@.contains(x),
{
    let mut out: Vec<BlockId> = Vec::new();
    let mut i: usize = 0;
    while i < v.len()
        invariant
            i <= v.len(),
            v@.no_duplicates(),
            out@.len() == i,
            ascending(out@),
            forall|x: BlockId| out@.contains(x) <==> v@.subrange(0, i as int).contains(x),
        decreases v.len() - i,
    {
        let x = v[i];
        let mut p: usize = 0;
        while p < out.len() && out[p].0 < x.0
            invariant
                p <= out.len(),
                forall|a: int| 0 <= a < p ==> out@[a].0 < x.0,
            decreases out.len() - p,
        {
            p = p + 1;
        }
        proof {
            assert(!v@.subrange(0, i as int).contains(x)) by {
                if v@.subrange(0, i as int).contains(x) {
                    let k = choose|k: int| 0 <= k < i && v@.subrange(0, i as int)[k] == x;
                    assert(v@[k] == v@[i as int]);
                }
            }
            if p < out.len() {
                if out@[p as int] == x {
                    assert(out@.contains(x));
                }
                assert(out@[p as int].0 != x.0);
            }
        }
        let ghost old_out = out@;
        out.insert(p, x);
        proof {
            assert(out@ == old_out.insert(p as int, x));
            assert forall|a: int, b: int| 0 <= a < b < out@.len() implies out@[a].0 < out@[b].0 by {
                if b < p {
                } else if b == p {
                } else if a < p {
                    assert(out@[b] == old_out[b - 1]);
                } else if a == p {
                    assert(out@[b] == old_out[b - 1]);
                    assert(old_out[p as int].0 <= old_out[b - 1].0);
                } else {
                    assert(out@[a] == old_out[a - 1] && out@[b] == old_out[b - 1]);
                }
            }
            let sub1 = v@.subrange(0, i as int);
            let sub2 = v@.subrange(0, i + 1);
            assert forall|y: BlockId| out@.contains(y) <==> sub2.contains(y) by {
                if out@.contains(y) {
                    let k = choose|k: int| 0 <= k < out@.len() && out@[k] == y;
                    if k < p {
                        assert(old_out[k] == y);
                        assert(old_out.contains(y));
                    } else if k > p {
                        assert(old_out[k - 1] == y);
                        assert(old_out.contains(y));
                    }
                    if y != x {
                        let m = choose|m: int| 0 <= m < sub1.len() && sub1[m] == y;
                        assert(sub2[m] == y);
                    } else {
                        assert(sub2[i as int] == y);
                    }
                }
                if sub2.contains(y) {
                    let m = choose|m: int| 0 <= m < sub2.len() && sub2[m] == y;
                    if m == i {
                        assert(out@[p as int] == y);
                    } else {
                        assert(sub1[m] == y);
                        assert(old_out.contains(y));
                        let k = choose|k: int| 0 <= k < old_out.len() && old_out[k] == y;
                        if k < p {
                            assert(out@[k] == y);
                        } else {
                            assert(out@[k + 1] == y);
                        }
                    }
                }
            }
        }
        i = i + 1;
    }
    assert(v@.subrange(0, v@.len() as int) =~= v@);
    out
}


/// Some block among the first `n` with id `id` is pure.
spec fn pure_within(blocks: Seq<BasicBlock>, n: int, id: BlockId) -> bool {
    exists|i: int| 0 <= i < n && #[trigger] pure_at(blocks, i, id)
}

/// Some effectful instruction with id `id` lies in the first `n` blocks, or
/// among the first `m` instructions of block `n`.
spec fn effectful_within(blocks: Seq<BasicBlock>, n: int, m: int, id: ValueId) -> bool {
    exists|i: int, k: int| (i < n || (i == n && k < m)) && #[trigger] effectful_at(blocks, i, k, id)
}

spec fn purity_of(b: BasicBlock) -> BlockPurity {
    if block_is_pure(b) {
        BlockPurity::Pure
    } else {
        BlockPurity::Effectful
    }
}

/// The pure block ids (each once), the effectful instruction ids (each
/// once), and the purity of every block.
fn classify_blocks(blocks: &Vec<BasicBlock>) -> (r: (
    Vec<BlockId>,
    Vec<ValueId>,
    Vec<(BlockId, BlockPurity)>,
))
    ensures
        r.0@.no_duplicates(),
        forall|id: BlockId| r.0@.contains(id) <==> is_pure_id(blocks@, id),
        r.1@.no_duplicates(),
        forall|id: ValueId| r.1@.contains(id) <==> is_effectful_id(blocks@, id),
        r.2@.len() == blocks@.len(),
        forall|i: int| 0 <= i < blocks@.len() ==> #[trigger] r.2@[i] == (blocks@[i].id, purity_of(blocks@[i])),
{
    let mut pure: Vec<BlockId> = Vec::new();
    let mut effectful: Vec<ValueId> = Vec::new();
    let mut effects: Vec<(BlockId, BlockPurity)> = Vec::new();
    let mut i: usize = 0;
    while i < blocks.len()
        invariant
            i <= blocks.len(),
            pure@.no_duplicates(),
            forall|id: BlockId| #![all_triggers] pure@.contains(id) <==> pure_within(blocks@, i as int, id),
            effectful@.no_duplicates(),
            forall|id: ValueId| #![all_triggers] effectful@.contains(id) <==> effectful_within(blocks@, i as int, 0, id),
            effects@.len() == i,
            forall|j: int| 0 <= j < i ==> #[trigger] effects@[j] == (blocks@[j].id, purity_of(blocks@[j])),
        decreases blocks.len() - i,
    {
        let block = &blocks[i];
        let mut k: usize = 0;
        while k < block.instructions.len()
            invariant
                i < blocks.len(),
                block == &blocks@[i as int],
                k <= block.instructions.len(),
                effectful@.no_duplicates(),
                forall|id: ValueId| #![all_triggers] effectful@.contains(id) <==> effectful_within(blocks@, i as int, k as int, id),
            decreases block.instructions.len() - k,
        {
            let inst = &block.instructions[k];
            let ghost before = effectful@;
            if inst_is_effectful(inst) && !contains_value(&effectful, inst.id) {
                effectful.push(inst.id);
            }
            proof {
                assert forall|id: ValueId| effectful@.contains(id) <==> effectful_within(blocks@, i as int, k + 1, id) by {
                    if inst_effectful(*inst) && id == inst.id {
                        assert(effectful_at(blocks@, i as int, k as int, id));
                        if !before.contains(id) {
                            assert(effectful@[before.len() as int] == id);
                        }
                    }
                    if effectful_within(blocks@, i as int, k + 1, id) {
                        let (a, b) = choose|a: int, b: int| (a < i || (a == i && b < k + 1)) && #[trigger] effectful_at(blocks@, a, b, id);
                        if a == i && b == k {
                            if before.contains(id) {
                                let w = choose|w: int| 0 <= w < before.len() && before[w] == id;
                                assert(effectful@[w] == id);
                            } else {
                                assert(effectful@[before.len() as int] == id);
                            }
                        } else {
                            assert(effectful_within(blocks@, i as int, k as int, id));
                            let w = choose|w: int| 0 <= w < before.len() && before[w] == id;
                            assert(effectful@[w] == id);
                        }
                    }
                    if effectful@.contains(id) {
                        let w = choose|w: int| 0 <= w < effectful@.len() && effectful@[w] == id;
                        if w < before.len() {
                            assert(before[w] == id);
                            assert(before.contains(id));
                            let (a, b) = choose|a: int, b: int| (a < i || (a == i && b < k)) && #[trigger] effectful_at(blocks@, a, b, id);
                            assert(effectful_at(blocks@, a, b, id));
                        } else {
                            assert(effectful_at(blocks@, i as int, k as int, id));
                        }
                    }
                }
            }
            k = k + 1;
        }
        proof {
            assert forall|id: ValueId| effectful_within(blocks@, i as int, k as int, id) <==> effectful_within(blocks@, i + 1, 0, id) by {
                if effectful_within(blocks@, i as int, k as int, id) {
                    let (a, b) = choose|a: int, b: int| (a < i || (a == i && b < k)) && #[trigger] effectful_at(blocks@, a, b, id);
                    assert(effectful_at(blocks@, a, b, id));
                }
                if effectful_within(blocks@, i + 1, 0, id) {
                    let (a, b) = choose|a: int, b: int| (a < i + 1 || (a == i + 1 && b < 0)) && #[trigger] effectful_at(blocks@, a, b, id);
                    assert(effectful_at(blocks@, a, b, id));
                }
            }
        }
        let is_pure = block_pure(block);
        let ghost before = pure@;
        if is_pure {
            if !contains_block(&pure, block.id) {
                pure.push(block.id);
            }
            effects.push((block.id, BlockPurity::Pure));
        } else {
            effects.push((block.id, BlockPurity::Effectful));
        }
        proof {
            assert forall|id: BlockId| pure@.contains(id) <==> pure_within(blocks@, i + 1, id) by {
                if is_pure && id == block.id {
                    assert(pure_at(blocks@, i as int, id));
                    if !before.contains(id) {
                        assert(pure@[before.len() as int] == id);
                    }
                }
                if pure_within(blocks@, i + 1, id) {
                    let a = choose|a: int| 0 <= a < i + 1 && #[trigger] pure_at(blocks@, a, id);
                    if a < i {
                        assert(pure_within(blocks@, i as int, id));
                        let w = choose|w: int| 0 <= w < before.len() && before[w] == id;
                        assert(pure@[w] == id);
                    } else if before.contains(id) {
                        let w = choose|w: int| 0 <= w < before.len() && before[w] == id;
                        assert(pure@[w] == id);
                    }
                }
                if pure@.contains(id) {
                    let w = choose|w: int| 0 <= w < pure@.len() && pure@[w] == id;
                    if w < before.len() {
                        assert(before[w] == id);
                        assert(before.contains(id));
                        let a = choose|a: int| 0 <= a < i && #[trigger] pure_at(blocks@, a, id);
                        assert(pure_at(blocks@, a, id));
                    } else {
                        assert(pure_at(blocks@, i as int, id));
                    }
                }
            }
        }
        i = i + 1;
    }
    proof {
        assert forall|id: BlockId| pure_within(blocks@, i as int, id) <==> is_pure_id(blocks@, id) by {
            if is_pure_id(blocks@, id) {
                let a = choose|a: int| #[trigger] pure_at(blocks@, a, id);
                assert(pure_at(blocks@, a, id));
            }
        }
        assert forall|id: ValueId| effectful_within(blocks@, i as int, 0, id) <==> is_effectful_id(blocks@, id) by {
            if is_effectful_id(blocks@, id) {
                let (a, b) = choose|a: int, b: int| #[trigger] effectful_at(blocks@, a, b, id);
                assert(effectful_at(blocks@, a, b, id));
            }
        }
    }
    (pure, effectful, effects)
}


// ---------------------------------------------------------------------------
// Regions
// ---------------------------------------------------------------------------

proof fn lemma_push_contains(s: Seq<BlockId>, v: BlockId, x: BlockId)
    ensures
        s.push(v).contains(x) <==> (x == v || s.contains(x)),
{
    if s.push(v).contains(x) {
        let w = choose|w: int| 0 <= w < s.len() + 1 && s.push(v)[w] == x;
        if w < s.len() {
            assert(s[w] == x);
        }
    }
    if x == v {
        assert(s.push(v)[s.len() as int] == x);
    }
    if s.contains(x) {
        let w = choose|w: int| 0 <= w < s.len() && s[w] == x;
        assert(s.push(v)[w] == x);
    }
}

proof fn lemma_no_dup_subset_len(a: Seq<BlockId>, b: Seq<BlockId>)
    requires
        a.no_duplicates(),
        forall|x: BlockId| a.contains(x) ==> b.contains(x),
    ensures
        a.len() <= b.len(),
{
    a.unique_seq_to_set();
    b.lemma_cardinality_of_set();
    vstd::seq_lib::seq_to_set_is_finite(b);
    assert(a.to_set().subset_of(b.to_set()));
    vstd::set_lib::lemma_len_subset(a.to_set(), b.to_set());
}

/// The bookkeeping of one depth-first search: `disc` lists the blocks
/// reached so far in the order they were reached, each either left already
/// (`region`) or still waiting (`stack`).
spec fn search_state(
    blocks: Seq<BasicBlock>,
    pure: Seq<BlockId>,
    root: BlockId,
    v_old: Seq<BlockId>,
    visited: Seq<BlockId>,
    stack: Seq<BlockId>,
    region: Seq<BlockId>,
    disc: Seq<BlockId>,
) -> bool {
    &&& visited == v_old + disc
    &&& visited.no_duplicates()
    &&& disc.len() > 0
    &&& disc[0] == root
    &&& spans(blocks, disc)
    &&& forall|x: BlockId| #![all_triggers] disc.contains(x) <==> (region.contains(x) || stack.contains(x))
    &&& region.no_duplicates()
    &&& stack.no_duplicates()
    &&& forall|x: BlockId| region.contains(x) ==> !stack.contains(x)
    &&& forall|x: BlockId| disc.contains(x) ==> pure.contains(x) && x.0 >= root.0
    &&& visited.len() <= pure.len()
}

/// Queues `y` when it is pure and not yet visited.
fn visit(y: BlockId, pure: &Vec<BlockId>, visited: &mut Vec<BlockId>, stack: &mut Vec<BlockId>) -> (pushed: bool)
    ensures
        pushed == (pure@.contains(y) && !old(visited)@.contains(y)),
        pushed ==> final(visited)@ == old(visited)@.push(y) && final(stack)@ == old(stack)@.push(y),
        !pushed ==> final(visited)@ == old(visited)@ && final(stack)@ == old(stack)@,
{
    if contains_block(pure, y) && !contains_block(visited, y) {
        visited.push(y);
        stack.push(y);
        true
    } else {
        false
    }
}

proof fn lemma_visit_step(
    blocks: Seq<BasicBlock>,
    pure: Seq<BlockId>,
    root: BlockId,
    v_old: Seq<BlockId>,
    visited: Seq<BlockId>,
    stack: Seq<BlockId>,
    region: Seq<BlockId>,
    disc: Seq<BlockId>,
    cur: BlockId,
    y: BlockId,
    pushed: bool,
    visited2: Seq<BlockId>,
    stack2: Seq<BlockId>,
) -> (disc2: Seq<BlockId>)
    requires
        search_state(blocks, pure, root, v_old, visited, stack, region, disc),
        pure.no_duplicates(),
        forall|x: BlockId| v_old.contains(x) ==> pure.contains(x),
        forall|z: BlockId| pure.contains(z) && z.0 < root.0 ==> v_old.contains(z),
        region.contains(cur),
        linked(blocks, cur, y),
        pushed == (pure.contains(y) && !visited.contains(y)),
        pushed ==> visited2 == visited.push(y) && stack2 == stack.push(y),
        !pushed ==> visited2 == visited && stack2 == stack,
    ensures
        search_state(blocks, pure, root, v_old, visited2, stack2, region, disc2),
        forall|z: BlockId| visited.contains(z) ==> visited2.contains(z),
        pure.contains(y) ==> visited2.contains(y),
        2 * (pure.len() - visited2.len()) + stack2.len() <= 2 * (pure.len() - visited.len())
            + stack.len(),
{
    broadcast use {
        vstd::seq_lib::lemma_seq_contains_after_push,
        vstd::seq_lib::lemma_seq_concat_contains_all_elements,
    };

    if pushed {
        let disc2 = disc.push(y);
        assert(disc.contains(cur));
        let j = choose|j: int| 0 <= j < disc.len() && disc[j] == cur;
        lemma_spans_push(blocks, disc, j, y);
        assert(visited2 =~= v_old + disc2);
        assert(visited2.no_duplicates()) by {
            assert forall|a: int, b: int| 0 <= a < b < visited2.len() implies visited2[a] != visited2[b] by {
                if b == visited2.len() - 1 {
                    assert(visited.contains(visited2[a]));
                }
            }
        }
        assert(stack2.no_duplicates()) by {
            assert forall|a: int, b: int| 0 <= a < b < stack2.len() implies stack2[a] != stack2[b] by {
                if b == stack2.len() - 1 {
                    assert(stack.contains(stack2[a]));
                    assert(disc.contains(stack2[a]));
                    assert(visited.contains(stack2[a]));
                }
            }
        }
        assert forall|x: BlockId| region.contains(x) implies !stack2.contains(x) by {
            if x == y {
                assert(disc.contains(x));
                assert(visited.contains(x));
            }
        }
        assert(!v_old.contains(y));
        assert(y.0 >= root.0);
        assert forall|x: BlockId| visited2.contains(x) implies pure.contains(x) by {
            if x != y && !v_old.contains(x) {
                assert(disc.contains(x));
            }
        }
        lemma_no_dup_subset_len(visited2, pure);
        assert(disc2[0] == root);
        disc2
    } else {
        disc
    }
}

/// Depth-first search from `root` through pure blocks not yet visited;
/// returns the blocks reached, each marked visited.
fn explore(blocks: &Vec<BasicBlock>, pure: &Vec<BlockId>, visited: &mut Vec<BlockId>, root: BlockId) -> (region: Vec<BlockId>)
    requires
        pure@.no_duplicates(),
        forall|id: BlockId| pure@.contains(id) <==> is_pure_id(blocks@, id),
        old(visited)@.no_duplicates(),
        forall|x: BlockId| old(visited)@.contains(x) ==> pure@.contains(x),
        closed(blocks@, old(visited)@),
        pure@.contains(root),
        !old(visited)@.contains(root),
        forall|z: BlockId| pure@.contains(z) && z.0 < root.0 ==> old(visited)@.contains(z),
    ensures
        final(visited)@.no_duplicates(),
        forall|x: BlockId| final(visited)@.contains(x) <==> (old(visited)@.contains(x) || region@.contains(x)),
        region@.no_duplicates(),
        forall|x: BlockId| region@.contains(x) ==> !old(visited)@.contains(x),
        forall|x: BlockId| region@.contains(x) ==> pure@.contains(x) && x.0 >= root.0,
        region@.contains(root),
        closed(blocks@, region@),
        connected(blocks@, region@),
{
    broadcast use {
        vstd::seq_lib::lemma_seq_contains_after_push,
        vstd::seq_lib::lemma_seq_concat_contains_all_elements,
    };

    let ghost v_old = visited@;
    visited.push(root);
    let mut stack: Vec<BlockId> = Vec::new();
    stack.push(root);
    let mut region: Vec<BlockId> = Vec::new();
    let ghost mut disc: Seq<BlockId> = seq![root];
    proof {
        assert(visited@ =~= v_old + disc);
        assert(disc.contains(root));
        lemma_no_dup_subset_len(visited@, pure@);
    }
    while stack.len() > 0
        invariant
            pure@.no_duplicates(),
            forall|id: BlockId| pure@.contains(id) <==> is_pure_id(blocks@, id),
            forall|x: BlockId| v_old.contains(x) ==> pure@.contains(x),
            closed(blocks@, v_old),
            forall|z: BlockId| pure@.contains(z) && z.0 < root.0 ==> v_old.contains(z),
            search_state(blocks@, pure@, root, v_old, visited@, stack@, region@, disc),
            forall|x: BlockId, y: BlockId|
                #![trigger region@.contains(x), linked(blocks@, x, y)]
                region@.contains(x) && is_pure_id(blocks@, y) && linked(blocks@, x, y) ==> visited@.contains(y),
        decreases 2 * (pure@.len() - visited@.len()) + stack@.len(),
    {
        let ghost m0 = 2 * (pure@.len() - visited@.len()) + stack@.len();
        let ghost stack0 = stack@;
        let cur = stack.pop().unwrap();
        let ghost region0 = region@;
        let ghost visited0 = visited@;
        region.push(cur);
        proof {
            assert(search_state(blocks@, pure@, root, v_old, visited0, stack0, region0, disc));
            assert(stack0 == stack@.push(cur));
            assert(stack0.contains(cur));
            assert(!region0.contains(cur));
            assert(region@.no_duplicates()) by {
                assert forall|a: int, b: int| 0 <= a < b < region@.len() implies region@[a] != region@[b] by {
                    if b == region@.len() - 1 {
                        assert(region0.contains(region@[a]));
                    }
                }
            }
            assert(stack@.no_duplicates()) by {
                assert forall|a: int, b: int| 0 <= a < b < stack@.len() implies stack@[a] != stack@[b] by {
                    assert(stack0[a] == stack@[a] && stack0[b] == stack@[b]);
                }
            }
            assert(region@ == region0.push(cur));
            assert forall|x: BlockId| disc.contains(x) <==> (region@.contains(x) || stack@.contains(x)) by {
                assert(stack0.contains(x) == stack@.push(cur).contains(x));
                assert(region@.contains(x) == region0.push(cur).contains(x));
                assert(disc.contains(x) <==> (region0.contains(x) || stack0.contains(x)));
                lemma_push_contains(stack@, cur, x);
                lemma_push_contains(region0, cur, x);
            }
            assert forall|x: BlockId, y: BlockId|
                #![trigger region@.contains(x), linked(blocks@, x, y)]
                region@.contains(x) && x != cur && is_pure_id(blocks@, y) && linked(blocks@, x, y) implies visited@.contains(y) by {
                lemma_push_contains(region0, cur, x);
                assert(region0.contains(x));
            }
            assert forall|x: BlockId| region@.contains(x) implies !stack@.contains(x) by {
                if stack@.contains(x) {
                    let w = choose|w: int| 0 <= w < stack@.len() && stack@[w] == x;
                    assert(stack0[w] == x);
                    if x == cur {
                        assert(stack0[stack0.len() - 1] == cur);
                    } else {
                        lemma_push_contains(region0, cur, x);
                        assert(region0.contains(x));
                        assert(stack0.contains(x));
                    }
                }
            }
        }
        let mut k: usize = 0;
        while k < blocks.len()
            invariant
                pure@.no_duplicates(),
                forall|id: BlockId| pure@.contains(id) <==> is_pure_id(blocks@, id),
                forall|z: BlockId| pure@.contains(z) && z.0 < root.0 ==> v_old.contains(z),
                forall|x: BlockId| v_old.contains(x) ==> pure@.contains(x),
                search_state(blocks@, pure@, root, v_old, visited@, stack@, region@, disc),
                region@.contains(cur),
                k <= blocks.len(),
                forall|x: BlockId, y: BlockId|
                    #![trigger region@.contains(x), linked(blocks@, x, y)]
                    region@.contains(x) && x != cur && is_pure_id(blocks@, y) && linked(blocks@, x, y) ==> visited@.contains(y),
                forall|y: BlockId|
                    #![trigger linked_within(blocks@, k as int, cur, y)]
                    pure@.contains(y) && linked_within(blocks@, k as int, cur, y) ==> visited@.contains(y),
                2 * (pure@.len() - visited@.len()) + stack@.len() < m0,
            decreases blocks.len() - k,
        {
            let b = &blocks[k];
            let ghost visited_k = visited@;
            if b.id == cur {
                match &b.terminator {
                    Terminator::Branch { then_block, else_block, .. } => {
                        let ghost (v1, s1) = (visited@, stack@);
                        let pushed = visit(*then_block, pure, visited, &mut stack);
                        proof {
                            assert(edge_at(blocks@, k as int, cur, *then_block));
                            disc = lemma_visit_step(blocks@, pure@, root, v_old, v1, s1, region@, disc, cur, *then_block, pushed, visited@, stack@);
                        }
                        let ghost (v2, s2) = (visited@, stack@);
                        let pushed = visit(*else_block, pure, visited, &mut stack);
                        proof {
                            assert(edge_at(blocks@, k as int, cur, *else_block));
                            disc = lemma_visit_step(blocks@, pure@, root, v_old, v2, s2, region@, disc, cur, *else_block, pushed, visited@, stack@);
                        }
                    },
                    Terminator::Jump(t) => {
                        let ghost (v1, s1) = (visited@, stack@);
                        let pushed = visit(*t, pure, visited, &mut stack);
                        proof {
                            assert(edge_at(blocks@, k as int, cur, *t));
                            disc = lemma_visit_step(blocks@, pure@, root, v_old, v1, s1, region@, disc, cur, *t, pushed, visited@, stack@);
                        }
                    },
                    Terminator::Return(_) => {},
                }
            }
            if targets_block(&b.terminator, cur) {
                let ghost (v1, s1) = (visited@, stack@);
                let pushed = visit(b.id, pure, visited, &mut stack);
                proof {
                    assert(edge_at(blocks@, k as int, cur, b.id));
                    disc = lemma_visit_step(blocks@, pure@, root, v_old, v1, s1, region@, disc, cur, b.id, pushed, visited@, stack@);
                }
            }
            assert(forall|x: BlockId| visited_k.contains(x) ==> visited@.contains(x));
            proof {
                assert forall|y: BlockId| pure@.contains(y) && linked_within(blocks@, k + 1, cur, y) implies visited@.contains(y) by {
                    let i = choose|i: int| 0 <= i < k + 1 && #[trigger] edge_at(blocks@, i, cur, y);
                    if i < k {
                        assert(linked_within(blocks@, k as int, cur, y));
                        assert(visited_k.contains(y));
                    }
                }
            }
            k = k + 1;
        }
        proof {
            assert forall|x: BlockId, y: BlockId|
                #![trigger region@.contains(x), linked(blocks@, x, y)]
                region@.contains(x) && is_pure_id(blocks@, y) && linked(blocks@, x, y) implies visited@.contains(y) by {
                if x == cur {
                    let i = choose|i: int| #[trigger] edge_at(blocks@, i, x, y);
                    assert(linked_within(blocks@, k as int, cur, y));
                }
            }
        }
    }
    proof {
        assert forall|x: BlockId| region@.contains(x) implies !v_old.contains(x) by {
            assert(disc.contains(x));
            let w = choose|w: int| 0 <= w < disc.len() && disc[w] == x;
            assert(visited@[v_old.len() + w] == x);
            if v_old.contains(x) {
                let u = choose|u: int| 0 <= u < v_old.len() && v_old[u] == x;
                assert(visited@[u] == x);
            }
        }
        assert forall|x: BlockId, y: BlockId|
            #![trigger region@.contains(x), linked(blocks@, x, y)]
            region@.contains(x) && is_pure_id(blocks@, y) && linked(blocks@, x, y) implies region@.contains(y) by {
            assert(visited@.contains(y));
            if v_old.contains(y) {
                lemma_linked_symmetric(blocks@, x, y);
                assert(v_old.contains(x));
            }
            assert(disc.contains(y));
        }
        assert(disc.contains(root));
        assert(spans(blocks@, disc));
        assert forall|x: BlockId| disc.contains(x) <==> region@.contains(x) by {}
    }
    region
}


spec fn region_views(regions: Seq<Vec<BlockId>>) -> Seq<Seq<BlockId>> {
    regions.map_values(|r: Vec<BlockId>| r@)
}

/// The regions found so far partition `visited`.
spec fn partial_regions(blocks: Seq<BasicBlock>, regions: Seq<Seq<BlockId>>, visited: Seq<BlockId>) -> bool {
    &&& forall|r: int|
        0 <= r < regions.len() ==> {
            &&& (#[trigger] regions[r]).len() > 0
            &&& ascending(regions[r])
            &&& closed(blocks, regions[r])
            &&& connected(blocks, regions[r])
        }
    &&& forall|r: int, x: BlockId|
        0 <= r < regions.len() && (#[trigger] regions[r].contains(x)) ==> visited.contains(x)
    &&& forall|x: BlockId|
        #[trigger] visited.contains(x) ==> exists|r: int|
            0 <= r < regions.len() && #[trigger] regions[r].contains(x)
    &&& forall|r1: int, r2: int, x: BlockId|
        0 <= r1 < r2 < regions.len() && #[trigger] regions[r1].contains(x) ==> !(
        #[trigger] regions[r2].contains(x))
    &&& forall|r1: int, r2: int|
        0 <= r1 < r2 < regions.len() ==> (#[trigger] regions[r1])[0].0 < (
        #[trigger] regions[r2])[0].0
}

/// The connected groups of the pure blocks `pure`.
fn pure_regions(blocks: &Vec<BasicBlock>, pure: &Vec<BlockId>) -> (regions: Vec<Vec<BlockId>>)
    requires
        pure@.no_duplicates(),
        forall|id: BlockId| pure@.contains(id) <==> is_pure_id(blocks@, id),
    ensures
        are_pure_regions(blocks@, region_views(regions@)),
{
    broadcast use {
        vstd::seq_lib::lemma_seq_contains_after_push,
        vstd::seq_lib::lemma_seq_concat_contains_all_elements,
    };

    let roots = sort_ids(pure);
    let mut visited: Vec<BlockId> = Vec::new();
    let mut regions: Vec<Vec<BlockId>> = Vec::new();
    let mut s: usize = 0;
    proof {
        assert forall|z: BlockId| pure@.contains(z) && 0 < roots@.len() implies !(z.0 < roots@[0].0) by {
            assert(roots@.contains(z));
            let t = choose|t: int| 0 <= t < roots@.len() && roots@[t] == z;
            if t > 0 {
                assert(roots@[0].0 < roots@[t].0);
            }
        }
        assert(region_views(regions@) =~= Seq::<Seq<BlockId>>::empty());
    }
    while s < roots.len()
        invariant
            pure@.no_duplicates(),
            forall|id: BlockId| pure@.contains(id) <==> is_pure_id(blocks@, id),
            roots@.len() == pure@.len(),
            ascending(roots@),
            forall|x: BlockId| roots@.contains(x) <==> pure@.contains(x),
            s <= roots.len(),
            visited@.no_duplicates(),
            forall|x: BlockId| visited@.contains(x) ==> pure@.contains(x),
            closed(blocks@, visited@),
            forall|t: int| 0 <= t < s ==> visited@.contains(#[trigger] roots@[t]),
            forall|z: BlockId|
                pure@.contains(z) && s < roots.len() && z.0 < roots@[s as int].0 ==> visited@.contains(z),
            partial_regions(blocks@, region_views(regions@), visited@),
            forall|r: int, t: int|
                0 <= r < regions@.len() && s <= t < roots@.len() ==> (#[trigger] region_views(regions@)[r])[0].0 < (#[trigger] roots@[t]).0,
        decreases roots.len() - s,
    {
        let root = roots[s];
        let ghost v0 = visited@;
        let ghost g0 = region_views(regions@);
        proof {
            assert(roots@.contains(root));
        }
        if !contains_block(&visited, root) {
            let region = explore(blocks, pure, &mut visited, root);
            let sorted = sort_ids(&region);
            proof {
                // The root is the smallest block of its region.
                assert(sorted@.contains(root));
                assert(sorted@[0] == root) by {
                    let p = choose|p: int| 0 <= p < sorted@.len() && sorted@[p] == root;
                    assert(sorted@.contains(sorted@[0]));
                    assert(region@.contains(sorted@[0]));
                    if p > 0 {
                        assert(sorted@[0].0 < sorted@[p].0);
                    }
                }
                assert(closed(blocks@, sorted@)) by {
                    assert forall|x: BlockId, y: BlockId|
                        #![trigger sorted@.contains(x), linked(blocks@, x, y)]
                        sorted@.contains(x) && is_pure_id(blocks@, y) && linked(blocks@, x, y) implies sorted@.contains(y) by {
                        assert(region@.contains(x));
                    }
                }
                assert(connected(blocks@, sorted@)) by {
                    let order = choose|order: Seq<BlockId>|
                        #![trigger spans(blocks@, order)]
                        order.len() > 0 && spans(blocks@, order) && forall|x: BlockId|
                            order.contains(x) <==> region@.contains(x);
                    assert(order.len() > 0 && spans(blocks@, order) && forall|x: BlockId|
                            order.contains(x) <==> sorted@.contains(x));
                }
            }
            regions.push(sorted);
            proof {
                let g1 = region_views(regions@);
                assert(g1 =~= g0.push(sorted@));
                assert forall|r: int, x: BlockId|
                    0 <= r < g1.len() && (#[trigger] g1[r].contains(x)) implies visited@.contains(x) by {
                    if r < g0.len() {
                        assert(g0[r].contains(x));
                        assert(v0.contains(x));
                    } else {
                        assert(region@.contains(x));
                    }
                }
                assert forall|x: BlockId| #[trigger] visited@.contains(x) implies exists|r: int|
                    0 <= r < g1.len() && #[trigger] g1[r].contains(x) by {
                    if v0.contains(x) {
                        let r = choose|r: int| 0 <= r < g0.len() && #[trigger] g0[r].contains(x);
                        assert(g1[r] == g0[r]);
                    } else {
                        assert(region@.contains(x));
                        assert(g1[g0.len() as int] == sorted@);
                        assert(g1[g0.len() as int].contains(x));
                    }
                }
                assert forall|r1: int, r2: int, x: BlockId|
                    0 <= r1 < r2 < g1.len() && #[trigger] g1[r1].contains(x) implies !(#[trigger] g1[r2].contains(x)) by {
                    if r2 == g0.len() {
                        assert(g0[r1].contains(x));
                        assert(v0.contains(x));
                        if sorted@.contains(x) {
                            assert(region@.contains(x));
                        }
                    } else {
                        assert(g0[r1].contains(x));
                    }
                }
                assert forall|r1: int, r2: int| 0 <= r1 < r2 < g1.len() implies (#[trigger] g1[r1])[0].0 < (#[trigger] g1[r2])[0].0 by {
                    if r2 == g0.len() {
                        assert(g0[r1][0].0 < roots@[s as int].0);
                    } else {
                        assert(g1[r1] == g0[r1] && g1[r2] == g0[r2]);
                    }
                }
                assert forall|r: int| 0 <= r < g1.len() implies {
                    &&& (#[trigger] g1[r]).len() > 0
                    &&& ascending(g1[r])
                    &&& closed(blocks@, g1[r])
                    &&& connected(blocks@, g1[r])
                } by {
                    if r < g0.len() {
                        assert(g1[r] == g0[r]);
                    }
                }
                assert forall|x: BlockId, y: BlockId|
                    #![trigger visited@.contains(x), linked(blocks@, x, y)]
                    visited@.contains(x) && is_pure_id(blocks@, y) && linked(blocks@, x, y) implies visited@.contains(y) by {
                    if v0.contains(x) {
                        assert(v0.contains(y));
                    } else {
                        assert(region@.contains(x));
                        assert(region@.contains(y));
                    }
                }
                assert forall|r: int, t: int|
                    0 <= r < regions@.len() && s + 1 <= t < roots@.len() implies (#[trigger] g1[r])[0].0 < (#[trigger] roots@[t]).0 by {
                    if r < g0.len() {
                        assert(g1[r] == g0[r]);
                        assert(g0[r][0].0 < roots@[t].0);
                    } else {
                        assert(roots@[s as int].0 < roots@[t].0);
                    }
                }
            }
        }
        proof {
            assert forall|z: BlockId|
                pure@.contains(z) && s + 1 < roots.len() && z.0 < roots@[s + 1].0 implies visited@.contains(z) by {
                assert(roots@.contains(z));
                let t = choose|t: int| 0 <= t < roots@.len() && roots@[t] == z;
                if t > s + 1 {
                    assert(roots@[s + 1].0 < roots@[t].0);
                }
                if t < s {
                    assert(v0.contains(roots@[t]));
                } else if t == s {
                } else {
                    assert(false);
                }
                assert(v0.contains(z) || z == root);
            }
        }
        s = s + 1;
    }
    proof {
        let g = region_views(regions@);
        assert forall|x: BlockId| #[trigger] is_pure_id(blocks@, x) implies exists|r: int|
            0 <= r < g.len() && #[trigger] g[r].contains(x) by {
            assert(roots@.contains(x));
            let t = choose|t: int| 0 <= t < roots@.len() && roots@[t] == x;
            assert(visited@.contains(roots@[t]));
        }
    }
    regions
}

impl PurityReport {
    /// Whether some block with id `id` is pure.
    pub fn is_block_pure(&self, id: BlockId) -> (r: bool)
        ensures
            r == self.pure_blocks@.contains(id),
    {
        contains_block(&self.pure_blocks, id)
    }

    /// Whether the instruction with id `id` is effectful.
    pub fn is_instruction_effectful(&self, id: ValueId) -> (r: bool)
        ensures
            r == self.effectful_instructions@.contains(id),
    {
        contains_value(&self.effectful_instructions, id)
    }

    /// The pure regions.
    pub fn regions(&self) -> (r: &Vec<Vec<BlockId>>)
        ensures
            r == &self.pure_regions,
    {
        &self.pure_regions
    }
}

/// Classifies the instructions and blocks of `function` and groups its pure
/// blocks into connected regions.
pub fn analyze_function_purity(function: &Function) -> (report: PurityReport)
    ensures
        reports(function.blocks@, report),
{
    let (pure, effectful, effects) = classify_blocks(&function.blocks);
    let regions = pure_regions(&function.blocks, &pure);
    let report = PurityReport {
        pure_blocks: pure,
        effectful_instructions: effectful,
        pure_regions: regions,
        block_effects: effects,
    };
    proof {
        assert(region_views(report.pure_regions@) == report.pure_regions@.map_values(|r: Vec<BlockId>| r@));
    }
    report
}

} // verus!
