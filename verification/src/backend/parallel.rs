//! What a parallel compile of several modules reports: per-module timings,
//! per-worker totals and the order in which modules were dispatched. The
//! threads that compile are the driver's; this module assembles their
//! records. Durations and offsets are in nanoseconds.
use vstd::prelude::*;

use crate::ir::Module;
use crate::text::{copy_string, join, push_joined, push_str, views};

verus! {

/// The outputs of a parallel compile, in module order, and its metrics.
#[derive(Debug)]
pub struct ParallelCompileReport<T> {
    pub outputs: Vec<T>,
    pub metrics: ParallelCompileMetrics,
}

/// Timings of a parallel compile.
#[derive(Debug)]
pub struct ParallelCompileMetrics {
    /// Wall time of the whole compile.
    pub total_duration: u128,
    /// One entry per module, in module order.
    pub modules: Vec<ModuleCompileMetrics>,
    pub worker_count: usize,
    pub scheduled_modules: usize,
    /// One entry per worker, by worker index.
    pub worker_metrics: Vec<WorkerMetrics>,
    /// The modules by dispatch time.
    pub schedule: Vec<ScheduleEntry>,
}

/// How one module was compiled.
#[derive(Debug)]
pub struct ModuleCompileMetrics {
    pub module: String,
    pub duration: u128,
    pub worker_index: usize,
    /// Time from the start of the compile to the module's dispatch.
    pub start_offset: u128,
}

/// What one worker did.
#[derive(Debug)]
pub struct WorkerMetrics {
    pub worker_index: usize,
    pub processed_modules: usize,
    pub busy_duration: u128,
}

/// When and where a module was dispatched.
#[derive(Debug)]
pub struct ScheduleEntry {
    pub module: String,
    pub worker_index: usize,
    pub start_offset: u128,
}

/// What a worker recorded for one module it compiled.
#[derive(Debug, Clone, Copy)]
pub struct ModuleRecord {
    pub worker_index: usize,
    pub duration: u128,
    pub start_offset: u128,
}

impl ParallelCompileMetrics {
    /// The metrics of a compile of no module.
    pub fn empty() -> (m: ParallelCompileMetrics)
        ensures
            m.total_duration == 0,
            m.modules@.len() == 0,
            m.worker_count == 0,
            m.scheduled_modules == 0,
            m.worker_metrics@.len() == 0,
            m.schedule@.len() == 0,
    {
        ParallelCompileMetrics {
            total_duration: 0,
            modules: Vec::new(),
            worker_count: 0,
            scheduled_modules: 0,
            worker_metrics: Vec::new(),
            schedule: Vec::new(),
        }
    }
}

/// The label of a module in the metrics: its path joined by `::`, or
/// `<root>` for the empty path.
pub open spec fn label_of(path: Seq<Seq<char>>) -> Seq<char> {
    if path.len() == 0 {
        "<root>"@
    } else {
        join(path, "::"@)
    }
}

/// The label of a module in the metrics.
pub fn module_label(name: &Vec<String>) -> (s: String)
    ensures
        s@ == label_of(views(name@)),
{
    let mut s = String::new();
    if name.len() == 0 {
        push_str(&mut s, "<root>");
    } else {
        push_joined(&mut s, name, "::");
    }
    assert(s@ =~= label_of(views(name@)));
    s
}

/// A schedule entry as (label, worker, offset).
pub type Slot = (Seq<char>, usize, u128);

/// `x` placed after every entry dispatched no later than it.
pub open spec fn insert_slot(s: Seq<Slot>, x: Slot) -> Seq<Slot>
    decreases s.len(),
{
    if s.len() == 0 {
        seq![x]
    } else if x.2 < s[0].2 {
        seq![x] + s
    } else {
        seq![s[0]] + insert_slot(s.drop_first(), x)
    }
}

/// The entries ordered by dispatch time; entries dispatched at the same
/// time keep their order.
pub open spec fn sort_slots(s: Seq<Slot>) -> Seq<Slot>
    decreases s.len(),
{
    if s.len() == 0 {
        Seq::empty()
    } else {
        insert_slot(sort_slots(s.drop_last()), s.last())
    }
}

/// Entries in non-decreasing order of dispatch time.
pub open spec fn by_offset(s: Seq<Slot>) -> bool {
    forall|a: int, b: int| 0 <= a < b < s.len() ==> s[a].2 <= s[b].2
}

proof fn lemma_insert_slot_at(s: Seq<Slot>, x: Slot, p: int)
    requires
        0 <= p <= s.len(),
        forall|k: int| 0 <= k < p ==> !(x.2 < s[k].2),
        p < s.len() ==> x.2 < s[p].2,
    ensures
        insert_slot(s, x) == s.insert(p, x),
    decreases s.len(),
{
    if s.len() == 0 {
        assert(s.insert(p, x) =~= seq![x]);
    } else if p == 0 {
        assert(s.insert(0, x) =~= seq![x] + s);
    } else {
        let d = s.drop_first();
        assert forall|k: int| 0 <= k < p - 1 implies !(x.2 < d[k].2) by {
            assert(d[k] == s[k + 1]);
        }
        lemma_insert_slot_at(d, x, p - 1);
        assert(s.insert(p, x) =~= seq![s[0]] + d.insert(p - 1, x));
    }
}

proof fn lemma_insert_slot_sorted(s: Seq<Slot>, x: Slot)
    requires
        by_offset(s),
    ensures
        by_offset(insert_slot(s, x)),
        insert_slot(s, x).len() == s.len() + 1,
        insert_slot(s, x).to_multiset() == s.to_multiset().insert(x),
    decreases s.len(),
{
    broadcast use vstd::seq_lib::group_to_multiset_ensures;
    if s.len() == 0 {
        assert(insert_slot(s, x) =~= seq![x]);
        assert(seq![x] =~= Seq::<Slot>::empty().push(x));
    } else if x.2 < s[0].2 {
        let r = seq![x] + s;
        assert(r =~= s.insert(0, x));
        s.to_multiset_ensures();
        vstd::seq_lib::lemma_seq_union_to_multiset_commutative(seq![x], s);
        vstd::seq_lib::lemma_multiset_commutative(seq![x], s);
        assert(seq![x] =~= Seq::<Slot>::empty().push(x));
    } else {
        let d = s.drop_first();
        assert(by_offset(d)) by {
            assert forall|a: int, b: int| 0 <= a < b < d.len() implies d[a].2 <= d[b].2 by {
                assert(d[a] == s[a + 1] && d[b] == s[b + 1]);
            }
        }
        lemma_insert_slot_sorted(d, x);
        let r = seq![s[0]] + insert_slot(d, x);
        let i = insert_slot(d, x);
        assert forall|a: int, b: int| 0 <= a < b < r.len() implies r[a].2 <= r[b].2 by {
            if a == 0 {
                if b - 1 < i.len() {
                    let e = i[b - 1];
                    assert(i.to_multiset().count(e) > 0);
                    assert(d.to_multiset().insert(x).count(e) > 0);
                    if e != x {
                        assert(d.to_multiset().count(e) > 0);
                        assert(d.contains(e));
                        let w = choose|w: int| 0 <= w < d.len() && d[w] == e;
                        assert(s[w + 1] == e);
                    }
                }
            } else {
                assert(r[a] == i[a - 1] && r[b] == i[b - 1]);
            }
        }
        vstd::seq_lib::lemma_multiset_commutative(seq![s[0]], i);
        vstd::seq_lib::lemma_multiset_commutative(seq![s[0]], d);
        assert(s =~= seq![s[0]] + d);
        assert(seq![s[0]] =~= Seq::<Slot>::empty().push(s[0]));
    }
}

/// The schedule sorts its entries by dispatch time, keeps every entry and
/// only those.
pub proof fn lemma_sort_slots(s: Seq<Slot>)
    ensures
        by_offset(sort_slots(s)),
        sort_slots(s).len() == s.len(),
        sort_slots(s).to_multiset() == s.to_multiset(),
    decreases s.len(),
{
    broadcast use vstd::seq_lib::group_to_multiset_ensures;
    if s.len() > 0 {
        lemma_sort_slots(s.drop_last());
        lemma_insert_slot_sorted(sort_slots(s.drop_last()), s.last());
        assert(s =~= s.drop_last().push(s.last()));
    }
}

/// The slot of each module: its label, the worker that compiled it and its
/// dispatch offset.
pub open spec fn slots(labels: Seq<Seq<char>>, records: Seq<ModuleRecord>) -> Seq<Slot> {
    Seq::new(records.len(), |i: int| (labels[i], records[i].worker_index, records[i].start_offset))
}

/// How many of `records` worker `w` compiled.
pub open spec fn processed_by(records: Seq<ModuleRecord>, w: int) -> nat
    decreases records.len(),
{
    if records.len() == 0 {
        0
    } else {
        processed_by(records.drop_last(), w) + if records.last().worker_index == w {
            1nat
        } else {
            0nat
        }
    }
}

/// The time worker `w` spent compiling, saturating at `u128::MAX`.
pub open spec fn busy_of(records: Seq<ModuleRecord>, w: int) -> u128
    decreases records.len(),
{
    if records.len() == 0 {
        0
    } else {
        let before = busy_of(records.drop_last(), w);
        if records.last().worker_index == w {
            if before + records.last().duration > u128::MAX {
                u128::MAX
            } else {
                (before + records.last().duration) as u128
            }
        } else {
            before
        }
    }
}

/// The schedule entries as slots.
pub open spec fn schedule_slots(s: Seq<ScheduleEntry>) -> Seq<Slot> {
    s.map_values(|e: ScheduleEntry| (e.module@, e.worker_index, e.start_offset))
}

/// The modules are assembled from the records: each module's label, worker,
/// duration and offset; the schedule sorted by offset; per worker the number
/// of modules and the time it compiled.
pub open spec fn assembled(
    m: ParallelCompileMetrics,
    labels: Seq<Seq<char>>,
    records: Seq<ModuleRecord>,
    worker_count: usize,
    total: u128,
) -> bool {
    &&& m.total_duration == total
    &&& m.worker_count == worker_count
    &&& m.scheduled_modules == records.len()
    &&& m.modules@.len() == records.len()
    &&& forall|i: int|
        0 <= i < records.len() ==> {
            &&& (#[trigger] m.modules@[i]).module@ == labels[i]
            &&& m.modules@[i].duration == records[i].duration
            &&& m.modules@[i].worker_index == records[i].worker_index
            &&& m.modules@[i].start_offset == records[i].start_offset
        }
    &&& schedule_slots(m.schedule@) == sort_slots(slots(labels, records))
    &&& m.worker_metrics@.len() == worker_count
    &&& forall|w: int|
        0 <= w < worker_count ==> {
            &&& (#[trigger] m.worker_metrics@[w]).worker_index == w
            &&& m.worker_metrics@[w].processed_modules == processed_by(records, w)
            &&& m.worker_metrics@[w].busy_duration == busy_of(records, w)
        }
}

/// Assembles the metrics of a compile of `modules`, given what the workers
/// recorded for each of them (in module order), the number of workers and
/// the total time.
pub fn assemble_metrics(modules: &Vec<Module>, records: &Vec<ModuleRecord>, worker_count: usize, total: u128) -> (m: ParallelCompileMetrics)
    requires
        records.len() == modules.len(),
    ensures
        assembled(m, modules@.map_values(|md: Module| label_of(views(md.name@))), records@, worker_count, total),
{
    let ghost labels = modules@.map_values(|md: Module| label_of(views(md.name@)));
    let mut module_metrics: Vec<ModuleCompileMetrics> = Vec::new();
    let mut schedule: Vec<ScheduleEntry> = Vec::new();
    let mut i: usize = 0;
    while i < records.len()
        invariant
            i <= records.len(),
            records.len() == modules.len(),
            labels == modules@.map_values(|md: Module| label_of(views(md.name@))),
            module_metrics@.len() == i,
            forall|k: int|
                0 <= k < i ==> {
                    &&& (#[trigger] module_metrics@[k]).module@ == labels[k]
                    &&& module_metrics@[k].duration == records@[k].duration
                    &&& module_metrics@[k].worker_index == records@[k].worker_index
                    &&& module_metrics@[k].start_offset == records@[k].start_offset
                },
            schedule_slots(schedule@) == sort_slots(slots(labels, records@).take(i as int)),
        decreases records.len() - i,
    {
        let label = module_label(&modules[i].name);
        let r = records[i];
        let ghost before = schedule_slots(schedule@);
        let ghost all = slots(labels, records@);
        proof {
            lemma_sort_slots(all.take(i as int));
        }
        let mut p: usize = 0;
        while p < schedule.len() && !(r.start_offset < schedule[p].start_offset)
            invariant
                p <= schedule.len(),
                before == schedule_slots(schedule@),
                forall|k: int| 0 <= k < p ==> !(r.start_offset < before[k].2),
            decreases schedule.len() - p,
        {
            p = p + 1;
        }
        proof {
            lemma_insert_slot_at(before, (labels[i as int], r.worker_index, r.start_offset), p as int);
        }
        schedule.insert(p, ScheduleEntry { module: copy_string(&label), worker_index: r.worker_index, start_offset: r.start_offset });
        module_metrics.push(ModuleCompileMetrics { module: label, duration: r.duration, worker_index: r.worker_index, start_offset: r.start_offset });
        proof {
            assert(schedule_slots(schedule@) =~= before.insert(p as int, (labels[i as int], r.worker_index, r.start_offset)));
            let t = all.take(i + 1);
            assert(t.drop_last() =~= all.take(i as int));
            assert(t.last() == (labels[i as int], r.worker_index, r.start_offset));
        }
        i = i + 1;
    }
    assert(slots(labels, records@).take(records.len() as int) =~= slots(labels, records@));
    let mut worker_metrics: Vec<WorkerMetrics> = Vec::new();
    let mut w: usize = 0;
    while w < worker_count
        invariant
            w <= worker_count,
            worker_metrics@.len() == w,
            forall|k: int|
                0 <= k < w ==> {
                    &&& (#[trigger] worker_metrics@[k]).worker_index == k
                    &&& worker_metrics@[k].processed_modules == processed_by(records@, k)
                    &&& worker_metrics@[k].busy_duration == busy_of(records@, k)
                },
        decreases worker_count - w,
    {
        let mut processed: usize = 0;
        let mut busy: u128 = 0;
        let mut k: usize = 0;
        while k < records.len()
            invariant
                k <= records.len(),
                processed == processed_by(records@.take(k as int), w as int),
                processed <= k,
                busy == busy_of(records@.take(k as int), w as int),
            decreases records.len() - k,
        {
            assert(records@.take(k + 1).drop_last() =~= records@.take(k as int));
            if records[k].worker_index == w {
                processed = processed + 1;
                busy = busy.saturating_add(records[k].duration);
            }
            k = k + 1;
        }
        assert(records@.take(records.len() as int) =~= records@);
        worker_metrics.push(WorkerMetrics { worker_index: w, processed_modules: processed, busy_duration: busy });
        w = w + 1;
    }
    ParallelCompileMetrics {
        total_duration: total,
        modules: module_metrics,
        worker_count,
        scheduled_modules: records.len(),
        worker_metrics,
        schedule,
    }
}

/// Every module is counted once among the workers that compiled it: when
/// every record names a worker below `worker_count`, the processed counts
/// add up to the number of modules.
pub proof fn lemma_processed_total(records: Seq<ModuleRecord>, worker_count: nat)
    requires
        forall|i: int| 0 <= i < records.len() ==> (#[trigger] records[i]).worker_index < worker_count,
    ensures
        total_processed(records, worker_count) == records.len(),
    decreases records.len(),
{
    if records.len() > 0 {
        let d = records.drop_last();
        assert forall|i: int| 0 <= i < d.len() implies (#[trigger] d[i]).worker_index < worker_count by {
            assert(d[i] == records[i]);
        }
        lemma_processed_total(d, worker_count);
        assert(records[records.len() - 1] == records.last());
        lemma_total_step(records, worker_count);
    } else {
        lemma_total_empty(records, worker_count);
    }
}

proof fn lemma_total_empty(records: Seq<ModuleRecord>, n: nat)
    requires
        records.len() == 0,
    ensures
        total_processed(records, n) == 0,
    decreases n,
{
    if n > 0 {
        lemma_total_empty(records, (n - 1) as nat);
    }
}

/// The sum of the processed counts of workers `0..n`.
pub open spec fn total_processed(records: Seq<ModuleRecord>, n: nat) -> nat
    decreases n,
{
    if n == 0 {
        0
    } else {
        total_processed(records, (n - 1) as nat) + processed_by(records, n - 1)
    }
}

proof fn lemma_total_step(records: Seq<ModuleRecord>, n: nat)
    requires
        records.len() > 0,
        records.last().worker_index < n,
    ensures
        total_processed(records, n) == total_processed(records.drop_last(), n) + 1,
    decreases n,
{
    if n > 0 {
        if records.last().worker_index < n - 1 {
            lemma_total_step(records, (n - 1) as nat);
        } else {
            lemma_total_same(records, (n - 1) as nat);
        }
    }
}

proof fn lemma_total_same(records: Seq<ModuleRecord>, n: nat)
    requires
        records.len() > 0,
        records.last().worker_index >= n,
    ensures
        total_processed(records, n) == total_processed(records.drop_last(), n),
    decreases n,
{
    if n > 0 {
        lemma_total_same(records, (n - 1) as nat);
    }
}

} // verus!
