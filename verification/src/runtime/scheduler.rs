//! The scheduler: registered providers, a FIFO queue of tasks, and the
//! execution of task plans.
use vstd::prelude::*;

use super::providers::{
    answer_view, clock_step, console_step, echo_answer, env_step, fs_step, net_answer, process_step,
    SpecAnswer, ConsoleProvider, DeterministicConsoleProvider, DeterministicEnvProvider,
    DeterministicProcessProvider, DeterministicTimeProvider, InMemoryFilesystemProvider,
    NetworkProvider,
};
use super::store::StrMap;
use super::{
    string_payload, cap_event_views, event_views, op_views, plan_size, CapabilityEvent, CapabilityInvocation,
    ProviderResponse, RuntimeError, RuntimeEvent, SpecCapabilityEvent, SpecErrorKind, SpecEvent,
    SpecOp, TaskOp, TaskPlan, TaskSpec, lemma_ops_size_first, ops_size,
};
use crate::text::{copy_string, push_str, str_eq, to_owned_string};

verus! {

// ---------------------------------------------------------------------------
// Providers
// ---------------------------------------------------------------------------

/// Something that serves one capability.
pub trait CapabilityProvider {
    /// The capability served.
    spec fn capability(&self) -> Seq<char>;

    /// The provider's own consistency.
    spec fn inv(&self) -> bool;

    fn name(&self) -> (n: &str)
        ensures
            n@ == self.capability(),
    ;

    fn handle(&mut self, invocation: &CapabilityInvocation) -> (r: Result<
        ProviderResponse,
        RuntimeError,
    >)
        requires
            old(self).inv(),
        ensures
            final(self).inv(),
            final(self).capability() == old(self).capability(),
    ;
}

/// The providers that need nothing from the host.
#[derive(Debug)]
pub enum BuiltinProvider {
    Console(ConsoleProvider),
    ScriptedConsole(DeterministicConsoleProvider),
    Filesystem(InMemoryFilesystemProvider),
    Env(DeterministicEnvProvider),
    Time(DeterministicTimeProvider),
    Process(DeterministicProcessProvider),
    Network(NetworkProvider),
}

/// What a builtin provider does with an invocation of `op` with `payload`:
/// the provider of the same kind afterwards and the answer, as each
/// provider's own step states it.
pub open spec fn builtin_step(
    before: BuiltinProvider,
    after: BuiltinProvider,
    op: Seq<char>,
    payload: Option<Seq<char>>,
    answer: SpecAnswer,
) -> bool {
    match before {
        BuiltinProvider::Console(_) => after == before && answer == echo_answer(op, payload),
        BuiltinProvider::ScriptedConsole(c) => after matches BuiltinProvider::ScriptedConsole(c2)
            && (c2.state(), answer) == console_step(c.state(), op, payload),
        BuiltinProvider::Filesystem(f) => after matches BuiltinProvider::Filesystem(f2)
            && (f2.contents(), answer) == fs_step(f.contents(), op, payload),
        BuiltinProvider::Env(e) => after matches BuiltinProvider::Env(e2)
            && (e2.vars(), answer) == env_step(e.vars(), op, payload),
        BuiltinProvider::Time(t) => after matches BuiltinProvider::Time(t2)
            && (t2.state(), answer) == clock_step(t.state(), op),
        BuiltinProvider::Process(p) => after matches BuiltinProvider::Process(p2)
            && (p2.state(), answer) == process_step(p.state(), op, payload),
        BuiltinProvider::Network(n) => after == before && answer == net_answer(n.fixtures(), op, payload),
    }
}

impl CapabilityProvider for BuiltinProvider {
    open spec fn capability(&self) -> Seq<char> {
        match self {
            BuiltinProvider::Console(_) => "io"@,
            BuiltinProvider::ScriptedConsole(_) => "io"@,
            BuiltinProvider::Filesystem(_) => "fs"@,
            BuiltinProvider::Env(_) => "env"@,
            BuiltinProvider::Time(_) => "time"@,
            BuiltinProvider::Process(_) => "process"@,
            BuiltinProvider::Network(_) => "net"@,
        }
    }

    open spec fn inv(&self) -> bool {
        match self {
            BuiltinProvider::Filesystem(f) => f.wf(),
            BuiltinProvider::Env(e) => e.wf(),
            BuiltinProvider::Network(n) => n.wf(),
            _ => true,
        }
    }

    fn name(&self) -> (n: &str) {
        match self {
            BuiltinProvider::Console(_) => "io",
            BuiltinProvider::ScriptedConsole(_) => "io",
            BuiltinProvider::Filesystem(_) => "fs",
            BuiltinProvider::Env(_) => "env",
            BuiltinProvider::Time(_) => "time",
            BuiltinProvider::Process(_) => "process",
            BuiltinProvider::Network(_) => "net",
        }
    }

    fn handle(&mut self, invocation: &CapabilityInvocation) -> (r: Result<
        ProviderResponse,
        RuntimeError,
    >)
        ensures
            builtin_step(
                *old(self),
                *final(self),
                invocation.operation@,
                string_payload(invocation.payload),
                answer_view(r),
            ),
    {
        match self {
            BuiltinProvider::Console(c) => c.handle(invocation),
            BuiltinProvider::ScriptedConsole(c) => c.handle(invocation),
            BuiltinProvider::Filesystem(f) => f.handle(invocation),
            BuiltinProvider::Env(e) => e.handle(invocation),
            BuiltinProvider::Time(t) => t.handle(invocation),
            BuiltinProvider::Process(p) => p.handle(invocation),
            BuiltinProvider::Network(n) => n.handle(invocation),
        }
    }
}

// ---------------------------------------------------------------------------
// Clocks
// ---------------------------------------------------------------------------

#[verifier::external_type_specification]
#[verifier::external_body]
pub struct ExInstant(std::time::Instant);

/// The current instant of the monotonic clock (`Instant::now`).
#[verifier::external_body]
fn instant_now() -> (i: std::time::Instant) {
    std::time::Instant::now()
}

#[verifier::external_type_specification]
#[verifier::external_body]
pub struct ExSystemTime(std::time::SystemTime);

#[verifier::external_type_specification]
#[verifier::external_body]
pub struct ExSystemTimeError(std::time::SystemTimeError);

/// The time elapsed since `start` (`Instant::elapsed`); it depends on the
/// clock, so nothing is stated of it.
#[verifier::external_body]
fn elapsed_since(start: &std::time::Instant) -> (d: std::time::Duration) {
    start.elapsed()
}

/// A duration in whole microseconds (`Duration::as_micros`); nothing is
/// stated of the value, as no view of a duration is given here.
#[verifier::external_body]
fn duration_micros(d: &std::time::Duration) -> (m: u128) {
    d.as_micros()
}

/// The current wall-clock time (`SystemTime::now`).
#[verifier::external_body]
fn system_now() -> (t: std::time::SystemTime) {
    std::time::SystemTime::now()
}

/// The time since the Unix epoch (`SystemTime::duration_since` with
/// `UNIX_EPOCH`), or an error when `t` is before it; which of the two comes
/// back depends on the clock, so nothing is stated.
#[verifier::external_body]
fn since_epoch(t: &std::time::SystemTime) -> (r: Result<std::time::Duration, std::time::SystemTimeError>) {
    t.duration_since(std::time::UNIX_EPOCH)
}

/// Whole microseconds elapsed since `start`.
fn micros_since(start: &std::time::Instant) -> (m: u128) {
    duration_micros(&elapsed_since(start))
}

/// Microseconds since the Unix epoch by the wall clock, if the clock is
/// past the epoch.
fn wall_clock_micros() -> (m: Option<u128>) {
    match since_epoch(&system_now()) {
        Ok(d) => Some(duration_micros(&d)),
        Err(_) => None,
    }
}

// ---------------------------------------------------------------------------
// Telemetry records
// ---------------------------------------------------------------------------

/// An event with its position in the run and the wall-clock time it was
/// recorded at.
#[derive(Debug, PartialEq)]
pub struct TelemetryEvent {
    pub sequence: usize,
    pub timestamp_micros: Option<u128>,
    pub event: RuntimeEvent,
}

/// Per-task metrics.
#[derive(Debug, PartialEq)]
pub struct TaskTelemetry {
    pub task: String,
    pub start_timestamp_micros: Option<u128>,
    pub duration_micros: u128,
    pub event_count: usize,
    pub capability_counts: StrMap<usize>,
    pub operation_counts: StrMap<usize>,
    pub capability_durations_micros: StrMap<u128>,
    pub operation_durations_micros: StrMap<u128>,
    pub spawned_tasks: usize,
}

// ---------------------------------------------------------------------------
// The model of one task's execution
// ---------------------------------------------------------------------------

/// The events one step reports, given the events its provider answered
/// with (ignored for a spawn).
pub open spec fn step_events(task: Seq<char>, op: SpecOp, answered: Seq<SpecCapabilityEvent>) -> Seq<
    SpecEvent,
> {
    match op {
        SpecOp::Invoke { capability, operation, .. } => seq![
            SpecEvent::CapabilityInvoked { task, capability, operation },
        ] + answered.map_values(
            |e: SpecCapabilityEvent| SpecEvent::CapabilityEvent { task, capability, event: e },
        ),
        SpecOp::Spawn { child } => seq![SpecEvent::TaskScheduled { parent: task, child }],
    }
}

/// The events of the first steps.
pub open spec fn steps_events(
    task: Seq<char>,
    ops: Seq<SpecOp>,
    answered: Seq<Seq<SpecCapabilityEvent>>,
) -> Seq<SpecEvent>
    decreases ops.len(),
{
    if ops.len() == 0 {
        Seq::empty()
    } else {
        steps_events(task, ops.drop_last(), answered.drop_last()) + step_events(
            task,
            ops.last(),
            answered.last(),
        )
    }
}

/// The events of a task that completed.
pub open spec fn task_events(
    task: Seq<char>,
    ops: Seq<SpecOp>,
    answered: Seq<Seq<SpecCapabilityEvent>>,
) -> Seq<SpecEvent> {
    seq![SpecEvent::TaskStarted { task }] + steps_events(task, ops, answered) + seq![
        SpecEvent::TaskCompleted { task },
    ]
}

/// Every invocation among the first `n` steps uses a capability the task
/// declares and a provider serves.
pub open spec fn steps_allowed(
    ops: Seq<SpecOp>,
    n: int,
    declared: Seq<Seq<char>>,
    served: Seq<Seq<char>>,
) -> bool {
    forall|j: int|
        0 <= j < n ==> match #[trigger] ops[j] {
            SpecOp::Invoke { capability, .. } => declared.contains(capability) && served.contains(
                capability,
            ),
            SpecOp::Spawn { .. } => true,
        }
}

/// How step `k`, an invocation, can fail: an undeclared capability, then an
/// unserved one, then whatever its provider reported.
pub open spec fn step_failure(
    task: Seq<char>,
    op: SpecOp,
    declared: Seq<Seq<char>>,
    served: Seq<Seq<char>>,
    e: SpecErrorKind,
) -> bool {
    match op {
        SpecOp::Invoke { capability, .. } => if !declared.contains(capability) {
            e == SpecErrorKind::MissingCapability { task, capability }
        } else if !served.contains(capability) {
            e == SpecErrorKind::UnknownCapability { name: capability }
        } else {
            true
        },
        SpecOp::Spawn { .. } => false,
    }
}

/// The tasks that the spawn steps among `ops` schedule, in order.
pub open spec fn spawned_pairs(ops: Seq<TaskOp>) -> Seq<(TaskSpec, TaskPlan)>
    decreases ops.len(),
{
    if ops.len() == 0 {
        Seq::empty()
    } else {
        let rest = spawned_pairs(ops.drop_last());
        match ops.last() {
            TaskOp::Spawn { spec, plan } => rest.push((spec, plan)),
            TaskOp::Invoke { .. } => rest,
        }
    }
}

/// The tasks scheduled by the tasks `ts`, in order.
pub open spec fn all_spawned(ts: Seq<(TaskSpec, TaskPlan)>) -> Seq<(TaskSpec, TaskPlan)>
    decreases ts.len(),
{
    if ts.len() == 0 {
        Seq::empty()
    } else {
        all_spawned(ts.drop_last()) + spawned_pairs(ts.last().1.op_list())
    }
}

/// The events of the tasks `ts` run to completion one after another, each
/// given the answers its providers gave.
pub open spec fn trace_of(ts: Seq<(TaskSpec, TaskPlan)>, answers: Seq<Seq<Seq<SpecCapabilityEvent>>>) -> Seq<SpecEvent>
    decreases ts.len(),
{
    if ts.len() == 0 || answers.len() != ts.len() {
        Seq::empty()
    } else {
        trace_of(ts.drop_last(), answers.drop_last()) + task_events(
            ts.last().0.name_view(),
            ts.last().1.steps(),
            answers.last(),
        )
    }
}

/// Each of `ts` invokes only capabilities it declares and `served` holds,
/// and has one answer per step.
pub open spec fn all_allowed(ts: Seq<(TaskSpec, TaskPlan)>, answers: Seq<Seq<Seq<SpecCapabilityEvent>>>, served: Seq<Seq<char>>) -> bool {
    &&& answers.len() == ts.len()
    &&& forall|i: int| 0 <= i < ts.len() ==> (#[trigger] answers[i]).len() == ts[i].1.steps().len()
        && steps_allowed(ts[i].1.steps(), ts[i].1.steps().len() as int, ts[i].0.capability_views(), served)
}

/// The children scheduled by the first `n` steps.
pub open spec fn spawned_children(ops: Seq<SpecOp>, n: int) -> Seq<Seq<char>>
    decreases n,
{
    if n <= 0 || n > ops.len() {
        Seq::empty()
    } else {
        match ops[n - 1] {
            SpecOp::Spawn { child } => spawned_children(ops, n - 1).push(child),
            SpecOp::Invoke { .. } => spawned_children(ops, n - 1),
        }
    }
}

/// Number of invocations of `capability` among the first `n` steps.
pub open spec fn invoke_count(ops: Seq<SpecOp>, n: int, capability: Seq<char>) -> nat
    decreases n,
{
    if n <= 0 || n > ops.len() {
        0
    } else {
        invoke_count(ops, n - 1, capability) + match ops[n - 1] {
            SpecOp::Invoke { capability: c, .. } => if c == capability {
                1nat
            } else {
                0nat
            },
            SpecOp::Spawn { .. } => 0nat,
        }
    }
}

/// The key operation counts are kept under: `capability::operation`.
pub open spec fn operation_key(capability: Seq<char>, operation: Seq<char>) -> Seq<char> {
    capability + "::"@ + operation
}

/// Number of invocations among the first `n` steps whose operation key is
/// `key`.
pub open spec fn operation_count(ops: Seq<SpecOp>, n: int, key: Seq<char>) -> nat
    decreases n,
{
    if n <= 0 || n > ops.len() {
        0
    } else {
        operation_count(ops, n - 1, key) + match ops[n - 1] {
            SpecOp::Invoke { capability, operation, .. } => if operation_key(capability, operation)
                == key {
                1nat
            } else {
                0nat
            },
            SpecOp::Spawn { .. } => 0nat,
        }
    }
}

/// The sum of a sequence of naturals.
pub open spec fn sum_nat(s: Seq<nat>) -> nat
    decreases s.len(),
{
    if s.len() == 0 {
        0
    } else {
        sum_nat(s.drop_last()) + s.last()
    }
}

proof fn lemma_sum_first(s: Seq<nat>)
    requires
        s.len() > 0,
    ensures
        sum_nat(s) == s[0] + sum_nat(s.drop_first()),
    decreases s.len(),
{
    if s.len() > 1 {
        lemma_sum_first(s.drop_last());
        assert(s.drop_last().drop_first() =~= s.drop_first().drop_last());
        assert(s.drop_first().last() == s.last());
        assert(s.drop_last()[0] == s[0]);
        assert(sum_nat(s) == sum_nat(s.drop_last()) + s.last());
        assert(sum_nat(s.drop_first()) == sum_nat(s.drop_first().drop_last()) + s.drop_first().last());
    } else {
        assert(s.drop_first() =~= Seq::<nat>::empty());
        assert(s.drop_last() =~= Seq::<nat>::empty());
        assert(sum_nat(s.drop_last()) == 0);
        assert(sum_nat(s.drop_first()) == 0);
    }
}

proof fn lemma_sum_push(s: Seq<nat>, x: nat)
    ensures
        sum_nat(s.push(x)) == sum_nat(s) + x,
{
    assert(s.push(x).drop_last() =~= s);
}

/// The sizes of the plans waiting in a queue.
pub open spec fn queue_sizes(q: Seq<(TaskSpec, TaskPlan)>) -> Seq<nat> {
    q.map_values(|e: (TaskSpec, TaskPlan)| plan_size(e.1))
}

pub open spec fn queue_names(q: Seq<(TaskSpec, TaskPlan)>) -> Seq<Seq<char>> {
    q.map_values(|e: (TaskSpec, TaskPlan)| e.0.name_view())
}

// ---------------------------------------------------------------------------
// The runtime
// ---------------------------------------------------------------------------

/// Registered providers and the queue of tasks waiting to run.
#[derive(Debug)]
pub struct Runtime<P> {
    providers: Vec<P>,
    queue: Vec<(TaskSpec, TaskPlan)>,
}

/// A completed run: the events, each with its telemetry, and the metrics of
/// each task.
#[derive(Debug, PartialEq)]
pub struct RuntimeTrace {
    events: Vec<RuntimeEvent>,
    telemetry: Vec<TelemetryEvent>,
    tasks: Vec<TaskTelemetry>,
}

impl<P: CapabilityProvider> Runtime<P> {
    /// The capabilities served, in registration order.
    pub closed spec fn served(&self) -> Seq<Seq<char>> {
        self.providers@.map_values(|p: P| p.capability())
    }

    /// The queued tasks, in the order they will run.
    pub closed spec fn queue_list(&self) -> Seq<(TaskSpec, TaskPlan)> {
        self.queue@
    }

    /// The names of the queued tasks, in the order they will run.
    pub closed spec fn pending(&self) -> Seq<Seq<char>> {
        queue_names(self.queue@)
    }

    /// Providers are consistent and serve distinct capabilities.
    pub closed spec fn wf(&self) -> bool {
        &&& forall|i: int| 0 <= i < self.providers@.len() ==> (#[trigger] self.providers@[i]).inv()
        &&& self.served().no_duplicates()
    }

    spec fn work(&self) -> nat {
        sum_nat(queue_sizes(self.queue@))
    }

    /// A runtime with no provider and no task.
    pub fn new() -> (r: Runtime<P>)
        ensures
            r.wf(),
            r.served() == Seq::<Seq<char>>::empty(),
            r.pending() == Seq::<Seq<char>>::empty(),
    {
        let r = Runtime { providers: Vec::new(), queue: Vec::new() };
        assert(r.served() =~= Seq::<Seq<char>>::empty());
        assert(r.pending() =~= Seq::<Seq<char>>::empty());
        r
    }

    /// The index of the provider serving `name`.
    fn lookup_provider(&self, name: &str) -> (r: Option<usize>)
        requires
            self.wf(),
        ensures
            r matches Some(i) ==> i < self.providers@.len() && self.served()[i as int] == name@,
            r is None ==> !self.served().contains(name@),
    {
        let mut i: usize = 0;
        while i < self.providers.len()
            invariant
                i <= self.providers.len(),
                forall|k: int| 0 <= k < i ==> self.served()[k] != name@,
            decreases self.providers.len() - i,
        {
            if str_eq(self.providers[i].name(), name) {
                return Some(i);
            }
            i = i + 1;
        }
        None
    }

    /// Registers `provider`, unless its capability is served already.
    pub fn register_provider(&mut self, provider: P) -> (r: Result<(), RuntimeError>)
        requires
            old(self).wf(),
            provider.inv(),
        ensures
            final(self).wf(),
            final(self).pending() == old(self).pending(),
            old(self).served().contains(provider.capability()) ==> (r matches Err(e) && e@
                == (SpecErrorKind::DuplicateProvider { name: provider.capability() })
                && final(self).served() == old(self).served()),
            !old(self).served().contains(provider.capability()) ==> (r is Ok && final(self).served()
                == old(self).served().push(provider.capability())),
    {
        let name = to_owned_string(provider.name());
        match self.lookup_provider(name.as_str()) {
            Some(_) => Err(RuntimeError::duplicate_provider(name)),
            None => {
                let ghost before = self.served();
                let ghost cap = provider.capability();
                self.providers.push(provider);
                proof {
                    assert(self.served() =~= before.push(cap));
                    assert forall|a: int, b: int|
                        0 <= a < b < self.served().len() implies self.served()[a]
                        != self.served()[b] by {
                        if b == before.len() {
                            assert(before.contains(before[a]));
                        }
                    }
                }
                Ok(())
            },
        }
    }

    /// Queues a task to run after those already queued.
    pub fn spawn(&mut self, spec: TaskSpec, plan: TaskPlan)
        ensures
            final(self).served() == old(self).served(),
            final(self).wf() == old(self).wf(),
            final(self).pending() == old(self).pending().push(spec.name_view()),
    {
        let ghost before = self.queue@;
        let ghost name = spec.name_view();
        self.queue.push((spec, plan));
        assert(queue_names(self.queue@) =~= queue_names(before).push(name));
    }

    /// Checks that every capability `spec` declares is served: the first one
    /// that is not is reported.
    pub fn ensure_capabilities(&self, spec: &TaskSpec) -> (r: Result<(), RuntimeError>)
        requires
            self.wf(),
        ensures
            r is Ok <==> forall|k: int|
                0 <= k < spec.capability_views().len() ==> self.served().contains(
                    #[trigger] spec.capability_views()[k],
                ),
            r matches Err(e) ==> (exists|k: int|
                0 <= k < spec.capability_views().len() && !self.served().contains(
                    spec.capability_views()[k],
                ) && (forall|j: int| 0 <= j < k ==> self.served().contains(spec.capability_views()[j]))
                    && e@ == (SpecErrorKind::UnknownCapability { name: spec.capability_views()[k] })),
    {
        let caps = spec.capabilities();
        let mut i: usize = 0;
        while i < caps.len()
            invariant
                i <= caps.len(),
                self.wf(),
                caps@.map_values(|s: String| s@) == spec.capability_views(),
                forall|k: int| 0 <= k < i ==> self.served().contains(#[trigger] spec.capability_views()[k]),
            decreases caps.len() - i,
        {
            assert(spec.capability_views()[i as int] == caps@[i as int]@);
            match self.lookup_provider(caps[i].as_str()) {
                Some(_) => {},
                None => {
                    return Err(RuntimeError::unknown_capability(caps[i].as_str()));
                },
            }
            i = i + 1;
        }
        Ok(())
    }
}


proof fn lemma_invoke_count_bound(ops: Seq<SpecOp>, n: int, c: Seq<char>)
    requires
        0 <= n <= ops.len(),
    ensures
        invoke_count(ops, n, c) <= n,
        operation_count(ops, n, c) <= n,
    decreases n,
{
    if n > 0 {
        lemma_invoke_count_bound(ops, n - 1, c);
    }
}

/// Counts one more occurrence of `key`.
fn bump(counts: &mut StrMap<usize>, key: &str, limit: usize)
    requires
        old(counts).wf(),
        old(counts)@.contains_key(key@) ==> old(counts)@[key@] < limit,
    ensures
        final(counts).wf(),
        final(counts)@ == old(counts)@.insert(
            key@,
            if old(counts)@.contains_key(key@) {
                (old(counts)@[key@] + 1) as usize
            } else {
                1usize
            },
        ),
{
    let current = match counts.get(key) {
        Some(v) => *v,
        None => 0,
    };
    counts.insert(to_owned_string(key), current + 1);
}

/// Adds `amount` to the total kept under `key`, saturating.
fn add_duration(totals: &mut StrMap<u128>, key: &str, amount: u128)
    requires
        old(totals).wf(),
    ensures
        final(totals).wf(),
        final(totals)@.dom() == old(totals)@.dom().insert(key@),
{
    let current = match totals.get(key) {
        Some(v) => *v,
        None => 0,
    };
    let sum = if current <= u128::MAX - amount {
        current + amount
    } else {
        u128::MAX
    };
    totals.insert(to_owned_string(key), sum);
}

fn joined_key(a: &str, b: &str) -> (s: String)
    ensures
        s@ == operation_key(a@, b@),
{
    let mut s = to_owned_string(a);
    push_str(&mut s, "::");
    push_str(&mut s, b);
    s
}

impl<P: CapabilityProvider> Runtime<P> {
    /// Runs one task's plan: each invocation must use a capability the task
    /// declares and a provider serves; each spawn queues the child.
    fn execute_task(&mut self, spec: &TaskSpec, plan: TaskPlan) -> (r: Result<
        (Vec<RuntimeEvent>, TaskTelemetry),
        RuntimeError,
    >)
        requires
            old(self).wf(),
        ensures
            final(self).wf(),
            final(self).served() == old(self).served(),
            final(self).work() < old(self).work() + plan_size(plan),
            r matches Ok((events, metrics)) ==> {
                let steps = plan.steps();
                let n = steps.len() as int;
                &&& steps_allowed(steps, n, spec.capability_views(), old(self).served())
                &&& exists|answered: Seq<Seq<SpecCapabilityEvent>>|
                    answered.len() == n && event_views(events@) == task_events(
                        spec.name_view(),
                        steps,
                        answered,
                    )
                &&& final(self).pending() == old(self).pending() + spawned_children(steps, n)
                &&& final(self).queue@ == old(self).queue@ + spawned_pairs(plan.op_list())
                &&& metrics.task@ == spec.name_view()
                &&& metrics.event_count == events@.len()
                &&& metrics.spawned_tasks == spawned_children(steps, n).len()
                &&& metrics.capability_counts.wf() && metrics.operation_counts.wf()
                &&& metrics.capability_durations_micros.wf() && metrics.operation_durations_micros.wf()
                &&& forall|c: Seq<char>|
                    #![trigger metrics.capability_counts@.contains_key(c)]
                    (metrics.capability_counts@.contains_key(c) <==> invoke_count(steps, n, c) > 0)
                        && (metrics.capability_counts@.contains_key(c) ==> metrics.capability_counts@[c]
                        == invoke_count(steps, n, c))
                &&& forall|c: Seq<char>|
                    #![trigger metrics.operation_counts@.contains_key(c)]
                    (metrics.operation_counts@.contains_key(c) <==> operation_count(steps, n, c) > 0)
                        && (metrics.operation_counts@.contains_key(c) ==> metrics.operation_counts@[c]
                        == operation_count(steps, n, c))
                &&& metrics.capability_durations_micros@.dom() == metrics.capability_counts@.dom()
                &&& metrics.operation_durations_micros@.dom() == metrics.operation_counts@.dom()
            },
            r matches Err(e) ==> exists|k: int|
                0 <= k < plan.steps().len() && steps_allowed(
                    plan.steps(),
                    k,
                    spec.capability_views(),
                    old(self).served(),
                ) && step_failure(
                    spec.name_view(),
                    plan.steps()[k],
                    spec.capability_views(),
                    old(self).served(),
                    e@,
                ) && final(self).pending() == old(self).pending() + spawned_children(plan.steps(), k),
    {
        let ghost steps = plan.steps();
        let ghost orig = plan.op_list();
        let ghost n = orig.len() as int;
        let ghost old_work = self.work();
        let ghost old_pending = self.pending();
        let ghost served0 = self.served();
        let ghost declared = spec.capability_views();
        let ghost task = spec.name_view();
        proof {
            plan.lemma_size();
            assert(orig.subrange(0, n) =~= orig);
        }
        let name = spec.name();
        let mut events: Vec<RuntimeEvent> = Vec::new();
        events.push(RuntimeEvent::TaskStarted { task: to_owned_string(name) });
        let mut cap_counts: StrMap<usize> = StrMap::new();
        let mut op_counts: StrMap<usize> = StrMap::new();
        let mut cap_durations: StrMap<u128> = StrMap::new();
        let mut op_durations: StrMap<u128> = StrMap::new();
        let mut spawned: usize = 0;
        let start_wall = wall_clock_micros();
        let start = instant_now();
        let mut ops = plan.into_ops();
        assert(ops@.len() == ops.len());
        let ghost mut answered: Seq<Seq<SpecCapabilityEvent>> = Seq::empty();
        let mut i: usize = 0;
        proof {
            assert(steps.take(0) =~= Seq::<SpecOp>::empty());
            assert(event_views(events@) =~= seq![SpecEvent::TaskStarted { task }]);
            assert(old_pending + spawned_children(steps, 0) =~= old_pending);
            assert(orig.take(0) =~= Seq::<TaskOp>::empty());
            assert(self.queue@ + spawned_pairs(orig.take(0)) =~= self.queue@);
        }
        while ops.len() > 0
            invariant
                ops@ == orig.subrange(i as int, n),
                served0 == old(self).served(),
                old_work == old(self).work(),
                old_pending == old(self).pending(),
                steps == plan.steps(),
                plan_size(plan) == 1 + ops_size(orig, n),
                i <= n,
                n <= usize::MAX,
                n == orig.len(),
                steps == op_views(orig),
                self.wf(),
                self.served() == served0,
                declared == spec.capability_views(),
                task == spec.name_view(),
                name@ == task,
                answered.len() == i,
                steps_allowed(steps, i as int, declared, served0),
                event_views(events@) == seq![SpecEvent::TaskStarted { task }] + steps_events(
                    task,
                    steps.take(i as int),
                    answered,
                ),
                self.pending() == old_pending + spawned_children(steps, i as int),
                self.queue@ == old(self).queue@ + spawned_pairs(orig.take(i as int)),
                orig == plan.op_list(),
                self.work() + ops_size(ops@, ops@.len() as int) + i <= old_work + ops_size(orig, n),
                spawned == spawned_children(steps, i as int).len(),
                spawned <= i,
                cap_counts.wf(),
                op_counts.wf(),
                cap_durations.wf(),
                op_durations.wf(),
                forall|c: Seq<char>|
                    #![trigger cap_counts@.contains_key(c)]
                    (cap_counts@.contains_key(c) <==> invoke_count(steps, i as int, c) > 0) && (
                    cap_counts@.contains_key(c) ==> cap_counts@[c] == invoke_count(steps, i as int, c)),
                forall|c: Seq<char>|
                    #![trigger op_counts@.contains_key(c)]
                    (op_counts@.contains_key(c) <==> operation_count(steps, i as int, c) > 0) && (
                    op_counts@.contains_key(c) ==> op_counts@[c] == operation_count(steps, i as int, c)),
                cap_durations@.dom() == cap_counts@.dom(),
                op_durations@.dom() == op_counts@.dom(),
            decreases ops.len(),
        {
            let ghost rem = ops@;
            proof {
                lemma_ops_size_first(rem);
                assert(rem[0] == orig[i as int]);
                assert(steps[i as int] == orig[i as int]@);
                assert(rem.drop_first() =~= orig.subrange(i + 1, n));
                assert(steps.take(i + 1).drop_last() =~= steps.take(i as int));
                assert(steps.take(i + 1).last() == steps[i as int]);
                assert(orig.take(i + 1).drop_last() =~= orig.take(i as int));
                assert(orig.take(i + 1).last() == orig[i as int]);
            }
            let op = ops.remove(0);
            let ghost ev_before = event_views(events@);
            match op {
                TaskOp::Invoke { capability, operation, payload } => {
                    if !spec.has_capability(capability.as_str()) {
                        proof {
                            assert(step_failure(task, steps[i as int], declared, served0, SpecErrorKind::MissingCapability { task, capability: capability@ }));
                        }
                        return Err(RuntimeError::missing_capability(name, capability.as_str()));
                    }
                    let idx = match self.lookup_provider(capability.as_str()) {
                        Some(k) => k,
                        None => {
                            return Err(RuntimeError::unknown_capability(capability.as_str()));
                        },
                    };
                    proof {
                        lemma_invoke_count_bound(steps, i as int, capability@);
                        lemma_invoke_count_bound(steps, i as int, operation_key(capability@, operation@));
                    }
                    let key = joined_key(capability.as_str(), operation.as_str());
                    assert(cap_counts@.contains_key(capability@) ==> cap_counts@[capability@] < usize::MAX);
                    assert(op_counts@.contains_key(key@) ==> op_counts@[key@] < usize::MAX);
                    bump(&mut cap_counts, capability.as_str(), usize::MAX);
                    bump(&mut op_counts, key.as_str(), usize::MAX);
                    events.push(
                        RuntimeEvent::CapabilityInvoked {
                            task: to_owned_string(name),
                            capability: copy_string(&capability),
                            operation: copy_string(&operation),
                        },
                    );
                    let op_start = instant_now();
                    let invocation = CapabilityInvocation {
                        capability: copy_string(&capability),
                        operation: copy_string(&operation),
                        payload,
                    };
                    let ghost providers0 = self.providers@;
                    let mut provider = self.providers.remove(idx);
                    assert(provider.inv()) by {
                        assert(providers0[idx as int] == provider);
                    }
                    let response = provider.handle(&invocation);
                    let ghost cap_p = provider.capability();
                    self.providers.insert(idx, provider);
                    proof {
                        assert(self.providers@ =~= providers0.update(idx as int, self.providers@[idx as int]));
                        assert(self.served() =~= served0);
                        assert forall|k: int| 0 <= k < self.providers@.len() implies (#[trigger] self.providers@[k]).inv() by {
                            if k != idx {
                                assert(self.providers@[k] == providers0[k]);
                            }
                        }
                    }
                    let resp = match response {
                        Ok(resp) => resp,
                        Err(e) => {
                            return Err(e);
                        },
                    };
                    let elapsed = micros_since(&op_start);
                    add_duration(&mut cap_durations, capability.as_str(), elapsed);
                    add_duration(&mut op_durations, key.as_str(), elapsed);
                    let ghost base = event_views(events@);
                    let ghost answer = cap_event_views(resp.events@);
                    let mut j: usize = 0;
                    while j < resp.events.len()
                        invariant
                            j <= resp.events.len(),
                            answer == cap_event_views(resp.events@),
                            name@ == task,
                            event_views(events@) == base + answer.take(j as int).map_values(
                                |e: SpecCapabilityEvent| SpecEvent::CapabilityEvent { task, capability: capability@, event: e },
                            ),
                        decreases resp.events.len() - j,
                    {
                        let ghost before = event_views(events@);
                        let ev = match &resp.events[j] {
                            CapabilityEvent::Message(m) => CapabilityEvent::Message(copy_string(m)),
                            CapabilityEvent::Data(v) => CapabilityEvent::Data(v.copy()),
                        };
                        let ghost evv = ev@;
                        events.push(
                            RuntimeEvent::CapabilityEvent {
                                task: to_owned_string(name),
                                capability: copy_string(&capability),
                                event: ev,
                            },
                        );
                        proof {
                            assert(evv == answer[j as int]);
                            let f = |e: SpecCapabilityEvent| SpecEvent::CapabilityEvent { task, capability: capability@, event: e };
                            assert(answer.take(j + 1) =~= answer.take(j as int).push(answer[j as int]));
                            assert(answer.take(j + 1).map_values(f) =~= answer.take(j as int).map_values(f).push(f(answer[j as int])));
                            assert(event_views(events@) =~= before.push(f(answer[j as int])));
                        }
                        j = j + 1;
                    }
                    proof {
                        assert(answer.take(answer.len() as int) =~= answer);
                        let ans2 = answered.push(answer);
                        assert(ans2.drop_last() =~= answered);
                        assert(event_views(events@) =~= ev_before + step_events(task, steps[i as int], answer));
                        answered = ans2;
                        assert forall|c: Seq<char>|
                            #![trigger cap_counts@.contains_key(c)]
                            (cap_counts@.contains_key(c) <==> invoke_count(steps, i + 1, c) > 0) && (
                            cap_counts@.contains_key(c) ==> cap_counts@[c] == invoke_count(steps, i + 1, c)) by {
                            assert(invoke_count(steps, i + 1, c) == invoke_count(steps, i as int, c) + if c == capability@ { 1nat } else { 0nat });
                        }
                        assert forall|c: Seq<char>|
                            #![trigger op_counts@.contains_key(c)]
                            (op_counts@.contains_key(c) <==> operation_count(steps, i + 1, c) > 0) && (
                            op_counts@.contains_key(c) ==> op_counts@[c] == operation_count(steps, i + 1, c)) by {
                            assert(operation_count(steps, i + 1, c) == operation_count(steps, i as int, c) + if c == operation_key(capability@, operation@) { 1nat } else { 0nat });
                        }
                        assert(spawned_children(steps, i + 1) == spawned_children(steps, i as int));
                    }
                },
                TaskOp::Spawn { spec: child, plan: child_plan } => {
                    let ghost child_name = child.name_view();
                    let ghost q0 = self.queue@;
                    let ghost child_size = plan_size(child_plan);
                    events.push(
                        RuntimeEvent::TaskScheduled {
                            parent: to_owned_string(name),
                            child: to_owned_string(child.name()),
                        },
                    );
                    let ghost pair = (child, child_plan);
                    self.queue.push((child, child_plan));
                    spawned = spawned + 1;
                    proof {
                        assert(self.queue@ =~= q0.push(pair));
                        assert(spawned_pairs(orig.take(i + 1)) == spawned_pairs(orig.take(i as int)).push(pair));
                        assert(q0.push(pair) =~= old(self).queue@ + spawned_pairs(orig.take(i as int)).push(pair));
                        assert(queue_sizes(self.queue@) =~= queue_sizes(q0).push(child_size));
                        lemma_sum_push(queue_sizes(q0), child_size);
                        assert(queue_names(self.queue@) =~= queue_names(q0).push(child_name));
                        let ans2 = answered.push(Seq::<SpecCapabilityEvent>::empty());
                        assert(ans2.drop_last() =~= answered);
                        assert(event_views(events@) =~= ev_before + step_events(task, steps[i as int], Seq::empty()));
                        answered = ans2;
                        assert forall|c: Seq<char>| invoke_count(steps, i + 1, c) == invoke_count(steps, i as int, c) by {}
                        assert forall|c: Seq<char>| operation_count(steps, i + 1, c) == operation_count(steps, i as int, c) by {}
                    }
                },
            }
            i = i + 1;
        }
        let ghost before_done = event_views(events@);
        events.push(RuntimeEvent::TaskCompleted { task: to_owned_string(name) });
        let duration = micros_since(&start);
        let event_count = events.len();
        proof {
            assert(orig.subrange(i as int, n).len() == 0);
            assert(steps.take(n) =~= steps);
            assert(orig.take(n) =~= orig);
            assert(event_views(events@) =~= task_events(task, steps, answered));
        }
        let metrics = TaskTelemetry {
            task: to_owned_string(name),
            start_timestamp_micros: start_wall,
            duration_micros: duration,
            event_count,
            capability_counts: cap_counts,
            operation_counts: op_counts,
            capability_durations_micros: cap_durations,
            operation_durations_micros: op_durations,
            spawned_tasks: spawned,
        };
        Ok((events, metrics))
    }
}


/// The children named by the `TaskScheduled` events, in order.
pub open spec fn scheduled_children(events: Seq<SpecEvent>) -> Seq<Seq<char>>
    decreases events.len(),
{
    if events.len() == 0 {
        Seq::empty()
    } else {
        match events.last() {
            SpecEvent::TaskScheduled { child, .. } => scheduled_children(events.drop_last()).push(child),
            _ => scheduled_children(events.drop_last()),
        }
    }
}

proof fn lemma_scheduled_concat(a: Seq<SpecEvent>, b: Seq<SpecEvent>)
    ensures
        scheduled_children(a + b) == scheduled_children(a) + scheduled_children(b),
    decreases b.len(),
{
    if b.len() == 0 {
        assert(a + b =~= a);
        assert(scheduled_children(a) + scheduled_children(b) =~= scheduled_children(a));
    } else {
        lemma_scheduled_concat(a, b.drop_last());
        assert((a + b).drop_last() =~= a + b.drop_last());
        assert((a + b).last() == b.last());
        match b.last() {
            SpecEvent::TaskScheduled { child, .. } => {
                assert(scheduled_children(a) + scheduled_children(b) =~= (scheduled_children(a)
                    + scheduled_children(b.drop_last())).push(child));
            },
            _ => {},
        }
    }
}

proof fn lemma_scheduled_no_spawn(task: Seq<char>, c: Seq<char>, es: Seq<SpecCapabilityEvent>)
    ensures
        scheduled_children(
            es.map_values(|e: SpecCapabilityEvent| SpecEvent::CapabilityEvent { task, capability: c, event: e }),
        ) == Seq::<Seq<char>>::empty(),
    decreases es.len(),
{
    let f = |e: SpecCapabilityEvent| SpecEvent::CapabilityEvent { task, capability: c, event: e };
    if es.len() > 0 {
        lemma_scheduled_no_spawn(task, c, es.drop_last());
        assert(es.map_values(f).drop_last() =~= es.drop_last().map_values(f));
    }
}

proof fn lemma_scheduled_steps(task: Seq<char>, ops: Seq<SpecOp>, answered: Seq<Seq<SpecCapabilityEvent>>)
    requires
        answered.len() == ops.len(),
    ensures
        scheduled_children(steps_events(task, ops, answered)) == spawned_children(ops, ops.len() as int),
    decreases ops.len(),
{
    if ops.len() > 0 {
        let d = ops.drop_last();
        lemma_scheduled_steps(task, d, answered.drop_last());
        lemma_scheduled_concat(steps_events(task, d, answered.drop_last()), step_events(task, ops.last(), answered.last()));
        assert forall|k: int| 0 <= k <= d.len() implies spawned_children(d, k) == spawned_children(ops, k) by {
            lemma_spawned_prefix(d, ops, k);
        }
        match ops.last() {
            SpecOp::Invoke { capability, operation, .. } => {
                let ev = seq![SpecEvent::CapabilityInvoked { task, capability, operation }];
                lemma_scheduled_no_spawn(task, capability, answered.last());
                lemma_scheduled_concat(ev, answered.last().map_values(
                    |e: SpecCapabilityEvent| SpecEvent::CapabilityEvent { task, capability, event: e },
                ));
                assert(ev.drop_last() =~= Seq::<SpecEvent>::empty());
                assert(scheduled_children(Seq::<SpecEvent>::empty()) =~= Seq::<Seq<char>>::empty());
                assert(scheduled_children(ev) =~= Seq::<Seq<char>>::empty());
            },
            SpecOp::Spawn { child } => {
                let ev = seq![SpecEvent::TaskScheduled { parent: task, child }];
                assert(ev.drop_last() =~= Seq::<SpecEvent>::empty());
                assert(scheduled_children(Seq::<SpecEvent>::empty()) =~= Seq::<Seq<char>>::empty());
                assert(scheduled_children(ev) =~= seq![child]);
            },
        }
    }
}

proof fn lemma_spawned_prefix(d: Seq<SpecOp>, ops: Seq<SpecOp>, k: int)
    requires
        d.len() <= ops.len(),
        forall|j: int| 0 <= j < d.len() ==> d[j] == ops[j],
        0 <= k <= d.len(),
    ensures
        spawned_children(d, k) == spawned_children(ops, k),
    decreases k,
{
    if k > 0 {
        lemma_spawned_prefix(d, ops, k - 1);
    }
}

proof fn lemma_scheduled_task(task: Seq<char>, ops: Seq<SpecOp>, answered: Seq<Seq<SpecCapabilityEvent>>)
    requires
        answered.len() == ops.len(),
    ensures
        scheduled_children(task_events(task, ops, answered)) == spawned_children(ops, ops.len() as int),
{
    let a = seq![SpecEvent::TaskStarted { task }];
    let m = steps_events(task, ops, answered);
    let z = seq![SpecEvent::TaskCompleted { task }];
    lemma_scheduled_steps(task, ops, answered);
    lemma_scheduled_concat(a + m, z);
    lemma_scheduled_concat(a, m);
    assert(a.drop_last() =~= Seq::<SpecEvent>::empty());
    assert(z.drop_last() =~= Seq::<SpecEvent>::empty());
    assert(scheduled_children(Seq::<SpecEvent>::empty()) =~= Seq::<Seq<char>>::empty());
    assert(scheduled_children(a) =~= Seq::<Seq<char>>::empty());
    assert(scheduled_children(z) =~= Seq::<Seq<char>>::empty());
}

pub open spec fn task_names(tasks: Seq<TaskTelemetry>) -> Seq<Seq<char>> {
    tasks.map_values(|t: TaskTelemetry| t.task@)
}

impl RuntimeTrace {
    pub closed spec fn event_list(&self) -> Seq<RuntimeEvent> {
        self.events@
    }

    pub closed spec fn telemetry_list(&self) -> Seq<TelemetryEvent> {
        self.telemetry@
    }

    pub closed spec fn task_list(&self) -> Seq<TaskTelemetry> {
        self.tasks@
    }

    /// The events, in order.
    pub fn events(&self) -> (e: &Vec<RuntimeEvent>)
        ensures
            e@ == self.event_list(),
    {
        &self.events
    }

    /// Each event with its sequence number and timestamp.
    pub fn telemetry(&self) -> (t: &Vec<TelemetryEvent>)
        ensures
            t@ == self.telemetry_list(),
    {
        &self.telemetry
    }

    /// The metrics of each task, in the order the tasks ran.
    pub fn tasks(&self) -> (t: &Vec<TaskTelemetry>)
        ensures
            t@ == self.task_list(),
    {
        &self.tasks
    }

    /// The events, taking the trace apart.
    pub fn into_events(self) -> (e: Vec<RuntimeEvent>)
        ensures
            e@ == self.event_list(),
    {
        self.events
    }
}

impl<P: CapabilityProvider> Runtime<P> {
    /// Runs queued tasks in FIFO order until the queue is empty, a task
    /// spawning children at the back of the queue.
    ///
    /// On success the tasks ran in the order they were queued followed by
    /// the children, in the order their `TaskScheduled` events report them;
    /// every event carries its position as its sequence number. A run whose
    /// trace would have more events than a `usize` can number fails with a
    /// serialization error.
    pub fn run_with_telemetry(&mut self) -> (r: Result<RuntimeTrace, RuntimeError>)
        requires
            old(self).wf(),
        ensures
            final(self).wf(),
            final(self).served() == old(self).served(),
            r matches Ok(trace) ==> {
                &&& final(self).pending() == Seq::<Seq<char>>::empty()
                &&& task_names(trace.task_list()) == old(self).pending() + scheduled_children(
                    event_views(trace.event_list()),
                )
                &&& trace.telemetry_list().len() == trace.event_list().len()
                &&& forall|k: int|
                    0 <= k < trace.telemetry_list().len() ==> (#[trigger] trace.telemetry_list()[k]).sequence == k
                        && trace.telemetry_list()[k].event@ == trace.event_list()[k]@
                &&& exists|ran: Seq<(TaskSpec, TaskPlan)>, answers: Seq<Seq<Seq<SpecCapabilityEvent>>>|
                    #[trigger] trace_of(ran, answers) == event_views(trace.event_list())
                        && ran == old(self).queue_list() + all_spawned(ran)
                        && all_allowed(ran, answers, old(self).served())
                        && trace.task_list().len() == ran.len()
                        && forall|i: int| 0 <= i < ran.len() ==> (#[trigger] trace.task_list()[i]).task@ == ran[i].0.name_view()
                            && trace.task_list()[i].event_count == task_events(
                                ran[i].0.name_view(),
                                ran[i].1.steps(),
                                answers[i],
                            ).len()
            },
            r matches Err(e) ==> (e@ is SerializationFailure && exists|
                ran: Seq<(TaskSpec, TaskPlan)>,
                answers: Seq<Seq<Seq<SpecCapabilityEvent>>>,
                rest: Seq<(TaskSpec, TaskPlan)>,
            |
                #![trigger ran + rest, all_allowed(ran, answers, old(self).served())]
                ran + rest == old(self).queue_list() + all_spawned(ran)
                    && all_allowed(ran, answers, old(self).served())
                    && trace_of(ran, answers).len() > usize::MAX) || exists|
                ran: Seq<(TaskSpec, TaskPlan)>,
                answers: Seq<Seq<Seq<SpecCapabilityEvent>>>,
                failing: (TaskSpec, TaskPlan),
                rest: Seq<(TaskSpec, TaskPlan)>,
                k: int,
            |
                #![trigger ran.push(failing) + rest, all_allowed(ran, answers, old(self).served()), steps_allowed(failing.1.steps(), k, failing.0.capability_views(), old(self).served())]
                ran.push(failing) + rest == old(self).queue_list() + all_spawned(ran)
                    && all_allowed(ran, answers, old(self).served())
                    && 0 <= k < failing.1.steps().len()
                    && steps_allowed(failing.1.steps(), k, failing.0.capability_views(), old(self).served())
                    && step_failure(
                        failing.0.name_view(),
                        failing.1.steps()[k],
                        failing.0.capability_views(),
                        old(self).served(),
                        e@,
                    ),
    {
        let mut events: Vec<RuntimeEvent> = Vec::new();
        let mut telemetry: Vec<TelemetryEvent> = Vec::new();
        let mut tasks: Vec<TaskTelemetry> = Vec::new();
        let ghost initial = self.pending();
        let ghost served0 = self.served();
        let ghost old_q = self.queue@;
        let ghost mut ran: Seq<(TaskSpec, TaskPlan)> = Seq::empty();
        let ghost mut answers: Seq<Seq<Seq<SpecCapabilityEvent>>> = Seq::empty();
        proof {
            assert(ran + self.queue@ =~= old_q + all_spawned(ran));
            assert(trace_of(ran, answers) =~= Seq::<SpecEvent>::empty());
            assert(event_views(events@) =~= Seq::<SpecEvent>::empty());
            assert(task_names(tasks@) + self.pending() =~= initial + scheduled_children(event_views(events@)));
        }
        while self.queue.len() > 0
            invariant
                self.wf(),
                self.served() == served0,
                served0 == old(self).served(),
                initial == old(self).pending(),
                task_names(tasks@) + self.pending() == initial + scheduled_children(event_views(events@)),
                telemetry@.len() == events@.len(),
                events@.len() <= usize::MAX,
                forall|k: int|
                    0 <= k < telemetry@.len() ==> (#[trigger] telemetry@[k]).sequence == k
                        && telemetry@[k].event@ == events@[k]@,
                old_q == old(self).queue@,
                ran + self.queue@ == old_q + all_spawned(ran),
                all_allowed(ran, answers, served0),
                event_views(events@) == trace_of(ran, answers),
                tasks@.len() == ran.len(),
                forall|i: int| 0 <= i < ran.len() ==> (#[trigger] tasks@[i]).task@ == ran[i].0.name_view()
                    && tasks@[i].event_count == task_events(ran[i].0.name_view(), ran[i].1.steps(), answers[i]).len(),
            decreases self.work(),
        {
            let ghost q0 = self.queue@;
            let ghost pending0 = self.pending();
            let ghost tasks_before = tasks@;
            proof {
                lemma_sum_first(queue_sizes(q0));
                assert(queue_sizes(q0).drop_first() =~= queue_sizes(q0.drop_first()));
            }
            let ghost item = q0[0];
            let (spec, plan) = self.queue.remove(0);
            let ghost q_rest = self.queue@;
            proof {
                assert(self.queue@ =~= q0.drop_first());
                assert(item == (spec, plan));
                assert(queue_names(q0) =~= seq![spec.name_view()] + queue_names(self.queue@));
            }
            let ghost pending1 = self.pending();
            let ghost steps = plan.steps();
            let ghost ev0 = event_views(events@);
            let (task_events_out, metrics) = match self.execute_task(&spec, plan) {
                Ok(x) => x,
                Err(e) => {
                    proof {
                        let k = choose|k: int|
                            0 <= k < plan.steps().len() && steps_allowed(plan.steps(), k, spec.capability_views(), served0)
                                && step_failure(spec.name_view(), plan.steps()[k], spec.capability_views(), served0, e@);
                        assert(ran.push(item) + q_rest =~= ran + q0);
                        assert(ran.push(item) + q_rest == old_q + all_spawned(ran));
                    }
                    return Err(e);
                },
            };
            let ghost tev = event_views(task_events_out@);
            if task_events_out.len() > usize::MAX - events.len() {
                // A trace this long cannot be numbered; the address space
                // would be exhausted long before.
                proof {
                    let answered = choose|answered: Seq<Seq<SpecCapabilityEvent>>|
                        answered.len() == steps.len() && tev == task_events(spec.name_view(), steps, answered);
                    let ran2 = ran.push(item);
                    let answers2 = answers.push(answered);
                    assert(ran2.drop_last() =~= ran);
                    assert(answers2.drop_last() =~= answers);
                    assert(all_spawned(ran2) == all_spawned(ran) + spawned_pairs(plan.op_list()));
                    assert(ran2 + self.queue@ =~= (ran + q0) + spawned_pairs(plan.op_list()));
                    assert(ran2 + self.queue@ =~= old_q + all_spawned(ran2));
                    assert(trace_of(ran2, answers2) == trace_of(ran, answers) + tev);
                    assert forall|i: int| 0 <= i < ran2.len() implies (#[trigger] answers2[i]).len() == ran2[i].1.steps().len()
                        && steps_allowed(ran2[i].1.steps(), ran2[i].1.steps().len() as int, ran2[i].0.capability_views(), served0) by {
                        if i < ran.len() {
                            assert(answers2[i] == answers[i]);
                            assert(ran2[i] == ran[i]);
                        }
                    }
                    assert(all_allowed(ran2, answers2, served0));
                    assert(trace_of(ran2, answers2).len() > usize::MAX);
                }
                return Err(RuntimeError::serialization(to_owned_string("event sequence overflow")));
            }
            let mut j: usize = 0;
            while j < task_events_out.len()
                invariant
                    j <= task_events_out.len(),
                    telemetry@.len() == events@.len(),
                    events@.len() + (task_events_out@.len() - j) <= usize::MAX,
                    self.wf(),
                    self.served() == served0,
                    served0 == old(self).served(),
                    tev == event_views(task_events_out@),
                    event_views(events@) == ev0 + tev.take(j as int),
                    old_q == old(self).queue@,
                    forall|k: int|
                        0 <= k < telemetry@.len() ==> (#[trigger] telemetry@[k]).sequence == k
                            && telemetry@[k].event@ == events@[k]@,
                decreases task_events_out.len() - j,
            {
                let sequence = events.len();
                let ghost before = event_views(events@);
                telemetry.push(
                    TelemetryEvent {
                        sequence,
                        timestamp_micros: wall_clock_micros(),
                        event: task_events_out[j].copy(),
                    },
                );
                events.push(task_events_out[j].copy());
                proof {
                    assert(tev.take(j + 1) =~= tev.take(j as int).push(tev[j as int]));
                    assert(event_views(events@) =~= before.push(tev[j as int]));
                }
                j = j + 1;
            }
            proof {
                assert(tev.take(tev.len() as int) =~= tev);
                let answered = choose|answered: Seq<Seq<SpecCapabilityEvent>>|
                    answered.len() == steps.len() && tev == task_events(spec.name_view(), steps, answered);
                lemma_scheduled_task(spec.name_view(), steps, answered);
                lemma_scheduled_concat(ev0, tev);
            }
            let ghost tasks0 = tasks@;
            let ghost mt = metrics;
            tasks.push(metrics);
            proof {
                let answered = choose|answered: Seq<Seq<SpecCapabilityEvent>>|
                    answered.len() == steps.len() && tev == task_events(spec.name_view(), steps, answered);
                let ran2 = ran.push(item);
                let answers2 = answers.push(answered);
                assert(ran2.drop_last() =~= ran);
                assert(answers2.drop_last() =~= answers);
                assert(all_spawned(ran2) == all_spawned(ran) + spawned_pairs(plan.op_list()));
                assert(ran2 + self.queue@ =~= (ran + q0) + spawned_pairs(plan.op_list()));
                assert(ran2 + self.queue@ =~= old_q + all_spawned(ran2));
                assert(trace_of(ran2, answers2) == trace_of(ran, answers) + tev);
                assert(event_views(events@) =~= trace_of(ran2, answers2));
                assert forall|i: int| 0 <= i < ran2.len() implies (#[trigger] answers2[i]).len() == ran2[i].1.steps().len()
                    && steps_allowed(ran2[i].1.steps(), ran2[i].1.steps().len() as int, ran2[i].0.capability_views(), served0) by {
                    if i < ran.len() {
                        assert(answers2[i] == answers[i]);
                        assert(ran2[i] == ran[i]);
                    }
                }
                assert forall|i: int| 0 <= i < ran2.len() implies (#[trigger] tasks@[i]).task@ == ran2[i].0.name_view()
                    && tasks@[i].event_count == task_events(ran2[i].0.name_view(), ran2[i].1.steps(), answers2[i]).len() by {
                    if i < ran.len() {
                        assert(tasks@[i] == tasks0[i]);
                        assert(answers2[i] == answers[i]);
                        assert(ran2[i] == ran[i]);
                    } else {
                        assert(tasks@[i] == mt);
                    }
                }
                ran = ran2;
                answers = answers2;
            }
            proof {
                let spawned = spawned_children(steps, steps.len() as int);
                assert(pending0 =~= seq![spec.name_view()] + pending1);
                assert(self.pending() == pending1 + spawned);
                assert(scheduled_children(event_views(events@)) == scheduled_children(ev0) + spawned);
                assert(task_names(tasks@) =~= task_names(tasks0).push(spec.name_view()));
                assert(task_names(tasks0) + pending0 == initial + scheduled_children(ev0));
                assert(task_names(tasks@) + self.pending() =~= (task_names(tasks0) + pending0) + spawned);
                assert(initial + scheduled_children(event_views(events@)) =~= (initial + scheduled_children(ev0)) + spawned);
            }
        }
        proof {
            assert(self.queue@.len() == 0);
            assert(self.pending() =~= Seq::<Seq<char>>::empty());
            assert(task_names(tasks@) + self.pending() =~= task_names(tasks@));
            assert(ran + self.queue@ =~= ran);
        }
        let trace = RuntimeTrace { events, telemetry, tasks };
        assert(trace_of(ran, answers) == event_views(trace.event_list()));
        Ok(trace)
    }

    /// Runs queued tasks and returns their events: those of each task run,
    /// in FIFO order with spawned children queued at the back; an error
    /// names the first step that invokes a capability its task does not
    /// declare (`MissingCapability`) or no provider serves
    /// (`UnknownCapability`), or is what a provider reported; a trace too
    /// long to number is a serialization error.
    pub fn run(&mut self) -> (r: Result<Vec<RuntimeEvent>, RuntimeError>)
        requires
            old(self).wf(),
        ensures
            final(self).wf(),
            final(self).served() == old(self).served(),
            r is Ok ==> final(self).pending() == Seq::<Seq<char>>::empty(),
            r matches Ok(evs) ==> exists|ran: Seq<(TaskSpec, TaskPlan)>, answers: Seq<Seq<Seq<SpecCapabilityEvent>>>|
                #[trigger] trace_of(ran, answers) == event_views(evs@)
                    && ran == old(self).queue_list() + all_spawned(ran)
                    && all_allowed(ran, answers, old(self).served()),
            r matches Err(e) ==> (e@ is SerializationFailure && exists|
                ran: Seq<(TaskSpec, TaskPlan)>,
                answers: Seq<Seq<Seq<SpecCapabilityEvent>>>,
                rest: Seq<(TaskSpec, TaskPlan)>,
            |
                #![trigger ran + rest, all_allowed(ran, answers, old(self).served())]
                ran + rest == old(self).queue_list() + all_spawned(ran)
                    && all_allowed(ran, answers, old(self).served())
                    && trace_of(ran, answers).len() > usize::MAX) || exists|
                ran: Seq<(TaskSpec, TaskPlan)>,
                answers: Seq<Seq<Seq<SpecCapabilityEvent>>>,
                failing: (TaskSpec, TaskPlan),
                rest: Seq<(TaskSpec, TaskPlan)>,
                k: int,
            |
                #![trigger ran.push(failing) + rest, all_allowed(ran, answers, old(self).served()), steps_allowed(failing.1.steps(), k, failing.0.capability_views(), old(self).served())]
                ran.push(failing) + rest == old(self).queue_list() + all_spawned(ran)
                    && all_allowed(ran, answers, old(self).served())
                    && 0 <= k < failing.1.steps().len()
                    && steps_allowed(failing.1.steps(), k, failing.0.capability_views(), old(self).served())
                    && step_failure(
                        failing.0.name_view(),
                        failing.1.steps()[k],
                        failing.0.capability_views(),
                        old(self).served(),
                        e@,
                    ),
    {
        match self.run_with_telemetry() {
            Ok(trace) => Ok(trace.into_events()),
            Err(e) => Err(e),
        }
    }
}


// ---------------------------------------------------------------------------
// Summaries
// ---------------------------------------------------------------------------

/// Totals over a whole trace.
#[derive(Debug, PartialEq)]
pub struct RuntimeTraceSummary {
    pub total_tasks: usize,
    pub total_events: usize,
    pub spawned_tasks: usize,
    pub capability_counts: StrMap<usize>,
    pub operation_counts: StrMap<usize>,
    pub capability_durations_micros: StrMap<u128>,
    pub operation_durations_micros: StrMap<u128>,
}

/// `m` with each entry's value added to the total under its key, totals
/// saturating at `limit`.
pub open spec fn add_entries(m: Map<Seq<char>, nat>, es: Seq<(Seq<char>, nat)>, limit: nat) -> Map<
    Seq<char>,
    nat,
>
    decreases es.len(),
{
    if es.len() == 0 {
        m
    } else {
        let prev = add_entries(m, es.drop_last(), limit);
        let (k, v) = es.last();
        let base = if prev.contains_key(k) {
            prev[k]
        } else {
            0
        };
        prev.insert(
            k,
            if base + v > limit {
                limit
            } else {
                base + v
            },
        )
    }
}

/// The totals of several entry lists, in order.
pub open spec fn merge_entries(lists: Seq<Seq<(Seq<char>, nat)>>, limit: nat) -> Map<Seq<char>, nat>
    decreases lists.len(),
{
    if lists.len() == 0 {
        Map::empty()
    } else {
        add_entries(merge_entries(lists.drop_last(), limit), lists.last(), limit)
    }
}

pub open spec fn cap_entries(t: TaskTelemetry) -> Seq<(Seq<char>, nat)> {
    super::json::count_entries(t.capability_counts.entries_view())
}

pub open spec fn op_entries(t: TaskTelemetry) -> Seq<(Seq<char>, nat)> {
    super::json::count_entries(t.operation_counts.entries_view())
}

pub open spec fn cap_duration_entries(t: TaskTelemetry) -> Seq<(Seq<char>, nat)> {
    super::json::total_entries(t.capability_durations_micros.entries_view())
}

pub open spec fn op_duration_entries(t: TaskTelemetry) -> Seq<(Seq<char>, nat)> {
    super::json::total_entries(t.operation_durations_micros.entries_view())
}

pub open spec fn nat_map(m: Map<Seq<char>, usize>) -> Map<Seq<char>, nat> {
    m.map_values(|v: usize| v as nat)
}

pub open spec fn nat_map_wide(m: Map<Seq<char>, u128>) -> Map<Seq<char>, nat> {
    m.map_values(|v: u128| v as nat)
}

pub open spec fn sum_spawned(tasks: Seq<TaskTelemetry>) -> nat
    decreases tasks.len(),
{
    if tasks.len() == 0 {
        0
    } else {
        sum_spawned(tasks.drop_last()) + tasks.last().spawned_tasks as nat
    }
}

/// Adds each entry of `from` to `into`, saturating.
fn add_counts(into: &mut StrMap<usize>, from: &StrMap<usize>)
    requires
        old(into).wf(),
    ensures
        final(into).wf(),
        nat_map(final(into)@) == add_entries(
            nat_map(old(into)@),
            super::json::count_entries(from.entries_view()),
            usize::MAX as nat,
        ),
{
    let es = from.entries();
    let ghost start = nat_map(into@);
    let ghost all = super::json::count_entries(from.entries_view());
    let mut i: usize = 0;
    while i < es.len()
        invariant
            i <= es.len(),
            into.wf(),
            es@.map_values(|e: (String, usize)| (e.0@, e.1)) == from.entries_view(),
            all == super::json::count_entries(from.entries_view()),
            nat_map(into@) == add_entries(start, all.take(i as int), usize::MAX as nat),
        decreases es.len() - i,
    {
        let key = es[i].0.as_str();
        let v = es[i].1;
        let current = match into.get(key) {
            Some(c) => *c,
            None => 0,
        };
        let total = if current <= usize::MAX - v {
            current + v
        } else {
            usize::MAX
        };
        let ghost before = into@;
        into.insert(crate::text::to_owned_string(key), total);
        proof {
            assert(from.entries_view()[i as int] == (es@[i as int].0@, es@[i as int].1));
            assert(all.take(i + 1).drop_last() =~= all.take(i as int));
            assert(all.take(i + 1).last() == (key@, v as nat));
            assert(nat_map(into@) =~= nat_map(before).insert(key@, total as nat));
        }
        i = i + 1;
    }
    assert(all.take(es.len() as int) =~= all);
}

/// Adds each entry of `from` to `into`, saturating.
fn add_totals(into: &mut StrMap<u128>, from: &StrMap<u128>)
    requires
        old(into).wf(),
    ensures
        final(into).wf(),
        nat_map_wide(final(into)@) == add_entries(
            nat_map_wide(old(into)@),
            super::json::total_entries(from.entries_view()),
            u128::MAX as nat,
        ),
{
    let es = from.entries();
    let ghost start = nat_map_wide(into@);
    let ghost all = super::json::total_entries(from.entries_view());
    let mut i: usize = 0;
    while i < es.len()
        invariant
            i <= es.len(),
            into.wf(),
            es@.map_values(|e: (String, u128)| (e.0@, e.1)) == from.entries_view(),
            all == super::json::total_entries(from.entries_view()),
            nat_map_wide(into@) == add_entries(start, all.take(i as int), u128::MAX as nat),
        decreases es.len() - i,
    {
        let key = es[i].0.as_str();
        let v = es[i].1;
        let current = match into.get(key) {
            Some(c) => *c,
            None => 0,
        };
        let total = if current <= u128::MAX - v {
            current + v
        } else {
            u128::MAX
        };
        let ghost before = into@;
        into.insert(crate::text::to_owned_string(key), total);
        proof {
            assert(from.entries_view()[i as int] == (es@[i as int].0@, es@[i as int].1));
            assert(all.take(i + 1).drop_last() =~= all.take(i as int));
            assert(all.take(i + 1).last() == (key@, v as nat));
            assert(nat_map_wide(into@) =~= nat_map_wide(before).insert(key@, total as nat));
        }
        i = i + 1;
    }
    assert(all.take(es.len() as int) =~= all);
}

impl RuntimeTrace {
    /// `s` holds the totals of this trace.
    pub open spec fn summarizes(&self, s: RuntimeTraceSummary) -> bool {
        &&& s.total_tasks == self.task_list().len()
        &&& s.total_events == self.event_list().len()
        &&& s.spawned_tasks as nat == (if sum_spawned(self.task_list()) > usize::MAX {
            usize::MAX as nat
        } else {
            sum_spawned(self.task_list())
        })
        &&& s.capability_counts.wf() && s.operation_counts.wf()
        &&& s.capability_durations_micros.wf() && s.operation_durations_micros.wf()
        &&& nat_map(s.capability_counts@) == merge_entries(
            self.task_list().map_values(|t: TaskTelemetry| cap_entries(t)),
            usize::MAX as nat,
        )
        &&& nat_map(s.operation_counts@) == merge_entries(
            self.task_list().map_values(|t: TaskTelemetry| op_entries(t)),
            usize::MAX as nat,
        )
        &&& nat_map_wide(s.capability_durations_micros@) == merge_entries(
            self.task_list().map_values(|t: TaskTelemetry| cap_duration_entries(t)),
            u128::MAX as nat,
        )
        &&& nat_map_wide(s.operation_durations_micros@) == merge_entries(
            self.task_list().map_values(|t: TaskTelemetry| op_duration_entries(t)),
            u128::MAX as nat,
        )
    }

    /// Totals over the trace: tasks, events, spawned children, and each
    /// count and duration map merged over the tasks (saturating).
    pub fn summary(&self) -> (s: RuntimeTraceSummary)
        ensures
            self.summarizes(s),
    {
        let mut caps: StrMap<usize> = StrMap::new();
        let mut opers: StrMap<usize> = StrMap::new();
        let mut cap_durs: StrMap<u128> = StrMap::new();
        let mut op_durs: StrMap<u128> = StrMap::new();
        let mut spawned: usize = 0;
        let ghost ts = self.tasks@;
        let mut i: usize = 0;
        proof {
            assert(nat_map(caps@) =~= Map::<Seq<char>, nat>::empty());
            assert(nat_map(opers@) =~= Map::<Seq<char>, nat>::empty());
            assert(nat_map_wide(cap_durs@) =~= Map::<Seq<char>, nat>::empty());
            assert(nat_map_wide(op_durs@) =~= Map::<Seq<char>, nat>::empty());
        }
        while i < self.tasks.len()
            invariant
                i <= self.tasks.len(),
                ts == self.tasks@,
                caps.wf() && opers.wf() && cap_durs.wf() && op_durs.wf(),
                spawned as nat == (if sum_spawned(ts.take(i as int)) > usize::MAX {
                    usize::MAX as nat
                } else {
                    sum_spawned(ts.take(i as int))
                }),
                nat_map(caps@) == merge_entries(ts.take(i as int).map_values(|t: TaskTelemetry| cap_entries(t)), usize::MAX as nat),
                nat_map(opers@) == merge_entries(ts.take(i as int).map_values(|t: TaskTelemetry| op_entries(t)), usize::MAX as nat),
                nat_map_wide(cap_durs@) == merge_entries(ts.take(i as int).map_values(|t: TaskTelemetry| cap_duration_entries(t)), u128::MAX as nat),
                nat_map_wide(op_durs@) == merge_entries(ts.take(i as int).map_values(|t: TaskTelemetry| op_duration_entries(t)), u128::MAX as nat),
            decreases self.tasks.len() - i,
        {
            let t = &self.tasks[i];
            add_counts(&mut caps, &t.capability_counts);
            add_counts(&mut opers, &t.operation_counts);
            add_totals(&mut cap_durs, &t.capability_durations_micros);
            add_totals(&mut op_durs, &t.operation_durations_micros);
            spawned = if spawned <= usize::MAX - t.spawned_tasks {
                spawned + t.spawned_tasks
            } else {
                usize::MAX
            };
            proof {
                let t2 = ts.take(i + 1);
                assert(t2.drop_last() =~= ts.take(i as int));
                assert(t2.last() == *t);
                assert(t2.map_values(|t: TaskTelemetry| cap_entries(t)).drop_last() =~= ts.take(i as int).map_values(|t: TaskTelemetry| cap_entries(t)));
                assert(t2.map_values(|t: TaskTelemetry| op_entries(t)).drop_last() =~= ts.take(i as int).map_values(|t: TaskTelemetry| op_entries(t)));
                assert(t2.map_values(|t: TaskTelemetry| cap_duration_entries(t)).drop_last() =~= ts.take(i as int).map_values(|t: TaskTelemetry| cap_duration_entries(t)));
                assert(t2.map_values(|t: TaskTelemetry| op_duration_entries(t)).drop_last() =~= ts.take(i as int).map_values(|t: TaskTelemetry| op_duration_entries(t)));
            }
            i = i + 1;
        }
        assert(ts.take(ts.len() as int) =~= ts);
        RuntimeTraceSummary {
            total_tasks: self.tasks.len(),
            total_events: self.events.len(),
            spawned_tasks: spawned,
            capability_counts: caps,
            operation_counts: opers,
            capability_durations_micros: cap_durs,
            operation_durations_micros: op_durs,
        }
    }
}


impl<P: CapabilityProvider> Runtime<P> {
    /// The provider serving `name`.
    pub fn provider(&self, name: &str) -> (r: Option<&P>)
        requires
            self.wf(),
        ensures
            r matches Some(p) ==> p.capability() == name@ && self.served().contains(name@),
            r is None ==> !self.served().contains(name@),
    {
        match self.lookup_provider(name) {
            Some(i) => {
                assert(self.served()[i as int] == self.providers@[i as int].capability());
                Some(&self.providers[i])
            },
            None => None,
        }
    }
}

impl Runtime<BuiltinProvider> {
    /// A runtime serving `io` from a scripted console, `time` from a clock
    /// counting from 0 by 1, `fs` and `env` from memory, `net` from
    /// fixtures, and `process` from scripted runs.
    pub fn with_deterministic_shims() -> (r: Result<Runtime<BuiltinProvider>, RuntimeError>)
        ensures
            r matches Ok(rt) && rt.wf() && rt.served() == seq!["io"@, "time"@, "fs"@, "net"@, "env"@, "process"@]
                && rt.pending() == Seq::<Seq<char>>::empty(),
    {
        let mut rt: Runtime<BuiltinProvider> = Runtime::new();
        proof {
            reveal_strlit("io");
            reveal_strlit("time");
            reveal_strlit("fs");
            reveal_strlit("net");
            reveal_strlit("env");
            reveal_strlit("process");
        }
        let ghost names = seq!["io"@, "time"@, "fs"@, "net"@, "env"@, "process"@];
        proof {
            assert(names[0].len() == 2 && names[1].len() == 4 && names[2].len() == 2);
            assert(names[3].len() == 3 && names[4].len() == 3 && names[5].len() == 7);
            assert(names[0][0] == 'i' && names[2][0] == 'f' && names[3][0] == 'n' && names[4][0] == 'e');
            assert forall|a: int, b: int| 0 <= a < b < 6 implies names[a] != names[b] by {
                if names[a] == names[b] {
                    assert(names[a].len() == names[b].len());
                    assert(names[a][0] == names[b][0]);
                }
            }
        }
        let r1 = rt.register_provider(BuiltinProvider::ScriptedConsole(DeterministicConsoleProvider::new()));
        assert(rt.served() =~= names.take(1));
        let r2 = rt.register_provider(BuiltinProvider::Time(DeterministicTimeProvider::monotonic(0, 1)));
        assert(!names.take(1).contains(names[1]));
        assert(rt.served() =~= names.take(2));
        let r3 = rt.register_provider(BuiltinProvider::Filesystem(InMemoryFilesystemProvider::new()));
        assert(!names.take(2).contains(names[2]));
        assert(rt.served() =~= names.take(3));
        let r4 = rt.register_provider(BuiltinProvider::Network(NetworkProvider::new()));
        assert(!names.take(3).contains(names[3]));
        assert(rt.served() =~= names.take(4));
        let r5 = rt.register_provider(BuiltinProvider::Env(DeterministicEnvProvider::new()));
        assert(!names.take(4).contains(names[4]));
        assert(rt.served() =~= names.take(5));
        let r6 = rt.register_provider(BuiltinProvider::Process(DeterministicProcessProvider::new()));
        assert(!names.take(5).contains(names[5]));
        assert(rt.served() =~= seq!["io"@, "time"@, "fs"@, "net"@, "env"@, "process"@]);
        Ok(rt)
    }
}

} // verus!
