//! A capability runtime: tasks declare the capabilities they use, and a
//! FIFO scheduler runs their plans against registered providers.
use vstd::prelude::*;

pub mod host;
pub mod json;
pub mod providers;
pub mod scheduler;
pub mod store;

use crate::text::{copy_string, push_str, str_eq, to_owned_string};

verus! {

// ---------------------------------------------------------------------------
// Errors
// ---------------------------------------------------------------------------

/// What went wrong while running tasks.
#[derive(Debug, Clone, PartialEq, Eq)]
pub enum RuntimeErrorKind {
    DuplicateProvider { name: String },
    UnknownCapability { name: String },
    MissingCapability { task: String, capability: String },
    ProviderFailure { capability: String, message: String },
    SerializationFailure { message: String },
}

/// A runtime error, with its kind.
#[derive(Debug, Clone, PartialEq, Eq)]
pub struct RuntimeError {
    kind: RuntimeErrorKind,
}

/// A runtime error with its texts as character sequences.
pub enum SpecErrorKind {
    DuplicateProvider { name: Seq<char> },
    UnknownCapability { name: Seq<char> },
    MissingCapability { task: Seq<char>, capability: Seq<char> },
    ProviderFailure { capability: Seq<char>, message: Seq<char> },
    SerializationFailure { message: Seq<char> },
}

impl View for RuntimeError {
    type V = SpecErrorKind;

    closed spec fn view(&self) -> SpecErrorKind {
        self.kind@
    }
}

impl View for RuntimeErrorKind {
    type V = SpecErrorKind;

    open spec fn view(&self) -> SpecErrorKind {
        match self {
            RuntimeErrorKind::DuplicateProvider { name } => SpecErrorKind::DuplicateProvider {
                name: name@,
            },
            RuntimeErrorKind::UnknownCapability { name } => SpecErrorKind::UnknownCapability {
                name: name@,
            },
            RuntimeErrorKind::MissingCapability { task, capability } =>
                SpecErrorKind::MissingCapability { task: task@, capability: capability@ },
            RuntimeErrorKind::ProviderFailure { capability, message } =>
                SpecErrorKind::ProviderFailure { capability: capability@, message: message@ },
            RuntimeErrorKind::SerializationFailure { message } =>
                SpecErrorKind::SerializationFailure { message: message@ },
        }
    }
}

/// How an error is displayed.
pub open spec fn runtime_error_text(e: SpecErrorKind) -> Seq<char> {
    match e {
        SpecErrorKind::DuplicateProvider { name } => "capability provider '"@ + name
            + "' already registered"@,
        SpecErrorKind::UnknownCapability { name } => "capability '"@ + name
            + "' is not registered with the runtime"@,
        SpecErrorKind::MissingCapability { task, capability } => "task '"@ + task
            + "' attempted to use capability '"@ + capability + "' but it is not declared"@,
        SpecErrorKind::ProviderFailure { capability, message } => "capability provider '"@
            + capability + "' reported an error: "@ + message,
        SpecErrorKind::SerializationFailure { message } => "failed to serialize runtime trace: "@
            + message,
    }
}

impl RuntimeError {
    pub fn duplicate_provider(name: String) -> (e: RuntimeError)
        ensures
            e@ == (SpecErrorKind::DuplicateProvider { name: name@ }),
    {
        RuntimeError { kind: RuntimeErrorKind::DuplicateProvider { name } }
    }

    pub fn unknown_capability(name: &str) -> (e: RuntimeError)
        ensures
            e@ == (SpecErrorKind::UnknownCapability { name: name@ }),
    {
        RuntimeError { kind: RuntimeErrorKind::UnknownCapability { name: to_owned_string(name) } }
    }

    pub fn missing_capability(task: &str, capability: &str) -> (e: RuntimeError)
        ensures
            e@ == (SpecErrorKind::MissingCapability { task: task@, capability: capability@ }),
    {
        RuntimeError {
            kind: RuntimeErrorKind::MissingCapability {
                task: to_owned_string(task),
                capability: to_owned_string(capability),
            },
        }
    }

    /// A provider of `capability` failed with `message`.
    pub fn provider_failure(capability: &str, message: String) -> (e: RuntimeError)
        ensures
            e@ == (SpecErrorKind::ProviderFailure { capability: capability@, message: message@ }),
    {
        RuntimeError {
            kind: RuntimeErrorKind::ProviderFailure {
                capability: to_owned_string(capability),
                message,
            },
        }
    }

    /// A trace could not be serialised.
    pub fn serialization(message: String) -> (e: RuntimeError)
        ensures
            e@ == (SpecErrorKind::SerializationFailure { message: message@ }),
    {
        RuntimeError { kind: RuntimeErrorKind::SerializationFailure { message } }
    }

    /// What went wrong.
    pub fn kind(&self) -> (k: &RuntimeErrorKind)
        ensures
            k@ == self@,
    {
        &self.kind
    }

    /// The error as displayed to users.
    pub fn to_display_string(&self) -> (s: String)
        ensures
            s@ == runtime_error_text(self@),
    {
        let mut s = String::new();
        match &self.kind {
            RuntimeErrorKind::DuplicateProvider { name } => {
                push_str(&mut s, "capability provider '");
                push_str(&mut s, name.as_str());
                push_str(&mut s, "' already registered");
            },
            RuntimeErrorKind::UnknownCapability { name } => {
                push_str(&mut s, "capability '");
                push_str(&mut s, name.as_str());
                push_str(&mut s, "' is not registered with the runtime");
            },
            RuntimeErrorKind::MissingCapability { task, capability } => {
                push_str(&mut s, "task '");
                push_str(&mut s, task.as_str());
                push_str(&mut s, "' attempted to use capability '");
                push_str(&mut s, capability.as_str());
                push_str(&mut s, "' but it is not declared");
            },
            RuntimeErrorKind::ProviderFailure { capability, message } => {
                push_str(&mut s, "capability provider '");
                push_str(&mut s, capability.as_str());
                push_str(&mut s, "' reported an error: ");
                push_str(&mut s, message.as_str());
            },
            RuntimeErrorKind::SerializationFailure { message } => {
                push_str(&mut s, "failed to serialize runtime trace: ");
                push_str(&mut s, message.as_str());
            },
        }
        assert(s@ =~= runtime_error_text(self@));
        s
    }
}

// ---------------------------------------------------------------------------
// Values and events
// ---------------------------------------------------------------------------

/// A value exchanged between tasks and providers. A floating-point value is
/// carried as its decimal text.
#[derive(Debug, Clone, PartialEq)]
pub enum RuntimeValue {
    Unit,
    Int(i64),
    Float(String),
    Bool(bool),
    String(String),
}

pub enum SpecValue {
    Unit,
    Int(i64),
    Float(Seq<char>),
    Bool(bool),
    String(Seq<char>),
}

impl View for RuntimeValue {
    type V = SpecValue;

    open spec fn view(&self) -> SpecValue {
        match self {
            RuntimeValue::Unit => SpecValue::Unit,
            RuntimeValue::Int(v) => SpecValue::Int(*v),
            RuntimeValue::Float(t) => SpecValue::Float(t@),
            RuntimeValue::Bool(b) => SpecValue::Bool(*b),
            RuntimeValue::String(s) => SpecValue::String(s@),
        }
    }
}

impl RuntimeValue {
    pub fn unit() -> (v: RuntimeValue)
        ensures
            v@ == SpecValue::Unit,
    {
        RuntimeValue::Unit
    }

    pub fn string(value: &str) -> (v: RuntimeValue)
        ensures
            v@ == SpecValue::String(value@),
    {
        RuntimeValue::String(to_owned_string(value))
    }

    /// A copy of the value.
    pub fn copy(&self) -> (v: RuntimeValue)
        ensures
            v@ == self@,
    {
        match self {
            RuntimeValue::Unit => RuntimeValue::Unit,
            RuntimeValue::Int(v) => RuntimeValue::Int(*v),
            RuntimeValue::Float(t) => RuntimeValue::Float(copy_string(t)),
            RuntimeValue::Bool(b) => RuntimeValue::Bool(*b),
            RuntimeValue::String(s) => RuntimeValue::String(copy_string(s)),
        }
    }
}

/// Something a provider reports while handling an invocation.
#[derive(Debug, Clone, PartialEq)]
pub enum CapabilityEvent {
    Message(String),
    Data(RuntimeValue),
}

pub enum SpecCapabilityEvent {
    Message(Seq<char>),
    Data(SpecValue),
}

impl View for CapabilityEvent {
    type V = SpecCapabilityEvent;

    open spec fn view(&self) -> SpecCapabilityEvent {
        match self {
            CapabilityEvent::Message(m) => SpecCapabilityEvent::Message(m@),
            CapabilityEvent::Data(v) => SpecCapabilityEvent::Data(v@),
        }
    }
}

/// An event of a run, in the order the scheduler observes them.
#[derive(Debug, Clone, PartialEq)]
pub enum RuntimeEvent {
    TaskStarted { task: String },
    CapabilityInvoked { task: String, capability: String, operation: String },
    CapabilityEvent { task: String, capability: String, event: CapabilityEvent },
    TaskScheduled { parent: String, child: String },
    TaskCompleted { task: String },
}

pub enum SpecEvent {
    TaskStarted { task: Seq<char> },
    CapabilityInvoked { task: Seq<char>, capability: Seq<char>, operation: Seq<char> },
    CapabilityEvent { task: Seq<char>, capability: Seq<char>, event: SpecCapabilityEvent },
    TaskScheduled { parent: Seq<char>, child: Seq<char> },
    TaskCompleted { task: Seq<char> },
}

impl View for RuntimeEvent {
    type V = SpecEvent;

    open spec fn view(&self) -> SpecEvent {
        match self {
            RuntimeEvent::TaskStarted { task } => SpecEvent::TaskStarted { task: task@ },
            RuntimeEvent::CapabilityInvoked { task, capability, operation } =>
                SpecEvent::CapabilityInvoked {
                task: task@,
                capability: capability@,
                operation: operation@,
            },
            RuntimeEvent::CapabilityEvent { task, capability, event } =>
                SpecEvent::CapabilityEvent { task: task@, capability: capability@, event: event@ },
            RuntimeEvent::TaskScheduled { parent, child } => SpecEvent::TaskScheduled {
                parent: parent@,
                child: child@,
            },
            RuntimeEvent::TaskCompleted { task } => SpecEvent::TaskCompleted { task: task@ },
        }
    }
}

impl CapabilityEvent {
    /// A copy of the event.
    pub fn copy(&self) -> (e: CapabilityEvent)
        ensures
            e@ == self@,
    {
        match self {
            CapabilityEvent::Message(m) => CapabilityEvent::Message(copy_string(m)),
            CapabilityEvent::Data(v) => CapabilityEvent::Data(v.copy()),
        }
    }
}

impl RuntimeEvent {
    /// A copy of the event.
    pub fn copy(&self) -> (e: RuntimeEvent)
        ensures
            e@ == self@,
    {
        match self {
            RuntimeEvent::TaskStarted { task } => RuntimeEvent::TaskStarted { task: copy_string(task) },
            RuntimeEvent::CapabilityInvoked { task, capability, operation } =>
                RuntimeEvent::CapabilityInvoked {
                task: copy_string(task),
                capability: copy_string(capability),
                operation: copy_string(operation),
            },
            RuntimeEvent::CapabilityEvent { task, capability, event } =>
                RuntimeEvent::CapabilityEvent {
                task: copy_string(task),
                capability: copy_string(capability),
                event: event.copy(),
            },
            RuntimeEvent::TaskScheduled { parent, child } => RuntimeEvent::TaskScheduled {
                parent: copy_string(parent),
                child: copy_string(child),
            },
            RuntimeEvent::TaskCompleted { task } => RuntimeEvent::TaskCompleted { task: copy_string(task) },
        }
    }
}

/// The views of a list of capability events.
pub open spec fn cap_event_views(es: Seq<CapabilityEvent>) -> Seq<SpecCapabilityEvent> {
    es.map_values(|e: CapabilityEvent| e@)
}

/// The views of a list of runtime events.
pub open spec fn event_views(es: Seq<RuntimeEvent>) -> Seq<SpecEvent> {
    es.map_values(|e: RuntimeEvent| e@)
}

// ---------------------------------------------------------------------------
// Invocations and responses
// ---------------------------------------------------------------------------

/// A request to a provider.
#[derive(Debug, Clone)]
pub struct CapabilityInvocation {
    pub capability: String,
    pub operation: String,
    pub payload: Option<RuntimeValue>,
}

/// A provider's answer: a value and the events it emitted.
#[derive(Debug, Clone)]
pub struct ProviderResponse {
    pub value: RuntimeValue,
    pub events: Vec<CapabilityEvent>,
}

impl ProviderResponse {
    pub fn new(value: RuntimeValue) -> (r: ProviderResponse)
        ensures
            r.value@ == value@,
            cap_event_views(r.events@) == Seq::<SpecCapabilityEvent>::empty(),
    {
        let r = ProviderResponse { value, events: Vec::new() };
        assert(cap_event_views(r.events@) =~= Seq::<SpecCapabilityEvent>::empty());
        r
    }

    pub fn with_event(self, event: CapabilityEvent) -> (r: ProviderResponse)
        ensures
            r.value@ == self.value@,
            cap_event_views(r.events@) == cap_event_views(self.events@).push(event@),
    {
        let mut r = self;
        let ghost before = r.events@;
        r.events.push(event);
        assert(cap_event_views(r.events@) =~= cap_event_views(before).push(event@));
        r
    }
}

/// The string a payload carries, if it is a string.
pub open spec fn string_payload(p: Option<RuntimeValue>) -> Option<Seq<char>> {
    match p {
        Some(RuntimeValue::String(s)) => Some(s@),
        _ => None,
    }
}

/// The string a payload carries, if it is a string.
pub fn payload_string(p: &Option<RuntimeValue>) -> (r: Option<String>)
    ensures
        r matches Some(s) ==> string_payload(*p) == Some(s@),
        r is None ==> string_payload(*p) is None,
{
    match p {
        Some(RuntimeValue::String(s)) => Some(copy_string(s)),
        _ => None,
    }
}

// ---------------------------------------------------------------------------
// Task descriptions
// ---------------------------------------------------------------------------

/// `declared` with each of `names` appended in order, unless already there.
pub open spec fn declare_all(declared: Seq<Seq<char>>, names: Seq<Seq<char>>) -> Seq<Seq<char>>
    decreases names.len(),
{
    if names.len() == 0 {
        declared
    } else {
        let before = declare_all(declared, names.drop_last());
        if before.contains(names.last()) {
            before
        } else {
            before.push(names.last())
        }
    }
}

/// A task's name and the capabilities it declares, each listed once.
#[derive(Debug, Clone, PartialEq, Eq)]
pub struct TaskSpec {
    name: String,
    capabilities: Vec<String>,
}

impl TaskSpec {
    pub closed spec fn name_view(&self) -> Seq<char> {
        self.name@
    }

    pub closed spec fn capability_views(&self) -> Seq<Seq<char>> {
        self.capabilities@.map_values(|c: String| c@)
    }

    /// A task called `name` that declares no capability.
    pub fn new(name: &str) -> (t: TaskSpec)
        ensures
            t.name_view() == name@,
            t.capability_views() == Seq::<Seq<char>>::empty(),
    {
        let t = TaskSpec { name: to_owned_string(name), capabilities: Vec::new() };
        assert(t.capability_views() =~= Seq::<Seq<char>>::empty());
        t
    }

    /// Declares `capability`, unless it is declared already.
    pub fn require(&mut self, capability: &str)
        ensures
            final(self).name_view() == old(self).name_view(),
            old(self).capability_views().contains(capability@) ==> final(self).capability_views()
                == old(self).capability_views(),
            !old(self).capability_views().contains(capability@) ==> final(self).capability_views()
                == old(self).capability_views().push(capability@),
    {
        if !self.has_capability(capability) {
            let ghost before = self.capability_views();
            self.capabilities.push(to_owned_string(capability));
            assert(self.capability_views() =~= before.push(capability@));
        }
    }

    /// The task with each of `capabilities` declared, in order: a
    /// capability already declared (before, or earlier in the list) is not
    /// added again.
    pub fn with_capabilities(self, capabilities: &Vec<String>) -> (t: TaskSpec)
        ensures
            t.name_view() == self.name_view(),
            t.capability_views() == declare_all(self.capability_views(), capabilities@.map_values(|s: String| s@)),
    {
        let mut t = self;
        let mut i: usize = 0;
        while i < capabilities.len()
            invariant
                i <= capabilities.len(),
                t.name_view() == self.name_view(),
                t.capability_views() == declare_all(
                    self.capability_views(),
                    capabilities@.take(i as int).map_values(|s: String| s@),
                ),
            decreases capabilities.len() - i,
        {
            t.require(capabilities[i].as_str());
            proof {
                let f = |s: String| s@;
                assert(capabilities@.take(i + 1).map_values(f).drop_last() =~= capabilities@.take(
                    i as int,
                ).map_values(f));
                assert(capabilities@.take(i + 1).map_values(f).last() == capabilities@[i as int]@);
            }
            i = i + 1;
        }
        assert(capabilities@.take(capabilities.len() as int) =~= capabilities@);
        t
    }

    /// Whether the task declares `name`.
    pub fn has_capability(&self, name: &str) -> (r: bool)
        ensures
            r == self.capability_views().contains(name@),
    {
        let mut i: usize = 0;
        while i < self.capabilities.len()
            invariant
                i <= self.capabilities.len(),
                forall|k: int| 0 <= k < i ==> self.capability_views()[k] != name@,
            decreases self.capabilities.len() - i,
        {
            if str_eq(self.capabilities[i].as_str(), name) {
                assert(self.capability_views()[i as int] == name@);
                return true;
            }
            i = i + 1;
        }
        false
    }

    /// The task's name.
    pub fn name(&self) -> (n: &str)
        ensures
            n@ == self.name_view(),
    {
        self.name.as_str()
    }

    /// The declared capabilities, in the order first declared.
    pub fn capabilities(&self) -> (c: &Vec<String>)
        ensures
            c@.map_values(|s: String| s@) == self.capability_views(),
    {
        &self.capabilities
    }
}


// ---------------------------------------------------------------------------
// Plans
// ---------------------------------------------------------------------------

/// One step of a task: invoke a capability, or schedule a child task.
#[derive(Debug)]
pub enum TaskOp {
    Invoke { capability: String, operation: String, payload: Option<RuntimeValue> },
    Spawn { spec: TaskSpec, plan: TaskPlan },
}

/// The steps a task performs, in order.
#[derive(Debug)]
pub struct TaskPlan {
    ops: Vec<TaskOp>,
}

/// A step with its texts as character sequences; a spawned child is known by
/// its name.
pub enum SpecOp {
    Invoke { capability: Seq<char>, operation: Seq<char>, payload: Option<SpecValue> },
    Spawn { child: Seq<char> },
}

impl View for TaskOp {
    type V = SpecOp;

    open spec fn view(&self) -> SpecOp {
        match self {
            TaskOp::Invoke { capability, operation, payload } => SpecOp::Invoke {
                capability: capability@,
                operation: operation@,
                payload: match payload {
                    Some(v) => Some(v@),
                    None => None,
                },
            },
            TaskOp::Spawn { spec, .. } => SpecOp::Spawn { child: spec.name_view() },
        }
    }
}

pub open spec fn op_views(ops: Seq<TaskOp>) -> Seq<SpecOp> {
    ops.map_values(|o: TaskOp| o@)
}

impl TaskPlan {
    pub closed spec fn steps(&self) -> Seq<SpecOp> {
        op_views(self.ops@)
    }

    /// A plan with no step.
    pub fn new() -> (p: TaskPlan)
        ensures
            p.steps() == Seq::<SpecOp>::empty(),
    {
        let p = TaskPlan { ops: Vec::new() };
        assert(p.steps() =~= Seq::<SpecOp>::empty());
        p
    }

    /// The plan followed by an invocation of `operation` on `capability`.
    pub fn invoke(self, capability: &str, operation: &str, payload: Option<RuntimeValue>) -> (p:
        TaskPlan)
        ensures
            p.steps() == self.steps().push(
                SpecOp::Invoke {
                    capability: capability@,
                    operation: operation@,
                    payload: match payload {
                        Some(v) => Some(v@),
                        None => None,
                    },
                },
            ),
    {
        let mut p = self;
        let ghost before = p.ops@;
        let op = TaskOp::Invoke {
            capability: to_owned_string(capability),
            operation: to_owned_string(operation),
            payload,
        };
        let ghost ov = op@;
        p.ops.push(op);
        assert(op_views(p.ops@) =~= op_views(before).push(ov));
        p
    }

    /// The plan followed by scheduling a child task.
    pub fn spawn(self, spec: TaskSpec, plan: TaskPlan) -> (p: TaskPlan)
        ensures
            p.steps() == self.steps().push(SpecOp::Spawn { child: spec.name_view() }),
    {
        let mut p = self;
        let ghost before = p.ops@;
        let ghost child = spec.name_view();
        p.ops.push(TaskOp::Spawn { spec, plan });
        assert(op_views(p.ops@) =~= op_views(before).push(SpecOp::Spawn { child }));
        p
    }

    /// The steps.
    pub fn ops(&self) -> (ops: &Vec<TaskOp>)
        ensures
            op_views(ops@) == self.steps(),
    {
        &self.ops
    }
}

} // verus!

verus! {

/// Number of steps of a plan, counting the steps of child plans too, plus
/// one for the plan itself.
pub closed spec fn plan_size(p: TaskPlan) -> nat
    decreases p, 2nat,
{
    1 + ops_size(p.ops@, p.ops@.len() as int)
}

/// The size of the first `n` steps.
pub open spec fn ops_size(ops: Seq<TaskOp>, n: int) -> nat
    decreases ops, 1nat, n,
{
    if n <= 0 || n > ops.len() {
        0
    } else {
        ops_size(ops, n - 1) + op_size(ops[n - 1])
    }
}

/// The size of one step: one, plus the size of a spawned child's plan.
pub open spec fn op_size(op: TaskOp) -> nat
    decreases op, 0nat,
{
    match op {
        TaskOp::Invoke { .. } => 1,
        TaskOp::Spawn { plan, .. } => 1 + plan_size(plan),
    }
}

pub proof fn lemma_ops_size_prefix(s: Seq<TaskOp>, t: Seq<TaskOp>, n: int)
    requires
        0 <= n <= s.len(),
        n <= t.len(),
        forall|i: int| 0 <= i < n ==> s[i] == t[i],
    ensures
        ops_size(s, n) == ops_size(t, n),
    decreases n,
{
    if n > 0 {
        lemma_ops_size_prefix(s, t, n - 1);
    }
}

/// The size of a non-empty list of steps is that of its first step plus
/// that of the rest.
pub proof fn lemma_ops_size_first(s: Seq<TaskOp>)
    requires
        s.len() > 0,
    ensures
        ops_size(s, s.len() as int) == op_size(s[0]) + ops_size(s.drop_first(), s.len() - 1),
    decreases s.len(),
{
    let n = s.len() as int;
    if n == 1 {
        assert(ops_size(s, 0) == 0);
        assert(ops_size(s.drop_first(), 0) == 0);
    } else {
        let t = s.take(n - 1);
        lemma_ops_size_first(t);
        lemma_ops_size_prefix(s, t, n - 1);
        lemma_ops_size_prefix(s.drop_first(), t.drop_first(), n - 2);
        assert(s.drop_first()[n - 2] == s[n - 1]);
        assert(ops_size(s.drop_first(), n - 1) == ops_size(s.drop_first(), n - 2) + op_size(
            s.drop_first()[n - 2],
        ));
    }
}

impl TaskPlan {
    /// The steps themselves.
    pub closed spec fn op_list(&self) -> Seq<TaskOp> {
        self.ops@
    }

    pub proof fn lemma_size(&self)
        ensures
            plan_size(*self) == 1 + ops_size(self.op_list(), self.op_list().len() as int),
            op_views(self.op_list()) == self.steps(),
    {
    }

    /// The plan's steps, taken out of it.
    pub fn into_ops(self) -> (ops: Vec<TaskOp>)
        ensures
            ops@ == self.op_list(),
    {
        self.ops
    }
}

} // verus!
