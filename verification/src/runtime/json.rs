//! JSON text of runtime values, events, telemetry and traces.
use vstd::prelude::*;

use super::scheduler::{RuntimeTrace, RuntimeTraceSummary, TaskTelemetry, TelemetryEvent};
use super::store::StrMap;
use super::{
    CapabilityEvent, RuntimeEvent, RuntimeValue, SpecCapabilityEvent, SpecEvent, SpecValue,
};
use crate::text::{
    bool_text, int_text, join, json_escape, lemma_join_push, nat_digits, push_int,
    push_json_escaped, push_nat, push_str, push_u128, text_less, text_lt,
};

verus! {

/// A JSON string holding `s`.
pub open spec fn quoted(s: Seq<char>) -> Seq<char> {
    "\""@ + json_escape(s) + "\""@
}

fn push_quoted(out: &mut String, s: &str)
    ensures
        final(out)@ == old(out)@ + quoted(s@),
{
    push_str(out, "\"");
    push_json_escaped(out, s);
    push_str(out, "\"");
    assert(final(out)@ =~= old(out)@ + quoted(s@));
}

/// The JSON of a value; a floating-point value is written as its text.
pub open spec fn value_json(v: SpecValue) -> Seq<char> {
    match v {
        SpecValue::Unit => "null"@,
        SpecValue::Int(i) => int_text(i as int),
        SpecValue::Float(t) => t,
        SpecValue::Bool(b) => bool_text(b),
        SpecValue::String(s) => quoted(s),
    }
}

pub open spec fn cap_event_json(e: SpecCapabilityEvent) -> Seq<char> {
    match e {
        SpecCapabilityEvent::Message(m) => "{\"type\":\"message\",\"value\":"@ + quoted(m) + "}"@,
        SpecCapabilityEvent::Data(v) => "{\"type\":\"data\",\"value\":"@ + value_json(v) + "}"@,
    }
}

#[verifier::opaque]
pub open spec fn event_json(e: SpecEvent) -> Seq<char> {
    match e {
        SpecEvent::TaskStarted { task } => "{\"type\":\"task_started\",\"task\":"@ + quoted(task)
            + "}"@,
        SpecEvent::CapabilityInvoked { task, capability, operation } =>
            "{\"type\":\"capability_invoked\",\"task\":"@ + quoted(task) + ",\"capability\":"@
            + quoted(capability) + ",\"operation\":"@ + quoted(operation) + "}"@,
        SpecEvent::CapabilityEvent { task, capability, event } =>
            "{\"type\":\"capability_event\",\"task\":"@ + quoted(task) + ",\"capability\":"@
            + quoted(capability) + ",\"event\":"@ + cap_event_json(event) + "}"@,
        SpecEvent::TaskScheduled { parent, child } => "{\"type\":\"task_scheduled\",\"parent\":"@
            + quoted(parent) + ",\"child\":"@ + quoted(child) + "}"@,
        SpecEvent::TaskCompleted { task } => "{\"type\":\"task_completed\",\"task\":"@ + quoted(
            task,
        ) + "}"@,
    }
}

fn push_value(out: &mut String, v: &RuntimeValue)
    ensures
        final(out)@ == old(out)@ + value_json(v@),
{
    match v {
        RuntimeValue::Unit => push_str(out, "null"),
        RuntimeValue::Int(i) => push_int(out, *i),
        RuntimeValue::Float(t) => push_str(out, t.as_str()),
        RuntimeValue::Bool(b) => {
            if *b {
                push_str(out, "true");
            } else {
                push_str(out, "false");
            }
        },
        RuntimeValue::String(s) => push_quoted(out, s.as_str()),
    }
}

fn push_cap_event(out: &mut String, e: &CapabilityEvent)
    ensures
        final(out)@ == old(out)@ + cap_event_json(e@),
{
    match e {
        CapabilityEvent::Message(m) => {
            push_str(out, "{\"type\":\"message\",\"value\":");
            push_quoted(out, m.as_str());
        },
        CapabilityEvent::Data(v) => {
            push_str(out, "{\"type\":\"data\",\"value\":");
            push_value(out, v);
        },
    }
    push_str(out, "}");
    assert(final(out)@ =~= old(out)@ + cap_event_json(e@));
}

/// Appends the JSON object of a runtime event.
pub fn push_event(out: &mut String, e: &RuntimeEvent)
    ensures
        final(out)@ == old(out)@ + event_json(e@),
{
    reveal(event_json);
    match e {
        RuntimeEvent::TaskStarted { task } => {
            push_str(out, "{\"type\":\"task_started\",\"task\":");
            push_quoted(out, task.as_str());
        },
        RuntimeEvent::CapabilityInvoked { task, capability, operation } => {
            push_str(out, "{\"type\":\"capability_invoked\",\"task\":");
            push_quoted(out, task.as_str());
            push_str(out, ",\"capability\":");
            push_quoted(out, capability.as_str());
            push_str(out, ",\"operation\":");
            push_quoted(out, operation.as_str());
        },
        RuntimeEvent::CapabilityEvent { task, capability, event } => {
            push_str(out, "{\"type\":\"capability_event\",\"task\":");
            push_quoted(out, task.as_str());
            push_str(out, ",\"capability\":");
            push_quoted(out, capability.as_str());
            push_str(out, ",\"event\":");
            push_cap_event(out, event);
        },
        RuntimeEvent::TaskScheduled { parent, child } => {
            push_str(out, "{\"type\":\"task_scheduled\",\"parent\":");
            push_quoted(out, parent.as_str());
            push_str(out, ",\"child\":");
            push_quoted(out, child.as_str());
        },
        RuntimeEvent::TaskCompleted { task } => {
            push_str(out, "{\"type\":\"task_completed\",\"task\":");
            push_quoted(out, task.as_str());
        },
    }
    push_str(out, "}");
    assert(final(out)@ =~= old(out)@ + event_json(e@));
}

/// A number, or `null` when absent.
pub open spec fn optional_json(o: Option<u128>) -> Seq<char> {
    match o {
        Some(v) => nat_digits(v as nat),
        None => "null"@,
    }
}

fn push_optional(out: &mut String, o: Option<u128>)
    ensures
        final(out)@ == old(out)@ + optional_json(o),
{
    match o {
        Some(v) => push_u128(out, v),
        None => push_str(out, "null"),
    }
}

#[verifier::opaque]
pub open spec fn telemetry_json(sequence: usize, timestamp: Option<u128>, event: SpecEvent) -> Seq<
    char,
> {
    "{\"sequence\":"@ + nat_digits(sequence as nat) + ",\"timestamp_micros\":"@ + optional_json(
        timestamp,
    ) + ",\"event\":"@ + event_json(event) + "}"@
}

/// Appends the JSON object of a telemetry entry.
pub fn push_telemetry_event(out: &mut String, t: &TelemetryEvent)
    ensures
        final(out)@ == old(out)@ + telemetry_json(t.sequence, t.timestamp_micros, t.event@),
{
    reveal(telemetry_json);
    push_str(out, "{\"sequence\":");
    push_nat(out, t.sequence as u64);
    push_str(out, ",\"timestamp_micros\":");
    push_optional(out, t.timestamp_micros);
    push_str(out, ",\"event\":");
    push_event(out, &t.event);
    push_str(out, "}");
    assert(final(out)@ =~= old(out)@ + telemetry_json(t.sequence, t.timestamp_micros, t.event@));
}

// ---------------------------------------------------------------------------
// Maps, written with their keys in order
// ---------------------------------------------------------------------------

/// `x` inserted before the first entry whose key follows its key.
pub open spec fn insert_by_key(s: Seq<(Seq<char>, nat)>, x: (Seq<char>, nat)) -> Seq<
    (Seq<char>, nat),
>
    decreases s.len(),
{
    if s.len() == 0 {
        seq![x]
    } else if text_lt(x.0, s[0].0) {
        seq![x] + s
    } else {
        seq![s[0]] + insert_by_key(s.drop_first(), x)
    }
}

/// The entries sorted by key.
pub open spec fn sort_by_key(s: Seq<(Seq<char>, nat)>) -> Seq<(Seq<char>, nat)>
    decreases s.len(),
{
    if s.len() == 0 {
        Seq::empty()
    } else {
        insert_by_key(sort_by_key(s.drop_last()), s.last())
    }
}

proof fn lemma_insert_by_key_at(s: Seq<(Seq<char>, nat)>, x: (Seq<char>, nat), p: int)
    requires
        0 <= p <= s.len(),
        forall|k: int| 0 <= k < p ==> !text_lt(x.0, s[k].0),
        p < s.len() ==> text_lt(x.0, s[p].0),
    ensures
        insert_by_key(s, x) == s.insert(p, x),
    decreases s.len(),
{
    if s.len() == 0 {
        assert(s.insert(p, x) =~= seq![x]);
    } else if p == 0 {
        assert(s.insert(0, x) =~= seq![x] + s);
    } else {
        let d = s.drop_first();
        assert forall|k: int| 0 <= k < p - 1 implies !text_lt(x.0, d[k].0) by {
            assert(d[k] == s[k + 1]);
        }
        lemma_insert_by_key_at(d, x, p - 1);
        assert(s.insert(p, x) =~= seq![s[0]] + d.insert(p - 1, x));
    }
}

pub open spec fn entry_json(e: (Seq<char>, nat)) -> Seq<char> {
    quoted(e.0) + ":"@ + nat_digits(e.1)
}

/// A JSON object of numbers, with its keys in the order given.
pub open spec fn object_json(es: Seq<(Seq<char>, nat)>) -> Seq<char> {
    "{"@ + join(es.map_values(|e: (Seq<char>, nat)| entry_json(e)), ","@) + "}"@
}

/// The entries of a count map, keys as character sequences and values as
/// naturals.
pub open spec fn count_entries(es: Seq<(Seq<char>, usize)>) -> Seq<(Seq<char>, nat)> {
    es.map_values(|e: (Seq<char>, usize)| (e.0, e.1 as nat))
}

pub open spec fn total_entries(es: Seq<(Seq<char>, u128)>) -> Seq<(Seq<char>, nat)> {
    es.map_values(|e: (Seq<char>, u128)| (e.0, e.1 as nat))
}

fn sorted_numbers(entries: &Vec<(String, u128)>) -> (out: Vec<(String, u128)>)
    ensures
        out@.map_values(|e: (String, u128)| (e.0@, e.1 as nat)) == sort_by_key(
            entries@.map_values(|e: (String, u128)| (e.0@, e.1 as nat)),
        ),
{
    let ghost f = |e: (String, u128)| (e.0@, e.1 as nat);
    let mut out: Vec<(String, u128)> = Vec::new();
    let mut i: usize = 0;
    while i < entries.len()
        invariant
            i <= entries.len(),
            out@.map_values(|e: (String, u128)| (e.0@, e.1 as nat)) == sort_by_key(
                entries@.take(i as int).map_values(|e: (String, u128)| (e.0@, e.1 as nat)),
            ),
        decreases entries.len() - i,
    {
        let key = entries[i].0.as_str();
        let mut p: usize = 0;
        while p < out.len() && !text_less(key, out[p].0.as_str())
            invariant
                p <= out.len(),
                key@ == entries@[i as int].0@,
                forall|k: int| 0 <= k < p ==> !text_lt(key@, out@[k].0@),
            decreases out.len() - p,
        {
            p = p + 1;
        }
        let ghost before = out@.map_values(|e: (String, u128)| (e.0@, e.1 as nat));
        let ghost xv = (entries@[i as int].0@, entries@[i as int].1 as nat);
        proof {
            assert forall|k: int| 0 <= k < p implies !text_lt(xv.0, before[k].0) by {
                assert(before[k].0 == out@[k].0@);
            }
            if p < out.len() {
                assert(before[p as int].0 == out@[p as int].0@);
            }
            lemma_insert_by_key_at(before, xv, p as int);
        }
        out.insert(p, (crate::text::copy_string(&entries[i].0), entries[i].1));
        proof {
            let g = |e: (String, u128)| (e.0@, e.1 as nat);
            assert(out@.map_values(g) =~= before.insert(p as int, xv));
            let t1 = entries@.take(i + 1).map_values(g);
            assert(t1.drop_last() =~= entries@.take(i as int).map_values(g));
            assert(t1.last() == xv);
        }
        i = i + 1;
    }
    assert(entries@.take(entries.len() as int) =~= entries@);
    out
}

fn push_object(out: &mut String, es: &Vec<(String, u128)>)
    ensures
        final(out)@ == old(out)@ + object_json(es@.map_values(|e: (String, u128)| (e.0@, e.1 as nat))),
{
    let ghost start = out@;
    push_str(out, "{");
    let ghost head = out@;
    let mut i: usize = 0;
    while i < es.len()
        invariant
            i <= es.len(),
            out@ == head + join(
                es@.take(i as int).map_values(|e: (String, u128)| (e.0@, e.1 as nat)).map_values(
                    |e: (Seq<char>, nat)| entry_json(e),
                ),
                ","@,
            ),
        decreases es.len() - i,
    {
        if i > 0 {
            push_str(out, ",");
        }
        let ghost mid = out@;
        push_quoted(out, es[i].0.as_str());
        push_str(out, ":");
        push_u128(out, es[i].1);
        proof {
            let g = |e: (String, u128)| (e.0@, e.1 as nat);
            let h = |e: (Seq<char>, nat)| entry_json(e);
            let item = entry_json((es@[i as int].0@, es@[i as int].1 as nat));
            assert(out@ =~= mid + item);
            assert(es@.take(i + 1).map_values(g).map_values(h) =~= es@.take(i as int).map_values(
                g,
            ).map_values(h).push(item));
            lemma_join_push(es@.take(i as int).map_values(g).map_values(h), ","@, item);
        }
        i = i + 1;
    }
    assert(es@.take(es.len() as int) =~= es@);
    push_str(out, "}");
    assert(final(out)@ =~= old(out)@ + object_json(es@.map_values(|e: (String, u128)| (e.0@, e.1 as nat))));
}

fn widen_counts(m: &StrMap<usize>) -> (out: Vec<(String, u128)>)
    ensures
        out@.map_values(|e: (String, u128)| (e.0@, e.1 as nat)) == count_entries(m.entries_view()),
{
    let es = m.entries();
    let mut out: Vec<(String, u128)> = Vec::new();
    let mut i: usize = 0;
    while i < es.len()
        invariant
            i <= es.len(),
            es@.map_values(|e: (String, usize)| (e.0@, e.1)) == m.entries_view(),
            out@.map_values(|e: (String, u128)| (e.0@, e.1 as nat)) == count_entries(m.entries_view().take(i as int)),
        decreases es.len() - i,
    {
        let ghost before = out@;
        out.push((crate::text::copy_string(&es[i].0), es[i].1 as u128));
        proof {
            let g = |e: (String, u128)| (e.0@, e.1 as nat);
            assert(m.entries_view()[i as int] == (es@[i as int].0@, es@[i as int].1));
            assert(m.entries_view().take(i + 1) =~= m.entries_view().take(i as int).push(m.entries_view()[i as int]));
            assert(out@.map_values(g) =~= before.map_values(g).push((es@[i as int].0@, es@[i as int].1 as nat)));
            assert(count_entries(m.entries_view().take(i + 1)) =~= count_entries(m.entries_view().take(i as int)).push((es@[i as int].0@, es@[i as int].1 as nat)));
        }
        i = i + 1;
    }
    assert(m.entries_view().take(es.len() as int) =~= m.entries_view());
    out
}

fn widen_totals(m: &StrMap<u128>) -> (out: Vec<(String, u128)>)
    ensures
        out@.map_values(|e: (String, u128)| (e.0@, e.1 as nat)) == total_entries(m.entries_view()),
{
    let es = m.entries();
    let mut out: Vec<(String, u128)> = Vec::new();
    let mut i: usize = 0;
    while i < es.len()
        invariant
            i <= es.len(),
            es@.map_values(|e: (String, u128)| (e.0@, e.1)) == m.entries_view(),
            out@.map_values(|e: (String, u128)| (e.0@, e.1 as nat)) == total_entries(m.entries_view().take(i as int)),
        decreases es.len() - i,
    {
        let ghost before = out@;
        out.push((crate::text::copy_string(&es[i].0), es[i].1));
        proof {
            let g = |e: (String, u128)| (e.0@, e.1 as nat);
            assert(m.entries_view()[i as int] == (es@[i as int].0@, es@[i as int].1));
            assert(m.entries_view().take(i + 1) =~= m.entries_view().take(i as int).push(m.entries_view()[i as int]));
            assert(out@.map_values(g) =~= before.map_values(g).push((es@[i as int].0@, es@[i as int].1 as nat)));
            assert(total_entries(m.entries_view().take(i + 1)) =~= total_entries(m.entries_view().take(i as int)).push((es@[i as int].0@, es@[i as int].1 as nat)));
        }
        i = i + 1;
    }
    assert(m.entries_view().take(es.len() as int) =~= m.entries_view());
    out
}

/// The JSON object of a count map, keys in order.
pub fn capability_counts_to_json(m: &StrMap<usize>) -> (s: String)
    ensures
        s@ == object_json(sort_by_key(count_entries(m.entries_view()))),
{
    let sorted = sorted_numbers(&widen_counts(m));
    let mut s = String::new();
    push_object(&mut s, &sorted);
    assert(s@ =~= object_json(sort_by_key(count_entries(m.entries_view()))));
    s
}

/// The JSON object of a map of microsecond totals, keys in order.
pub fn duration_map_to_json(m: &StrMap<u128>) -> (s: String)
    ensures
        s@ == object_json(sort_by_key(total_entries(m.entries_view()))),
{
    let sorted = sorted_numbers(&widen_totals(m));
    let mut s = String::new();
    push_object(&mut s, &sorted);
    assert(s@ =~= object_json(sort_by_key(total_entries(m.entries_view()))));
    s
}

/// The JSON escape of `t`.
pub fn escape_json_string(t: &str) -> (s: String)
    ensures
        s@ == json_escape(t@),
{
    crate::text::escape_json_string(t)
}

#[verifier::opaque]
pub open spec fn task_json(t: TaskTelemetry) -> Seq<char> {
    "{\"task\":"@ + quoted(t.task@) + ",\"start_timestamp_micros\":"@ + optional_json(
        t.start_timestamp_micros,
    ) + ",\"duration_micros\":"@ + nat_digits(t.duration_micros as nat) + ",\"event_count\":"@
        + nat_digits(t.event_count as nat) + ",\"capability_counts\":"@ + object_json(
        sort_by_key(count_entries(t.capability_counts.entries_view())),
    ) + ",\"operation_counts\":"@ + object_json(
        sort_by_key(count_entries(t.operation_counts.entries_view())),
    ) + ",\"capability_durations_micros\":"@ + object_json(
        sort_by_key(total_entries(t.capability_durations_micros.entries_view())),
    ) + ",\"operation_durations_micros\":"@ + object_json(
        sort_by_key(total_entries(t.operation_durations_micros.entries_view())),
    ) + ",\"spawned_tasks\":"@ + nat_digits(t.spawned_tasks as nat) + "}"@
}

/// The JSON object of a task's metrics.
pub fn task_telemetry_to_json(t: &TaskTelemetry) -> (s: String)
    ensures
        s@ == task_json(*t),
{
    let mut s = String::new();
    reveal(task_json);
    push_str(&mut s, "{\"task\":");
    push_quoted(&mut s, t.task.as_str());
    push_str(&mut s, ",\"start_timestamp_micros\":");
    push_optional(&mut s, t.start_timestamp_micros);
    push_str(&mut s, ",\"duration_micros\":");
    push_u128(&mut s, t.duration_micros);
    push_str(&mut s, ",\"event_count\":");
    push_nat(&mut s, t.event_count as u64);
    push_str(&mut s, ",\"capability_counts\":");
    push_str(&mut s, capability_counts_to_json(&t.capability_counts).as_str());
    push_str(&mut s, ",\"operation_counts\":");
    push_str(&mut s, capability_counts_to_json(&t.operation_counts).as_str());
    push_str(&mut s, ",\"capability_durations_micros\":");
    push_str(&mut s, duration_map_to_json(&t.capability_durations_micros).as_str());
    push_str(&mut s, ",\"operation_durations_micros\":");
    push_str(&mut s, duration_map_to_json(&t.operation_durations_micros).as_str());
    push_str(&mut s, ",\"spawned_tasks\":");
    push_nat(&mut s, t.spawned_tasks as u64);
    push_str(&mut s, "}");
    assert(s@ =~= task_json(*t));
    s
}

#[verifier::opaque]
pub open spec fn summary_json(t: RuntimeTraceSummary) -> Seq<char> {
    "{\"total_tasks\":"@ + nat_digits(t.total_tasks as nat) + ",\"total_events\":"@ + nat_digits(
        t.total_events as nat,
    ) + ",\"spawned_tasks\":"@ + nat_digits(t.spawned_tasks as nat) + ",\"capability_counts\":"@
        + object_json(sort_by_key(count_entries(t.capability_counts.entries_view())))
        + ",\"operation_counts\":"@ + object_json(
        sort_by_key(count_entries(t.operation_counts.entries_view())),
    ) + ",\"capability_durations_micros\":"@ + object_json(
        sort_by_key(total_entries(t.capability_durations_micros.entries_view())),
    ) + ",\"operation_durations_micros\":"@ + object_json(
        sort_by_key(total_entries(t.operation_durations_micros.entries_view())),
    ) + "}"@
}

/// The JSON object of a trace summary.
pub fn runtime_trace_summary_to_json(t: &RuntimeTraceSummary) -> (s: String)
    ensures
        s@ == summary_json(*t),
{
    let mut s = String::new();
    reveal(summary_json);
    push_str(&mut s, "{\"total_tasks\":");
    push_nat(&mut s, t.total_tasks as u64);
    push_str(&mut s, ",\"total_events\":");
    push_nat(&mut s, t.total_events as u64);
    push_str(&mut s, ",\"spawned_tasks\":");
    push_nat(&mut s, t.spawned_tasks as u64);
    push_str(&mut s, ",\"capability_counts\":");
    push_str(&mut s, capability_counts_to_json(&t.capability_counts).as_str());
    push_str(&mut s, ",\"operation_counts\":");
    push_str(&mut s, capability_counts_to_json(&t.operation_counts).as_str());
    push_str(&mut s, ",\"capability_durations_micros\":");
    push_str(&mut s, duration_map_to_json(&t.capability_durations_micros).as_str());
    push_str(&mut s, ",\"operation_durations_micros\":");
    push_str(&mut s, duration_map_to_json(&t.operation_durations_micros).as_str());
    push_str(&mut s, "}");
    assert(s@ =~= summary_json(*t));
    s
}


/// The JSON of a whole trace: its events, telemetry, task metrics and
/// summary.
#[verifier::opaque]
pub open spec fn trace_json(
    events: Seq<RuntimeEvent>,
    telemetry: Seq<TelemetryEvent>,
    tasks: Seq<TaskTelemetry>,
    summary: RuntimeTraceSummary,
) -> Seq<char> {
    "{\"events\":["@ + join(events.map_values(|e: RuntimeEvent| event_json(e@)), ","@)
        + "],\"telemetry\":["@ + join(
        telemetry.map_values(
            |t: TelemetryEvent| telemetry_json(t.sequence, t.timestamp_micros, t.event@),
        ),
        ","@,
    ) + "],\"tasks\":["@ + join(tasks.map_values(|t: TaskTelemetry| task_json(t)), ","@)
        + "],\"summary\":"@ + summary_json(summary) + "}"@
}

impl RuntimeTrace {
    /// The trace as JSON.
    pub fn to_json_string(&self) -> (r: Result<String, super::RuntimeError>)
        ensures
            r matches Ok(s) && exists|sm: RuntimeTraceSummary|
                self.summarizes(sm) && s@ == trace_json(
                    self.event_list(),
                    self.telemetry_list(),
                    self.task_list(),
                    sm,
                ),
    {
        let mut json = String::new();
        push_str(&mut json, "{\"events\":[");
        let events = self.events();
        let ghost h0 = json@;
        let mut i: usize = 0;
        while i < events.len()
            invariant
                i <= events.len(),
                json@ == h0 + join(events@.take(i as int).map_values(|e: RuntimeEvent| event_json(e@)), ","@),
            decreases events.len() - i,
        {
            if i > 0 {
                push_str(&mut json, ",");
            }
            push_event(&mut json, &events[i]);
            proof {
                let f = |e: RuntimeEvent| event_json(e@);
                assert(events@.take(i + 1).map_values(f) =~= events@.take(i as int).map_values(f).push(f(events@[i as int])));
                lemma_join_push(events@.take(i as int).map_values(f), ","@, f(events@[i as int]));
            }
            i = i + 1;
        }
        assert(events@.take(events.len() as int) =~= events@);
        push_str(&mut json, "],\"telemetry\":[");
        let telemetry = self.telemetry();
        let ghost h1 = json@;
        let mut i: usize = 0;
        while i < telemetry.len()
            invariant
                i <= telemetry.len(),
                json@ == h1 + join(telemetry@.take(i as int).map_values(
                    |t: TelemetryEvent| telemetry_json(t.sequence, t.timestamp_micros, t.event@),
                ), ","@),
            decreases telemetry.len() - i,
        {
            if i > 0 {
                push_str(&mut json, ",");
            }
            push_telemetry_event(&mut json, &telemetry[i]);
            proof {
                let f = |t: TelemetryEvent| telemetry_json(t.sequence, t.timestamp_micros, t.event@);
                assert(telemetry@.take(i + 1).map_values(f) =~= telemetry@.take(i as int).map_values(f).push(f(telemetry@[i as int])));
                lemma_join_push(telemetry@.take(i as int).map_values(f), ","@, f(telemetry@[i as int]));
            }
            i = i + 1;
        }
        assert(telemetry@.take(telemetry.len() as int) =~= telemetry@);
        push_str(&mut json, "],\"tasks\":[");
        let tasks = self.tasks();
        let ghost h2 = json@;
        let mut i: usize = 0;
        while i < tasks.len()
            invariant
                i <= tasks.len(),
                json@ == h2 + join(tasks@.take(i as int).map_values(|t: TaskTelemetry| task_json(t)), ","@),
            decreases tasks.len() - i,
        {
            if i > 0 {
                push_str(&mut json, ",");
            }
            push_str(&mut json, task_telemetry_to_json(&tasks[i]).as_str());
            proof {
                let f = |t: TaskTelemetry| task_json(t);
                assert(tasks@.take(i + 1).map_values(f) =~= tasks@.take(i as int).map_values(f).push(f(tasks@[i as int])));
                lemma_join_push(tasks@.take(i as int).map_values(f), ","@, f(tasks@[i as int]));
            }
            i = i + 1;
        }
        assert(tasks@.take(tasks.len() as int) =~= tasks@);
        push_str(&mut json, "],\"summary\":");
        let summary = self.summary();
        push_str(&mut json, runtime_trace_summary_to_json(&summary).as_str());
        push_str(&mut json, "}");
        assert(json@ =~= trace_json(self.event_list(), self.telemetry_list(), self.task_list(), summary)) by {
            reveal(trace_json);
        }
        Ok(json)
    }
}


impl<P: super::scheduler::CapabilityProvider> super::scheduler::Runtime<P> {
    /// Runs queued tasks and returns the JSON of their trace.
    pub fn run_with_trace_json(&mut self) -> (r: Result<String, super::RuntimeError>)
        requires
            old(self).wf(),
        ensures
            final(self).wf(),
            final(self).served() == old(self).served(),
            r is Ok ==> final(self).pending() == Seq::<Seq<char>>::empty(),
    {
        match self.run_with_telemetry() {
            Ok(trace) => trace.to_json_string(),
            Err(e) => Err(e),
        }
    }
}

} // verus!
