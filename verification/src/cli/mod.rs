//! The pure parts of the command-line driver: the JSON it prints, the trace
//! it reports for a run, and the task a program's entry point becomes.
use vstd::prelude::*;

pub mod args;
pub mod ir_json;
pub mod report;

use crate::backend::native::first_occurrences;
use crate::runtime::TaskSpec;
use crate::semantics::resolve::{CapabilityScope, Resolved};
use crate::syntax::ast::{Item, Module};
use crate::text::{
    chars_of, hex_digit_of, join, lemma_join_push, lines_from, nat_digits, push_char, push_nat,
    push_str, split_lines, views,
};

verus! {

// ---------------------------------------------------------------------------
// JSON text
// ---------------------------------------------------------------------------

/// A lower-case hexadecimal digit.
pub open spec fn lower_hex(d: int) -> char {
    if d < 10 {
        ((48 + d) as u32) as char
    } else {
        ((87 + d) as u32) as char
    }
}

/// The escape of one character in a JSON string: quote, backslash, line
/// feed, carriage return and tab by their short forms, other control
/// characters as `\u` and four lower-case hexadecimal digits.
pub open spec fn escape_char(c: char) -> Seq<char> {
    if c == '"' {
        seq!['\\', '"']
    } else if c == '\\' {
        seq!['\\', '\\']
    } else if c == '\n' {
        seq!['\\', 'n']
    } else if c == '\r' {
        seq!['\\', 'r']
    } else if c == '\t' {
        seq!['\\', 't']
    } else if (c as u32) < 0x20 {
        seq!['\\', 'u', '0', '0', lower_hex(((c as u32) / 16) as int), lower_hex(((c as u32) % 16) as int)]
    } else {
        seq![c]
    }
}

/// The JSON escape of a whole text.
pub open spec fn escaped(s: Seq<char>) -> Seq<char>
    decreases s.len(),
{
    if s.len() == 0 {
        Seq::empty()
    } else {
        escaped(s.drop_last()) + escape_char(s.last())
    }
}

/// A JSON string literal.
pub open spec fn quoted(s: Seq<char>) -> Seq<char> {
    "\""@ + escaped(s) + "\""@
}

fn lower_hex_of(d: u32) -> (c: char)
    requires
        d < 16,
    ensures
        c == lower_hex(d as int),
{
    let b: u8 = if d < 10 { 48 + d as u8 } else { 87 + d as u8 };
    b as char
}

fn push_escaped(out: &mut String, t: &str)
    ensures
        final(out)@ == old(out)@ + escaped(t@),
{
    let v = chars_of(t);
    let ghost start = out@;
    let mut i: usize = 0;
    while i < v.len()
        invariant
            i <= v.len(),
            v@ == t@,
            out@ == start + escaped(t@.take(i as int)),
        decreases v.len() - i,
    {
        let c = v[i];
        let ghost mid = out@;
        if c == '"' {
            push_char(out, '\\');
            push_char(out, '"');
        } else if c == '\\' {
            push_char(out, '\\');
            push_char(out, '\\');
        } else if c == '\n' {
            push_char(out, '\\');
            push_char(out, 'n');
        } else if c == '\r' {
            push_char(out, '\\');
            push_char(out, 'r');
        } else if c == '\t' {
            push_char(out, '\\');
            push_char(out, 't');
        } else if (c as u32) < 0x20 {
            push_char(out, '\\');
            push_char(out, 'u');
            push_char(out, '0');
            push_char(out, '0');
            push_char(out, lower_hex_of((c as u32) / 16));
            push_char(out, lower_hex_of((c as u32) % 16));
        } else {
            push_char(out, c);
        }
        proof {
            assert(out@ =~= mid + escape_char(c));
            assert(t@.take(i + 1).drop_last() =~= t@.take(i as int));
        }
        i = i + 1;
    }
    assert(t@.take(v.len() as int) =~= t@);
}

/// The JSON escape of `value`.
pub fn json_escape(value: &str) -> (s: String)
    ensures
        s@ == escaped(value@),
{
    let mut s = String::new();
    push_escaped(&mut s, value);
    assert(s@ =~= escaped(value@));
    s
}

fn push_quoted(out: &mut String, t: &str)
    ensures
        final(out)@ == old(out)@ + quoted(t@),
{
    push_str(out, "\"");
    push_escaped(out, t);
    push_str(out, "\"");
    assert(final(out)@ =~= old(out)@ + quoted(t@));
}

/// `value` as a JSON string literal.
pub fn json_string(value: &str) -> (s: String)
    ensures
        s@ == quoted(value@),
{
    let mut s = String::new();
    push_quoted(&mut s, value);
    assert(s@ =~= quoted(value@));
    s
}

/// A JSON array of the already-rendered `values`.
pub open spec fn array_text(values: Seq<Seq<char>>) -> Seq<char> {
    "["@ + join(values, ","@) + "]"@
}

/// A JSON array of the already-rendered `values`.
pub fn json_array(values: Vec<String>) -> (s: String)
    ensures
        s@ == array_text(views(values@)),
{
    let mut s = String::new();
    push_str(&mut s, "[");
    crate::text::push_joined(&mut s, &values, ",");
    push_str(&mut s, "]");
    assert(s@ =~= array_text(views(values@)));
    s
}

/// A JSON array of the strings `v`.
pub open spec fn strs(v: Seq<Seq<char>>) -> Seq<char> {
    array_text(v.map_values(|v: Seq<char>| quoted(v)))
}

/// A JSON array of the strings `values`.
pub fn json_string_array(values: &Vec<String>) -> (s: String)
    ensures
        s@ == strs(views(values@)),
{
    let mut rendered: Vec<String> = Vec::new();
    let mut i: usize = 0;
    while i < values.len()
        invariant
            i <= values.len(),
            views(rendered@) == views(values@).take(i as int).map_values(|v: Seq<char>| quoted(v)),
        decreases values.len() - i,
    {
        rendered.push(json_string(values[i].as_str()));
        proof {
            let q = |v: Seq<char>| quoted(v);
            assert(views(values@).take(i + 1).map_values(q) =~= views(values@).take(i as int).map_values(q).push(q(values@[i as int]@)));
            assert(views(rendered@) =~= views(values@).take(i as int).map_values(q).push(q(values@[i as int]@)));
        }
        i = i + 1;
    }
    assert(views(values@).take(values.len() as int) =~= views(values@));
    json_array(rendered)
}

/// One member of a JSON object.
pub open spec fn member_text(key: Seq<char>, value: Seq<char>) -> Seq<char> {
    "\""@ + escaped(key) + "\":"@ + value
}

/// A JSON object of the keys and already-rendered values `pairs`, in order.
pub open spec fn object_text(pairs: Seq<(Seq<char>, Seq<char>)>) -> Seq<char> {
    "{"@ + join(pairs.map_values(|p: (Seq<char>, Seq<char>)| member_text(p.0, p.1)), ","@) + "}"@
}

/// A JSON object of the keys and already-rendered values `pairs`, in order.
pub fn json_object_pairs(pairs: Vec<(String, String)>) -> (s: String)
    ensures
        s@ == object_text(pairs@.map_values(|p: (String, String)| (p.0@, p.1@))),
{
    let ghost ps = pairs@.map_values(|p: (String, String)| (p.0@, p.1@));
    let ghost ms = ps.map_values(|p: (Seq<char>, Seq<char>)| member_text(p.0, p.1));
    let mut s = String::new();
    push_str(&mut s, "{");
    let ghost head = s@;
    let mut i: usize = 0;
    while i < pairs.len()
        invariant
            i <= pairs.len(),
            ps == pairs@.map_values(|p: (String, String)| (p.0@, p.1@)),
            ms == ps.map_values(|p: (Seq<char>, Seq<char>)| member_text(p.0, p.1)),
            s@ == head + join(ms.take(i as int), ","@),
        decreases pairs.len() - i,
    {
        if i > 0 {
            push_str(&mut s, ",");
        }
        let ghost mid = s@;
        push_str(&mut s, "\"");
        push_escaped(&mut s, pairs[i].0.as_str());
        push_str(&mut s, "\":");
        push_str(&mut s, pairs[i].1.as_str());
        proof {
            assert(s@ =~= mid + ms[i as int]);
            assert(ms.take(i + 1) =~= ms.take(i as int).push(ms[i as int]));
            lemma_join_push(ms.take(i as int), ","@, ms[i as int]);
        }
        i = i + 1;
    }
    assert(ms.take(ms.len() as int) =~= ms);
    push_str(&mut s, "}");
    assert(s@ =~= object_text(ps));
    s
}

/// A JSON object of the keys and already-rendered values `fields`, in
/// order.
pub fn json_object(fields: Vec<(&str, String)>) -> (s: String)
    ensures
        s@ == object_text(fields@.map_values(|p: (&str, String)| (p.0@, p.1@))),
{
    let mut pairs: Vec<(String, String)> = Vec::new();
    let mut i: usize = 0;
    while i < fields.len()
        invariant
            i <= fields.len(),
            pairs@.map_values(|p: (String, String)| (p.0@, p.1@)) == fields@.take(i as int).map_values(|p: (&str, String)| (p.0@, p.1@)),
        decreases fields.len() - i,
    {
        pairs.push((crate::text::to_owned_string(fields[i].0), crate::text::copy_string(&fields[i].1)));
        proof {
            let f = |p: (&str, String)| (p.0@, p.1@);
            let g = |p: (String, String)| (p.0@, p.1@);
            assert(fields@.take(i + 1).map_values(f) =~= fields@.take(i as int).map_values(f).push(f(fields@[i as int])));
            assert(pairs@.map_values(g) =~= fields@.take(i as int).map_values(f).push(f(fields@[i as int])));
        }
        i = i + 1;
    }
    assert(fields@.take(fields.len() as int) =~= fields@);
    json_object_pairs(pairs)
}

/// `true` / `false`.
pub fn bool_string(value: bool) -> (s: String)
    ensures
        s@ == crate::text::bool_text(value),
{
    crate::text::bool_to_string(value)
}


// ---------------------------------------------------------------------------
// The trace of a run
// ---------------------------------------------------------------------------

/// The lines of a text that are not empty, in order.
pub open spec fn non_empty(lines: Seq<Seq<char>>) -> Seq<Seq<char>>
    decreases lines.len(),
{
    if lines.len() == 0 {
        Seq::empty()
    } else if lines.last().len() == 0 {
        non_empty(lines.drop_last())
    } else {
        non_empty(lines.drop_last()).push(lines.last())
    }
}

pub open spec fn started_event(task: Seq<char>) -> Seq<char> {
    "{\"type\":\"task_started\",\"task\":"@ + quoted(task) + "}"@
}

pub open spec fn invoked_event(task: Seq<char>) -> Seq<char> {
    "{\"type\":\"capability_invoked\",\"task\":"@ + quoted(task)
        + ",\"capability\":\"io\",\"operation\":\"write_line\"}"@
}

pub open spec fn message_event(task: Seq<char>, value: Seq<char>) -> Seq<char> {
    "{\"type\":\"capability_event\",\"task\":"@ + quoted(task)
        + ",\"capability\":\"io\",\"event\":{\"type\":\"message\",\"value\":"@ + quoted(value) + "}}"@
}

pub open spec fn completed_event(task: Seq<char>) -> Seq<char> {
    "{\"type\":\"task_completed\",\"task\":"@ + quoted(task) + "}"@
}

/// For each line written to standard output: the write, then the message.
pub open spec fn stdout_events(task: Seq<char>, lines: Seq<Seq<char>>) -> Seq<Seq<char>>
    decreases lines.len(),
{
    if lines.len() == 0 {
        Seq::empty()
    } else {
        stdout_events(task, lines.drop_last()).push(invoked_event(task)).push(message_event(task, lines.last()))
    }
}

/// For each line written to standard error: a message marked as such.
pub open spec fn stderr_events(task: Seq<char>, lines: Seq<Seq<char>>) -> Seq<Seq<char>> {
    lines.map_values(|l: Seq<char>| message_event(task, "stderr: "@ + l))
}

/// The events of a run of `task` that wrote `stdout` and `stderr`.
pub open spec fn trace_events(task: Seq<char>, stdout: Seq<char>, stderr: Seq<char>) -> Seq<Seq<char>> {
    seq![started_event(task)] + stdout_events(task, non_empty(lines_from(stdout, 0))) + stderr_events(
        task,
        non_empty(lines_from(stderr, 0)),
    ) + seq![completed_event(task)]
}

/// An event with its position in the trace, and no time stamp.
pub open spec fn telemetry_entry(i: int, event: Seq<char>) -> Seq<char> {
    "{\"sequence\":"@ + nat_digits(i as nat) + ",\"timestamp_micros\":null,\"event\":"@ + event + "}"@
}

/// A count keyed by `key`, or the empty object when it is zero.
pub open spec fn count_object(key: Seq<char>, n: nat) -> Seq<char> {
    if n > 0 {
        "{\""@ + key + "\":"@ + nat_digits(n) + "}"@
    } else {
        "{}"@
    }
}

/// The JSON trace of a run of `task` that wrote `stdout` and `stderr`: each
/// non-empty output line is an `io` write and a message, each non-empty
/// error line a message marked `stderr: `; the task starts and completes;
/// counts cover the writes; durations and time stamps are unknown.
pub open spec fn trace_json(task: Seq<char>, stdout: Seq<char>, stderr: Seq<char>) -> Seq<char> {
    let events = trace_events(task, stdout, stderr);
    let n = non_empty(lines_from(stdout, 0)).len();
    let caps = count_object("io"@, n);
    let ops = count_object("io::write_line"@, n);
    let tasks = "{\"task\":"@ + quoted(task) + ",\"start_timestamp_micros\":null,\"duration_micros\":0,\"event_count\":"@
        + nat_digits(events.len()) + ",\"capability_counts\":"@ + caps + ",\"operation_counts\":"@ + ops
        + ",\"capability_durations_micros\":{},\"operation_durations_micros\":{},\"spawned_tasks\":0}"@;
    let summary = "{\"total_tasks\":1,\"total_events\":"@ + nat_digits(events.len())
        + ",\"spawned_tasks\":0,\"capability_counts\":"@ + caps + ",\"operation_counts\":"@ + ops
        + ",\"capability_durations_micros\":{},\"operation_durations_micros\":{}}"@;
    "{\"events\":["@ + join(events, ","@) + "],\"telemetry\":["@ + join(
        Seq::new(events.len(), |i: int| telemetry_entry(i, events[i])),
        ","@,
    ) + "],\"tasks\":["@ + tasks + "],\"summary\":"@ + summary + "}"@
}

fn non_empty_lines(text: &str) -> (lines: Vec<String>)
    ensures
        views(lines@) == non_empty(lines_from(text@, 0)),
{
    let all = split_lines(text);
    let mut lines: Vec<String> = Vec::new();
    let mut i: usize = 0;
    while i < all.len()
        invariant
            i <= all.len(),
            views(all@) == lines_from(text@, 0),
            views(lines@) == non_empty(views(all@).take(i as int)),
        decreases all.len() - i,
    {
        let ghost pre = views(all@).take(i as int);
        assert(views(all@).take(i + 1).drop_last() =~= pre);
        assert(views(all@).take(i + 1).last() == all@[i as int]@);
        if !crate::text::is_empty_text(all[i].as_str()) {
            lines.push(crate::text::copy_string(&all[i]));
            assert(views(lines@) =~= non_empty(pre).push(all@[i as int]@));
        }
        i = i + 1;
    }
    assert(views(all@).take(all.len() as int) =~= views(all@));
    lines
}

fn event_for(kind: u8, task: &str, value: &str) -> (e: String)
    ensures
        kind == 0 ==> e@ == started_event(task@),
        kind == 1 ==> e@ == invoked_event(task@),
        kind == 2 ==> e@ == message_event(task@, value@),
        kind >= 3 ==> e@ == completed_event(task@),
{
    let mut e = String::new();
    if kind == 0 {
        push_str(&mut e, "{\"type\":\"task_started\",\"task\":");
        push_quoted(&mut e, task);
        push_str(&mut e, "}");
    } else if kind == 1 {
        push_str(&mut e, "{\"type\":\"capability_invoked\",\"task\":");
        push_quoted(&mut e, task);
        push_str(&mut e, ",\"capability\":\"io\",\"operation\":\"write_line\"}");
    } else if kind == 2 {
        push_str(&mut e, "{\"type\":\"capability_event\",\"task\":");
        push_quoted(&mut e, task);
        push_str(&mut e, ",\"capability\":\"io\",\"event\":{\"type\":\"message\",\"value\":");
        push_quoted(&mut e, value);
        push_str(&mut e, "}}");
    } else {
        push_str(&mut e, "{\"type\":\"task_completed\",\"task\":");
        push_quoted(&mut e, task);
        push_str(&mut e, "}");
    }
    assert(kind == 0 ==> e@ =~= started_event(task@));
    assert(kind == 1 ==> e@ =~= invoked_event(task@));
    assert(kind == 2 ==> e@ =~= message_event(task@, value@));
    assert(kind >= 3 ==> e@ =~= completed_event(task@));
    e
}

fn push_count_object(out: &mut String, key: &str, n: usize)
    ensures
        final(out)@ == old(out)@ + count_object(key@, n as nat),
{
    if n > 0 {
        push_str(out, "{\"");
        push_str(out, key);
        push_str(out, "\":");
        push_nat(out, n as u64);
        push_str(out, "}");
    } else {
        push_str(out, "{}");
    }
    assert(final(out)@ =~= old(out)@ + count_object(key@, n as nat));
}

/// The JSON trace of a run of `task` that wrote `stdout` and `stderr`.
pub fn build_trace_json(task: &str, stdout: &str, stderr: &str) -> (json: String)
    ensures
        json@ == trace_json(task@, stdout@, stderr@),
{
    let out_lines = non_empty_lines(stdout);
    let err_lines = non_empty_lines(stderr);
    let ghost outs = views(out_lines@);
    let ghost errs = views(err_lines@);
    let mut events: Vec<String> = Vec::new();
    events.push(event_for(0, task, ""));
    let mut i: usize = 0;
    while i < out_lines.len()
        invariant
            i <= out_lines.len(),
            outs == views(out_lines@),
            views(events@) == seq![started_event(task@)] + stdout_events(task@, outs.take(i as int)),
        decreases out_lines.len() - i,
    {
        let ghost ev0 = views(events@);
        events.push(event_for(1, task, ""));
        events.push(event_for(2, task, out_lines[i].as_str()));
        proof {
            assert(views(events@) =~= ev0.push(invoked_event(task@)).push(message_event(task@, out_lines@[i as int]@)));
            let p = outs.take(i + 1);
            assert(stdout_events(task@, p) == stdout_events(task@, p.drop_last()).push(invoked_event(task@)).push(message_event(task@, p.last())));
            assert(p.drop_last() =~= outs.take(i as int));
            assert(p.last() == out_lines@[i as int]@);
            assert(views(events@) =~= seq![started_event(task@)] + stdout_events(task@, p));
        }
        i = i + 1;
    }
    assert(outs.take(outs.len() as int) =~= outs);
    let ghost head = views(events@);
    let mut k: usize = 0;
    while k < err_lines.len()
        invariant
            k <= err_lines.len(),
            errs == views(err_lines@),
            views(events@) == head + stderr_events(task@, errs.take(k as int)),
        decreases err_lines.len() - k,
    {
        let mut v = String::new();
        push_str(&mut v, "stderr: ");
        push_str(&mut v, err_lines[k].as_str());
        let ghost ev0 = views(events@);
        events.push(event_for(2, task, v.as_str()));
        proof {
            assert(views(events@) =~= ev0.push(message_event(task@, v@)));
            assert(v@ =~= "stderr: "@ + errs[k as int]);
            let g = |l: Seq<char>| message_event(task@, "stderr: "@ + l);
            assert(errs.take(k + 1).map_values(g) =~= errs.take(k as int).map_values(g).push(g(errs[k as int])));
            assert(views(events@) =~= head + stderr_events(task@, errs.take(k + 1)));
        }
        k = k + 1;
    }
    assert(errs.take(errs.len() as int) =~= errs);
    events.push(event_for(3, task, ""));
    let ghost evs = views(events@);
    assert(evs =~= trace_events(task@, stdout@, stderr@));
    let total = events.len();
    let n = out_lines.len();
    let mut json = String::new();
    push_str(&mut json, "{\"events\":[");
    crate::text::push_joined(&mut json, &events, ",");
    push_str(&mut json, "],\"telemetry\":[");
    let ghost head2 = json@;
    let mut j: usize = 0;
    while j < events.len()
        invariant
            j <= events.len(),
            evs == views(events@),
            json@ == head2 + join(Seq::new(j as nat, |x: int| telemetry_entry(x, evs[x])), ","@),
        decreases events.len() - j,
    {
        if j > 0 {
            push_str(&mut json, ",");
        }
        let ghost mid = json@;
        push_str(&mut json, "{\"sequence\":");
        push_nat(&mut json, j as u64);
        push_str(&mut json, ",\"timestamp_micros\":null,\"event\":");
        push_str(&mut json, events[j].as_str());
        push_str(&mut json, "}");
        proof {
            let prev = Seq::new(j as nat, |x: int| telemetry_entry(x, evs[x]));
            assert(json@ =~= mid + telemetry_entry(j as int, evs[j as int]));
            assert(Seq::new((j + 1) as nat, |x: int| telemetry_entry(x, evs[x])) =~= prev.push(telemetry_entry(j as int, evs[j as int])));
            lemma_join_push(prev, ","@, telemetry_entry(j as int, evs[j as int]));
        }
        j = j + 1;
    }
    push_str(&mut json, "],\"tasks\":[");
    push_str(&mut json, "{\"task\":");
    push_quoted(&mut json, task);
    push_str(&mut json, ",\"start_timestamp_micros\":null,\"duration_micros\":0,\"event_count\":");
    push_nat(&mut json, total as u64);
    push_str(&mut json, ",\"capability_counts\":");
    push_count_object(&mut json, "io", n);
    push_str(&mut json, ",\"operation_counts\":");
    push_count_object(&mut json, "io::write_line", n);
    push_str(&mut json, ",\"capability_durations_micros\":{},\"operation_durations_micros\":{},\"spawned_tasks\":0}");
    push_str(&mut json, "],\"summary\":");
    push_str(&mut json, "{\"total_tasks\":1,\"total_events\":");
    push_nat(&mut json, total as u64);
    push_str(&mut json, ",\"spawned_tasks\":0,\"capability_counts\":");
    push_count_object(&mut json, "io", n);
    push_str(&mut json, ",\"operation_counts\":");
    push_count_object(&mut json, "io::write_line", n);
    push_str(&mut json, ",\"capability_durations_micros\":{},\"operation_durations_micros\":{}}");
    push_str(&mut json, "}");
    assert(json@ =~= trace_json(task@, stdout@, stderr@));
    json
}

// ---------------------------------------------------------------------------
// The entry task
// ---------------------------------------------------------------------------

/// The item is a function called `main`.
pub open spec fn is_main_item(item: Item) -> bool {
    item matches Item::Function(f) && f.name@ == "main"@
}

/// The module defines a function called `main`.
pub open spec fn has_main(module: Module) -> bool {
    exists|i: int| 0 <= i < module.items@.len() && #[trigger] is_main_item(module.items@[i])
}

/// The task a program's `main` runs as: `main` qualified by the module path.
pub open spec fn entry_task_name(path: Seq<Seq<char>>) -> Seq<char> {
    let joined = join(path, "::"@);
    if joined.len() == 0 {
        "main"@
    } else {
        joined + "::main"@
    }
}

/// The binding declares a capability of the function `main` of the module
/// at `path`.
pub open spec fn binds_main(scope: CapabilityScope, path: Seq<Seq<char>>) -> bool {
    scope matches CapabilityScope::Function { module, function } && views(module@) == path && function@ == "main"@
}

/// The capabilities declared for `main` of the module at `path`, in order.
pub open spec fn main_capabilities(bindings: Seq<crate::semantics::resolve::CapabilityBinding>, path: Seq<Seq<char>>) -> Seq<Seq<char>>
    decreases bindings.len(),
{
    if bindings.len() == 0 {
        Seq::empty()
    } else if binds_main(bindings.last().scope, path) {
        main_capabilities(bindings.drop_last(), path).push(bindings.last().name@)
    } else {
        main_capabilities(bindings.drop_last(), path)
    }
}

fn is_main(item: &Item) -> (r: bool)
    ensures
        r == is_main_item(*item),
{
    match item {
        Item::Function(f) => crate::text::str_eq(f.name.as_str(), "main"),
        _ => false,
    }
}

fn same_path(a: &Vec<String>, b: &Vec<String>) -> (r: bool)
    ensures
        r == (views(a@) == views(b@)),
{
    if a.len() != b.len() {
        proof {
            if views(a@) == views(b@) {
                assert(views(a@).len() == views(b@).len());
            }
        }
        return false;
    }
    let mut i: usize = 0;
    while i < a.len()
        invariant
            i <= a.len(),
            a.len() == b.len(),
            forall|k: int| 0 <= k < i ==> a@[k]@ == b@[k]@,
        decreases a.len() - i,
    {
        if !crate::text::str_eq(a[i].as_str(), b[i].as_str()) {
            proof {
                if views(a@) == views(b@) {
                    assert(views(a@)[i as int] == views(b@)[i as int]);
                }
            }
            return false;
        }
        i = i + 1;
    }
    assert(views(a@) =~= views(b@));
    true
}

/// The task the program's entry point runs as, with the capabilities its
/// `main` declares; none when the module has no `main`.
pub fn entry_task_spec(module: &Module, resolved: &Resolved) -> (spec: Option<TaskSpec>)
    ensures
        spec is Some <==> has_main(*module),
        spec matches Some(t) ==> t.name_view() == entry_task_name(views(resolved.module@))
            && t.capability_views() == first_occurrences(main_capabilities(resolved.capabilities@, views(resolved.module@))),
{
    let mut found = false;
    let mut i: usize = 0;
    while i < module.items.len()
        invariant
            i <= module.items.len(),
            found == exists|k: int| 0 <= k < i && #[trigger] is_main_item(module.items@[k]),
        decreases module.items.len() - i,
    {
        if is_main(&module.items[i]) {
            found = true;
        }
        i = i + 1;
    }
    if !found {
        return None;
    }
    let joined = crate::text::join_strings(&resolved.module, "::");
    let mut name = String::new();
    if crate::text::is_empty_text(joined.as_str()) {
        push_str(&mut name, "main");
    } else {
        push_str(&mut name, joined.as_str());
        push_str(&mut name, "::main");
    }
    assert(name@ =~= entry_task_name(views(resolved.module@)));
    let mut spec = TaskSpec::new(name.as_str());
    let ghost path = views(resolved.module@);
    let ghost bs = resolved.capabilities@;
    let mut k: usize = 0;
    assert(first_occurrences(main_capabilities(bs.take(0), path)) =~= Seq::<Seq<char>>::empty());
    while k < resolved.capabilities.len()
        invariant
            k <= resolved.capabilities.len(),
            bs == resolved.capabilities@,
            path == views(resolved.module@),
            spec.name_view() == entry_task_name(path),
            spec.capability_views() == first_occurrences(main_capabilities(bs.take(k as int), path)),
        decreases resolved.capabilities.len() - k,
    {
        let binding = &resolved.capabilities[k];
        let ghost pre = main_capabilities(bs.take(k as int), path);
        assert(bs.take(k + 1).drop_last() =~= bs.take(k as int));
        assert(bs.take(k + 1).last() == bs[k as int]);
        match &binding.scope {
            CapabilityScope::Function { module, function } => {
                if same_path(module, &resolved.module) && crate::text::str_eq(function.as_str(), "main") {
                    spec.require(binding.name.as_str());
                    proof {
                        crate::backend::native::lemma_first_occurrences_push(pre, binding.name@);
                    }
                }
            },
            _ => {},
        }
        k = k + 1;
    }
    assert(bs.take(bs.len() as int) =~= bs);
    Some(spec)
}

} // verus!
