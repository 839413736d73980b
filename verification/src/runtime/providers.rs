//! Capability providers that need nothing from the host: scripted console
//! input, an in-memory filesystem and environment, a scripted clock and
//! process table, and registered network fixtures.
use vstd::prelude::*;

use super::store::{as_map, distinct_keys, lemma_as_map_map_values, lemma_distinct_map_values, StrMap};
use super::{
    cap_event_views, payload_string, string_payload, CapabilityEvent, CapabilityInvocation,
    ProviderResponse, RuntimeError, RuntimeValue, SpecCapabilityEvent, SpecErrorKind, SpecValue,
};
use crate::text::{
    copy_string, int_text, is_empty_text, push_int, push_str, split_once, split_once_at, str_eq,
    to_owned_string, trim, trim_string, text_less, text_lt, nat_digits, push_nat,
};

verus! {

/// A provider's answer, with its texts as character sequences.
pub type SpecAnswer = Result<(SpecValue, Seq<SpecCapabilityEvent>), SpecErrorKind>;

/// The view of a provider's answer.
pub open spec fn answer_view(r: Result<ProviderResponse, RuntimeError>) -> SpecAnswer {
    match r {
        Ok(resp) => Ok((resp.value@, cap_event_views(resp.events@))),
        Err(e) => Err(e@),
    }
}

pub open spec fn failure(capability: Seq<char>, message: Seq<char>) -> SpecAnswer {
    Err(SpecErrorKind::ProviderFailure { capability, message })
}

pub open spec fn unsupported(capability: Seq<char>, op: Seq<char>) -> SpecAnswer {
    failure(capability, "unsupported operation '"@ + op + "'"@)
}

fn fail(capability: &str, message: &str) -> (r: Result<ProviderResponse, RuntimeError>)
    ensures
        answer_view(r) == failure(capability@, message@),
{
    Err(RuntimeError::provider_failure(capability, to_owned_string(message)))
}

/// A failure whose message is `before`, `middle` and `after` in a row.
fn fail_with(capability: &str, before: &str, middle: &str, after: &str) -> (r: Result<
    ProviderResponse,
    RuntimeError,
>)
    ensures
        answer_view(r) == failure(capability@, before@ + middle@ + after@),
{
    let mut m = String::new();
    push_str(&mut m, before);
    push_str(&mut m, middle);
    push_str(&mut m, after);
    assert(m@ =~= before@ + middle@ + after@);
    Err(RuntimeError::provider_failure(capability, m))
}

fn reject(capability: &str, op: &str) -> (r: Result<ProviderResponse, RuntimeError>)
    ensures
        answer_view(r) == unsupported(capability@, op@),
{
    fail_with(capability, "unsupported operation '", op, "'")
}

fn joined(a: &str, b: &str) -> (s: String)
    ensures
        s@ == a@ + b@,
{
    let mut s = to_owned_string(a);
    push_str(&mut s, b);
    s
}

// ---------------------------------------------------------------------------
// Console
// ---------------------------------------------------------------------------

/// The console of a host: `write_line` echoes its payload as an event.
#[derive(Debug)]
pub struct ConsoleProvider;

pub open spec fn echo_answer(op: Seq<char>, payload: Option<Seq<char>>) -> SpecAnswer {
    if op == "write_line"@ {
        match payload {
            Some(m) => Ok((SpecValue::Unit, seq![SpecCapabilityEvent::Message(m)])),
            None => failure("io"@, "write_line expects a string payload"@),
        }
    } else {
        unsupported("io"@, op)
    }
}

impl ConsoleProvider {
    pub fn handle(&self, invocation: &CapabilityInvocation) -> (r: Result<
        ProviderResponse,
        RuntimeError,
    >)
        ensures
            answer_view(r) == echo_answer(invocation.operation@, string_payload(invocation.payload)),
    {
        if str_eq(invocation.operation.as_str(), "write_line") {
            match payload_string(&invocation.payload) {
                Some(m) => {
                    let r = ProviderResponse::new(RuntimeValue::unit()).with_event(
                        CapabilityEvent::Message(m),
                    );
                    assert(cap_event_views(r.events@) =~= seq![
                        SpecCapabilityEvent::Message(string_payload(invocation.payload)->0),
                    ]);
                    Ok(r)
                },
                None => fail("io", "write_line expects a string payload"),
            }
        } else {
            reject("io", invocation.operation.as_str())
        }
    }
}

/// A console whose input lines are scripted and whose output is recorded.
#[derive(Debug)]
pub struct DeterministicConsoleProvider {
    writes: Vec<String>,
    inputs: Vec<String>,
}

pub open spec fn string_views(v: Seq<String>) -> Seq<Seq<char>> {
    v.map_values(|s: String| s@)
}

/// The recorded writes and pending inputs.
pub struct ConsoleState {
    pub writes: Seq<Seq<char>>,
    pub inputs: Seq<Seq<char>>,
}

/// What a scripted console does with an invocation.
pub open spec fn console_step(s: ConsoleState, op: Seq<char>, payload: Option<Seq<char>>) -> (
    ConsoleState,
    SpecAnswer,
) {
    if op == "write_line"@ {
        match payload {
            Some(m) => (
                ConsoleState { writes: s.writes.push(m), inputs: s.inputs },
                Ok((SpecValue::Unit, seq![SpecCapabilityEvent::Message(m)])),
            ),
            None => (s, failure("io"@, "write_line expects a string payload"@)),
        }
    } else if op == "read_line"@ {
        if s.inputs.len() > 0 {
            let line = s.inputs[0];
            (
                ConsoleState { writes: s.writes, inputs: s.inputs.drop_first() },
                Ok(
                    (
                        SpecValue::String(line),
                        seq![SpecCapabilityEvent::Data(SpecValue::String(line))],
                    ),
                ),
            )
        } else {
            (s, failure("io"@, "read_line requires scripted input"@))
        }
    } else {
        (s, unsupported("io"@, op))
    }
}

impl DeterministicConsoleProvider {
    pub closed spec fn state(&self) -> ConsoleState {
        ConsoleState { writes: string_views(self.writes@), inputs: string_views(self.inputs@) }
    }

    /// A console with nothing written and no input.
    pub fn new() -> (c: DeterministicConsoleProvider)
        ensures
            c.state().writes == Seq::<Seq<char>>::empty(),
            c.state().inputs == Seq::<Seq<char>>::empty(),
    {
        let c = DeterministicConsoleProvider { writes: Vec::new(), inputs: Vec::new() };
        assert(c.state().writes =~= Seq::<Seq<char>>::empty());
        assert(c.state().inputs =~= Seq::<Seq<char>>::empty());
        c
    }

    /// A console whose input lines are `inputs`.
    pub fn with_inputs(inputs: Vec<String>) -> (c: DeterministicConsoleProvider)
        ensures
            c.state().writes == Seq::<Seq<char>>::empty(),
            c.state().inputs == string_views(inputs@),
    {
        let c = DeterministicConsoleProvider { writes: Vec::new(), inputs };
        assert(c.state().writes =~= Seq::<Seq<char>>::empty());
        c
    }

    /// Adds an input line after the pending ones.
    pub fn queue_input(&mut self, value: String)
        ensures
            final(self).state().writes == old(self).state().writes,
            final(self).state().inputs == old(self).state().inputs.push(value@),
    {
        let ghost before = self.state();
        self.inputs.push(value);
        assert(self.state().inputs =~= before.inputs.push(value@));
        assert(self.state().writes =~= before.writes);
    }

    /// The lines written so far.
    pub fn writes(&self) -> (w: Vec<String>)
        ensures
            string_views(w@) == self.state().writes,
    {
        let mut w: Vec<String> = Vec::new();
        let mut i: usize = 0;
        while i < self.writes.len()
            invariant
                i <= self.writes.len(),
                string_views(w@) == string_views(self.writes@.take(i as int)),
            decreases self.writes.len() - i,
        {
            let ghost before = w@;
            w.push(copy_string(&self.writes[i]));
            proof {
                assert(self.writes@.take(i + 1) =~= self.writes@.take(i as int).push(self.writes@[i as int]));
                assert(string_views(w@) =~= string_views(before).push(self.writes@[i as int]@));
                assert(string_views(self.writes@.take(i + 1)) =~= string_views(self.writes@.take(i as int)).push(self.writes@[i as int]@));
            }
            i = i + 1;
        }
        assert(self.writes@.take(self.writes.len() as int) =~= self.writes@);
        w
    }

    /// Forgets the lines written so far.
    pub fn clear_writes(&mut self)
        ensures
            final(self).state().writes == Seq::<Seq<char>>::empty(),
            final(self).state().inputs == old(self).state().inputs,
    {
        self.writes.clear();
        assert(self.state().writes =~= Seq::<Seq<char>>::empty());
    }

    pub fn handle(&mut self, invocation: &CapabilityInvocation) -> (r: Result<
        ProviderResponse,
        RuntimeError,
    >)
        ensures
            (final(self).state(), answer_view(r)) == console_step(
                old(self).state(),
                invocation.operation@,
                string_payload(invocation.payload),
            ),
    {
        if str_eq(invocation.operation.as_str(), "write_line") {
            match payload_string(&invocation.payload) {
                Some(m) => {
                    let ghost before = self.state();
                    self.writes.push(copy_string(&m));
                    let r = ProviderResponse::new(RuntimeValue::unit()).with_event(
                        CapabilityEvent::Message(m),
                    );
                    proof {
                        assert(self.state().writes =~= before.writes.push(m@));
                        assert(self.state().inputs =~= before.inputs);
                        assert(cap_event_views(r.events@) =~= seq![SpecCapabilityEvent::Message(m@)]);
                    }
                    Ok(r)
                },
                None => fail("io", "write_line expects a string payload"),
            }
        } else if str_eq(invocation.operation.as_str(), "read_line") {
            if self.inputs.len() > 0 {
                let ghost before = self.state();
                let line = self.inputs.remove(0);
                let r = ProviderResponse::new(RuntimeValue::String(copy_string(&line))).with_event(
                    CapabilityEvent::Data(RuntimeValue::String(line)),
                );
                proof {
                    assert(self.state().inputs =~= before.inputs.drop_first());
                    assert(self.state().writes =~= before.writes);
                    assert(cap_event_views(r.events@) =~= seq![
                        SpecCapabilityEvent::Data(SpecValue::String(before.inputs[0])),
                    ]);
                }
                Ok(r)
            } else {
                fail("io", "read_line requires scripted input")
            }
        } else {
            reject("io", invocation.operation.as_str())
        }
    }
}

// ---------------------------------------------------------------------------
// Assignments of the form `key=value`
// ---------------------------------------------------------------------------

/// The key of an assignment: the trimmed text before the first `=`.
pub open spec fn assignment_key(s: Seq<char>) -> Seq<char> {
    trim(split_once(s, '=').0)
}

/// The value of an assignment: the text after the first `=`, if any.
pub open spec fn assignment_value(s: Seq<char>) -> Option<Seq<char>> {
    split_once(s, '=').1
}

/// Splits `text` into a trimmed key and the value after the first `=`.
pub fn split_assignment(text: &str) -> (r: (String, Option<String>))
    ensures
        r.0@ == assignment_key(text@),
        r.1 matches Some(v) ==> assignment_value(text@) == Some(v@),
        r.1 is None ==> assignment_value(text@) is None,
{
    let (before, after) = split_once_at(text, '=');
    (trim_string(before.as_str()), after)
}

// ---------------------------------------------------------------------------
// Filesystem
// ---------------------------------------------------------------------------

/// Files held in memory, by path.
#[derive(Debug)]
pub struct InMemoryFilesystemProvider {
    files: StrMap<String>,
}

pub open spec fn text_map(m: Map<Seq<char>, String>) -> Map<Seq<char>, Seq<char>> {
    m.map_values(|s: String| s@)
}

/// What the in-memory filesystem does with an invocation.
pub open spec fn fs_step(files: Map<Seq<char>, Seq<char>>, op: Seq<char>, payload: Option<Seq<char>>) -> (
    Map<Seq<char>, Seq<char>>,
    SpecAnswer,
) {
    if op == "read_to_string"@ {
        match payload {
            None => (files, failure("fs"@, "read_to_string expects a string payload"@)),
            Some(path) => if files.contains_key(path) {
                (
                    files,
                    Ok(
                        (
                            SpecValue::String(files[path]),
                            seq![SpecCapabilityEvent::Data(SpecValue::String(files[path]))],
                        ),
                    ),
                )
            } else {
                (files, failure("fs"@, "no in-memory file registered for '"@ + path + "'"@))
            },
        }
    } else if op == "write_string"@ {
        match payload {
            None => (files, failure("fs"@, "write_string expects a string payload"@)),
            Some(p) => {
                let key = assignment_key(p);
                if key.len() == 0 {
                    (files, failure("fs"@, "write_string payload must be 'path=contents'"@))
                } else {
                    match assignment_value(p) {
                        None => (
                            files,
                            failure("fs"@, "write_string payload must include file contents"@),
                        ),
                        Some(contents) => (
                            files.insert(key, contents),
                            Ok(
                                (
                                    SpecValue::Unit,
                                    seq![SpecCapabilityEvent::Message("wrote "@ + key)],
                                ),
                            ),
                        ),
                    }
                }
            },
        }
    } else {
        (files, unsupported("fs"@, op))
    }
}

impl InMemoryFilesystemProvider {
    pub closed spec fn wf(&self) -> bool {
        self.files.wf()
    }

    /// The files, by path.
    pub closed spec fn contents(&self) -> Map<Seq<char>, Seq<char>> {
        text_map(self.files@)
    }

    /// An empty filesystem.
    pub fn new() -> (fs: InMemoryFilesystemProvider)
        ensures
            fs.wf(),
            fs.contents() == Map::<Seq<char>, Seq<char>>::empty(),
    {
        let fs = InMemoryFilesystemProvider { files: StrMap::new() };
        assert(fs.contents() =~= Map::<Seq<char>, Seq<char>>::empty());
        fs
    }

    /// Stores `contents` at `path`, replacing what was there.
    pub fn write_file(&mut self, path: String, contents: String)
        requires
            old(self).wf(),
        ensures
            final(self).wf(),
            final(self).contents() == old(self).contents().insert(path@, contents@),
    {
        let ghost before = self.files@;
        let ghost (p, c) = (path@, contents@);
        self.files.insert(path, contents);
        assert(text_map(self.files@) =~= text_map(before).insert(p, c));
    }

    /// The contents stored at `path`.
    pub fn read_file(&self, path: &str) -> (r: Option<String>)
        requires
            self.wf(),
        ensures
            r matches Some(c) ==> self.contents().contains_key(path@) && self.contents()[path@]
                == c@,
            r is None ==> !self.contents().contains_key(path@),
    {
        match self.files.get(path) {
            Some(c) => Some(copy_string(c)),
            None => None,
        }
    }

    /// Every stored file, as `(path, contents)` pairs in the order first
    /// written.
    pub fn snapshot(&self) -> (files: Vec<(String, String)>)
        requires
            self.wf(),
        ensures
            distinct_keys(pair_views(files@)),
            as_map(pair_views(files@)) == self.contents(),
    {
        snapshot_pairs(&self.files)
    }

    pub fn handle(&mut self, invocation: &CapabilityInvocation) -> (r: Result<
        ProviderResponse,
        RuntimeError,
    >)
        requires
            old(self).wf(),
        ensures
            final(self).wf(),
            (final(self).contents(), answer_view(r)) == fs_step(
                old(self).contents(),
                invocation.operation@,
                string_payload(invocation.payload),
            ),
    {
        if str_eq(invocation.operation.as_str(), "read_to_string") {
            match payload_string(&invocation.payload) {
                None => fail("fs", "read_to_string expects a string payload"),
                Some(path) => match self.read_file(path.as_str()) {
                    Some(c) => {
                        let r = ProviderResponse::new(RuntimeValue::String(copy_string(&c))).with_event(
                            CapabilityEvent::Data(RuntimeValue::String(c)),
                        );
                        assert(cap_event_views(r.events@) =~= seq![
                            SpecCapabilityEvent::Data(SpecValue::String(self.contents()[path@])),
                        ]);
                        Ok(r)
                    },
                    None => fail_with("fs", "no in-memory file registered for '", path.as_str(), "'"),
                },
            }
        } else if str_eq(invocation.operation.as_str(), "write_string") {
            match payload_string(&invocation.payload) {
                None => fail("fs", "write_string expects a string payload"),
                Some(p) => {
                    let (key, value) = split_assignment(p.as_str());
                    if is_empty_text(key.as_str()) {
                        fail("fs", "write_string payload must be 'path=contents'")
                    } else {
                        match value {
                            None => fail("fs", "write_string payload must include file contents"),
                            Some(contents) => {
                                let message = joined("wrote ", key.as_str());
                                self.write_file(key, contents);
                                let r = ProviderResponse::new(RuntimeValue::unit()).with_event(
                                    CapabilityEvent::Message(message),
                                );
                                assert(cap_event_views(r.events@) =~= seq![
                                    SpecCapabilityEvent::Message("wrote "@ + assignment_key(p@)),
                                ]);
                                Ok(r)
                            },
                        }
                    }
                },
            }
        } else {
            reject("fs", invocation.operation.as_str())
        }
    }
}

/// The pairs with both texts as character sequences.
pub open spec fn pair_views(v: Seq<(String, String)>) -> Seq<(Seq<char>, Seq<char>)> {
    v.map_values(|e: (String, String)| (e.0@, e.1@))
}

fn snapshot_pairs(m: &StrMap<String>) -> (files: Vec<(String, String)>)
    requires
        m.wf(),
    ensures
        distinct_keys(pair_views(files@)),
        as_map(pair_views(files@)) == text_map(m@),
{
    let es = m.entries();
    let mut out: Vec<(String, String)> = Vec::new();
    let mut i: usize = 0;
    while i < es.len()
        invariant
            i <= es.len(),
            es@.map_values(|e: (String, String)| (e.0@, e.1)) == m.entries_view(),
            pair_views(out@) == pair_views(es@.take(i as int)),
        decreases es.len() - i,
    {
        let ghost before = out@;
        out.push((copy_string(&es[i].0), copy_string(&es[i].1)));
        proof {
            assert(es@.take(i + 1) =~= es@.take(i as int).push(es@[i as int]));
            assert(pair_views(out@) =~= pair_views(before).push((es@[i as int].0@, es@[i as int].1@)));
            assert(pair_views(es@.take(i + 1)) =~= pair_views(es@.take(i as int)).push((es@[i as int].0@, es@[i as int].1@)));
        }
        i = i + 1;
    }
    proof {
        assert(es@.take(es.len() as int) =~= es@);
        let g = |s: String| s@;
        let ev = m.entries_view();
        assert(pair_views(out@) =~= ev.map_values(|e: (Seq<char>, String)| (e.0, g(e.1))));
        lemma_as_map_map_values(ev, g);
        m.lemma_wf();
        lemma_distinct_map_values(ev, g);
    }
    out
}


// ---------------------------------------------------------------------------
// Environment
// ---------------------------------------------------------------------------

/// Environment variables held in memory.
#[derive(Debug)]
pub struct DeterministicEnvProvider {
    values: StrMap<String>,
}

/// What the in-memory environment does with an invocation.
pub open spec fn env_step(vars: Map<Seq<char>, Seq<char>>, op: Seq<char>, payload: Option<Seq<char>>) -> (
    Map<Seq<char>, Seq<char>>,
    SpecAnswer,
) {
    if op == "get"@ {
        match payload {
            None => (vars, failure("env"@, "get expects a string payload"@)),
            Some(key) => if vars.contains_key(key) {
                (
                    vars,
                    Ok(
                        (
                            SpecValue::String(vars[key]),
                            seq![SpecCapabilityEvent::Data(SpecValue::String(vars[key]))],
                        ),
                    ),
                )
            } else {
                (vars, failure("env"@, "environment variable '"@ + key + "' is not scripted"@))
            },
        }
    } else if op == "set"@ {
        match payload {
            None => (vars, failure("env"@, "set expects a string payload"@)),
            Some(p) => {
                let key = assignment_key(p);
                if key.len() == 0 {
                    (vars, failure("env"@, "set payload must be 'KEY=VALUE'"@))
                } else {
                    match assignment_value(p) {
                        None => (vars, failure("env"@, "set payload must include a value"@)),
                        Some(value) => (
                            vars.insert(key, value),
                            Ok((SpecValue::Unit, seq![SpecCapabilityEvent::Message("set "@ + key)])),
                        ),
                    }
                }
            },
        }
    } else if op == "unset"@ {
        match payload {
            None => (vars, failure("env"@, "unset expects a string payload"@)),
            Some(key) => (
                vars.remove(key),
                Ok((SpecValue::Unit, seq![SpecCapabilityEvent::Message("unset "@ + key)])),
            ),
        }
    } else {
        (vars, unsupported("env"@, op))
    }
}

impl DeterministicEnvProvider {
    pub closed spec fn wf(&self) -> bool {
        self.values.wf()
    }

    /// The variables, by name.
    pub closed spec fn vars(&self) -> Map<Seq<char>, Seq<char>> {
        text_map(self.values@)
    }

    /// An empty environment.
    pub fn new() -> (e: DeterministicEnvProvider)
        ensures
            e.wf(),
            e.vars() == Map::<Seq<char>, Seq<char>>::empty(),
    {
        let e = DeterministicEnvProvider { values: StrMap::new() };
        assert(e.vars() =~= Map::<Seq<char>, Seq<char>>::empty());
        e
    }

    /// Sets `key` to `value`.
    pub fn set(&mut self, key: String, value: String)
        requires
            old(self).wf(),
        ensures
            final(self).wf(),
            final(self).vars() == old(self).vars().insert(key@, value@),
    {
        let ghost before = self.values@;
        let ghost (k, v) = (key@, value@);
        self.values.insert(key, value);
        assert(text_map(self.values@) =~= text_map(before).insert(k, v));
    }

    /// The value of `key`.
    pub fn get(&self, key: &str) -> (r: Option<String>)
        requires
            self.wf(),
        ensures
            r matches Some(v) ==> self.vars().contains_key(key@) && self.vars()[key@] == v@,
            r is None ==> !self.vars().contains_key(key@),
    {
        match self.values.get(key) {
            Some(v) => Some(copy_string(v)),
            None => None,
        }
    }

    /// Removes `key`.
    pub fn unset(&mut self, key: &str)
        requires
            old(self).wf(),
        ensures
            final(self).wf(),
            final(self).vars() == old(self).vars().remove(key@),
    {
        let ghost before = self.values@;
        self.values.remove(key);
        assert(text_map(self.values@) =~= text_map(before).remove(key@));
    }

    /// Every variable, as `(name, value)` pairs in the order first set.
    pub fn snapshot(&self) -> (vars: Vec<(String, String)>)
        requires
            self.wf(),
        ensures
            distinct_keys(pair_views(vars@)),
            as_map(pair_views(vars@)) == self.vars(),
    {
        snapshot_pairs(&self.values)
    }

    pub fn handle(&mut self, invocation: &CapabilityInvocation) -> (r: Result<
        ProviderResponse,
        RuntimeError,
    >)
        requires
            old(self).wf(),
        ensures
            final(self).wf(),
            (final(self).vars(), answer_view(r)) == env_step(
                old(self).vars(),
                invocation.operation@,
                string_payload(invocation.payload),
            ),
    {
        let op = invocation.operation.as_str();
        if str_eq(op, "get") {
            match payload_string(&invocation.payload) {
                None => fail("env", "get expects a string payload"),
                Some(key) => match self.get(key.as_str()) {
                    Some(v) => {
                        let r = ProviderResponse::new(RuntimeValue::String(copy_string(&v))).with_event(
                            CapabilityEvent::Data(RuntimeValue::String(v)),
                        );
                        assert(cap_event_views(r.events@) =~= seq![
                            SpecCapabilityEvent::Data(SpecValue::String(self.vars()[key@])),
                        ]);
                        Ok(r)
                    },
                    None => fail_with("env", "environment variable '", key.as_str(), "' is not scripted"),
                },
            }
        } else if str_eq(op, "set") {
            match payload_string(&invocation.payload) {
                None => fail("env", "set expects a string payload"),
                Some(p) => {
                    let (key, value) = split_assignment(p.as_str());
                    if is_empty_text(key.as_str()) {
                        fail("env", "set payload must be 'KEY=VALUE'")
                    } else {
                        match value {
                            None => fail("env", "set payload must include a value"),
                            Some(v) => {
                                let message = joined("set ", key.as_str());
                                self.set(key, v);
                                let r = ProviderResponse::new(RuntimeValue::unit()).with_event(
                                    CapabilityEvent::Message(message),
                                );
                                assert(cap_event_views(r.events@) =~= seq![
                                    SpecCapabilityEvent::Message("set "@ + assignment_key(p@)),
                                ]);
                                Ok(r)
                            },
                        }
                    }
                },
            }
        } else if str_eq(op, "unset") {
            match payload_string(&invocation.payload) {
                None => fail("env", "unset expects a string payload"),
                Some(key) => {
                    self.unset(key.as_str());
                    let message = joined("unset ", key.as_str());
                    let r = ProviderResponse::new(RuntimeValue::unit()).with_event(
                        CapabilityEvent::Message(message),
                    );
                    assert(cap_event_views(r.events@) =~= seq![
                        SpecCapabilityEvent::Message("unset "@ + key@),
                    ]);
                    Ok(r)
                },
            }
        } else {
            reject("env", op)
        }
    }
}

// ---------------------------------------------------------------------------
// Clock
// ---------------------------------------------------------------------------

/// `a + b`, clamped to the range of `i64`.
pub open spec fn sat_add(a: i64, b: i64) -> i64 {
    if a + b > i64::MAX {
        i64::MAX
    } else if a + b < i64::MIN {
        i64::MIN
    } else {
        (a + b) as i64
    }
}

fn saturating_add(a: i64, b: i64) -> (r: i64)
    ensures
        r == sat_add(a, b),
{
    match a.checked_add(b) {
        Some(v) => v,
        None => if b > 0 {
            i64::MAX
        } else {
            i64::MIN
        },
    }
}

/// A clock that replays scripted timestamps and otherwise counts up from a
/// start value by a fixed step.
#[derive(Debug)]
pub struct DeterministicTimeProvider {
    next: i64,
    step: i64,
    scripted: Vec<i64>,
    last_emitted: Option<i64>,
}

/// The clock's state.
pub struct ClockState {
    pub next: i64,
    pub step: i64,
    pub scripted: Seq<i64>,
    pub last_emitted: Option<i64>,
}

/// The next timestamp and the clock after emitting it: the first scripted
/// value if there is one, else the counter; the counter then continues one
/// step after the emitted value.
pub open spec fn tick(c: ClockState) -> (ClockState, i64) {
    if c.scripted.len() > 0 {
        let v = c.scripted[0];
        (
            ClockState {
                next: sat_add(v, c.step),
                step: c.step,
                scripted: c.scripted.drop_first(),
                last_emitted: Some(v),
            },
            v,
        )
    } else {
        (
            ClockState {
                next: sat_add(c.next, c.step),
                step: c.step,
                scripted: c.scripted,
                last_emitted: Some(c.next),
            },
            c.next,
        )
    }
}

/// What the clock does with an invocation.
pub open spec fn clock_step(c: ClockState, op: Seq<char>) -> (ClockState, SpecAnswer) {
    if op == "now_millis"@ {
        let (c2, v) = tick(c);
        (c2, Ok((SpecValue::Int(v), seq![SpecCapabilityEvent::Data(SpecValue::Int(v))])))
    } else {
        (c, unsupported("time"@, op))
    }
}

impl DeterministicTimeProvider {
    pub closed spec fn state(&self) -> ClockState {
        ClockState {
            next: self.next,
            step: self.step,
            scripted: self.scripted@,
            last_emitted: self.last_emitted,
        }
    }

    /// A clock counting from `start` by `step`.
    pub fn monotonic(start: i64, step: i64) -> (t: DeterministicTimeProvider)
        ensures
            t.state() == (ClockState {
                next: start,
                step,
                scripted: Seq::<i64>::empty(),
                last_emitted: None,
            }),
    {
        let t = DeterministicTimeProvider { next: start, step, scripted: Vec::new(), last_emitted: None };
        assert(t.state().scripted =~= Seq::<i64>::empty());
        t
    }

    /// A clock that first replays `values`, counting from 0 by 1.
    pub fn scripted(values: Vec<i64>) -> (t: DeterministicTimeProvider)
        ensures
            t.state() == (ClockState { next: 0, step: 1, scripted: values@, last_emitted: None }),
    {
        DeterministicTimeProvider { next: 0, step: 1, scripted: values, last_emitted: None }
    }

    /// Schedules `value` after the pending scripted timestamps.
    pub fn push_time(&mut self, value: i64)
        ensures
            final(self).state() == (ClockState {
                scripted: old(self).state().scripted.push(value),
                ..old(self).state()
            }),
    {
        self.scripted.push(value);
    }

    /// Changes the step.
    pub fn set_step(&mut self, step: i64)
        ensures
            final(self).state() == (ClockState { step, ..old(self).state() }),
    {
        self.step = step;
    }

    /// The timestamp emitted last.
    pub fn last_emitted(&self) -> (r: Option<i64>)
        ensures
            r == self.state().last_emitted,
    {
        self.last_emitted
    }

    /// Emits the next timestamp.
    pub fn next_timestamp(&mut self) -> (v: i64)
        ensures
            (final(self).state(), v) == tick(old(self).state()),
    {
        let value = if self.scripted.len() > 0 {
            let ghost before = self.scripted@;
            let v = self.scripted.remove(0);
            assert(self.scripted@ =~= before.drop_first());
            self.next = saturating_add(v, self.step);
            v
        } else {
            let current = self.next;
            self.next = saturating_add(self.next, self.step);
            current
        };
        self.last_emitted = Some(value);
        value
    }

    pub fn handle(&mut self, invocation: &CapabilityInvocation) -> (r: Result<
        ProviderResponse,
        RuntimeError,
    >)
        ensures
            (final(self).state(), answer_view(r)) == clock_step(old(self).state(), invocation.operation@),
    {
        if str_eq(invocation.operation.as_str(), "now_millis") {
            let v = self.next_timestamp();
            let r = ProviderResponse::new(RuntimeValue::Int(v)).with_event(
                CapabilityEvent::Data(RuntimeValue::Int(v)),
            );
            assert(cap_event_views(r.events@) =~= seq![SpecCapabilityEvent::Data(SpecValue::Int(v))]);
            Ok(r)
        } else {
            reject("time", invocation.operation.as_str())
        }
    }
}


// ---------------------------------------------------------------------------
// Processes
// ---------------------------------------------------------------------------

/// A process run, as recorded.
#[derive(Debug, Clone)]
pub struct CompletedProcess {
    pub command: String,
    pub exit_code: i32,
    pub stdout: Vec<String>,
    pub stderr: Vec<String>,
}

/// A process run scripted in advance: the command expected, its output lines
/// and its exit code.
#[derive(Debug, Clone)]
pub struct ScriptedProcess {
    command: String,
    stdout: Vec<String>,
    stderr: Vec<String>,
    exit_code: i32,
}

/// A process run with its texts as character sequences.
pub struct SpecProcess {
    pub command: Seq<char>,
    pub stdout: Seq<Seq<char>>,
    pub stderr: Seq<Seq<char>>,
    pub exit_code: i32,
}

impl View for ScriptedProcess {
    type V = SpecProcess;

    closed spec fn view(&self) -> SpecProcess {
        SpecProcess {
            command: self.command@,
            stdout: string_views(self.stdout@),
            stderr: string_views(self.stderr@),
            exit_code: self.exit_code,
        }
    }
}

impl View for CompletedProcess {
    type V = SpecProcess;

    open spec fn view(&self) -> SpecProcess {
        SpecProcess {
            command: self.command@,
            stdout: string_views(self.stdout@),
            stderr: string_views(self.stderr@),
            exit_code: self.exit_code,
        }
    }
}

fn copy_strings(v: &Vec<String>) -> (r: Vec<String>)
    ensures
        string_views(r@) == string_views(v@),
{
    let mut r: Vec<String> = Vec::new();
    let mut i: usize = 0;
    while i < v.len()
        invariant
            i <= v.len(),
            string_views(r@) == string_views(v@.take(i as int)),
        decreases v.len() - i,
    {
        let ghost before = r@;
        r.push(copy_string(&v[i]));
        proof {
            assert(string_views(r@) =~= string_views(before).push(v@[i as int]@));
            assert(v@.take(i + 1) =~= v@.take(i as int).push(v@[i as int]));
            assert(string_views(v@.take(i + 1)) =~= string_views(v@.take(i as int)).push(v@[i as int]@));
        }
        i = i + 1;
    }
    assert(v@.take(v.len() as int) =~= v@);
    r
}

impl CompletedProcess {
    /// A copy of the record.
    pub fn copy(&self) -> (c: CompletedProcess)
        ensures
            c@ == self@,
    {
        CompletedProcess {
            command: copy_string(&self.command),
            exit_code: self.exit_code,
            stdout: copy_strings(&self.stdout),
            stderr: copy_strings(&self.stderr),
        }
    }
}

impl ScriptedProcess {
    /// A run of `command` with no output and exit code 0.
    pub fn new(command: &str) -> (p: ScriptedProcess)
        ensures
            p@ == (SpecProcess {
                command: command@,
                stdout: Seq::empty(),
                stderr: Seq::empty(),
                exit_code: 0,
            }),
    {
        let p = ScriptedProcess {
            command: to_owned_string(command),
            stdout: Vec::new(),
            stderr: Vec::new(),
            exit_code: 0,
        };
        assert(p@.stdout =~= Seq::<Seq<char>>::empty());
        assert(p@.stderr =~= Seq::<Seq<char>>::empty());
        p
    }

    /// The run with exit code `code`.
    pub fn with_exit_code(self, code: i32) -> (p: ScriptedProcess)
        ensures
            p@ == (SpecProcess { exit_code: code, ..self@ }),
    {
        let mut p = self;
        p.exit_code = code;
        p
    }

    /// The run with one more standard output line.
    pub fn with_stdout_line(self, line: &str) -> (p: ScriptedProcess)
        ensures
            p@ == (SpecProcess { stdout: self@.stdout.push(line@), ..self@ }),
    {
        let mut p = self;
        let ghost before = p.stdout@;
        p.stdout.push(to_owned_string(line));
        assert(string_views(p.stdout@) =~= string_views(before).push(line@));
        p
    }

    /// The run with one more standard error line.
    pub fn with_stderr_line(self, line: &str) -> (p: ScriptedProcess)
        ensures
            p@ == (SpecProcess { stderr: self@.stderr.push(line@), ..self@ }),
    {
        let mut p = self;
        let ghost before = p.stderr@;
        p.stderr.push(to_owned_string(line));
        assert(string_views(p.stderr@) =~= string_views(before).push(line@));
        p
    }
}

/// A process table that replays scripted runs in order and records them.
#[derive(Debug)]
pub struct DeterministicProcessProvider {
    scripted: Vec<ScriptedProcess>,
    completed: Vec<CompletedProcess>,
}

/// The pending and the recorded runs.
pub struct ProcessState {
    pub scripted: Seq<SpecProcess>,
    pub completed: Seq<SpecProcess>,
}

pub open spec fn prefixed(prefix: Seq<char>, lines: Seq<Seq<char>>) -> Seq<SpecCapabilityEvent> {
    lines.map_values(|l: Seq<char>| SpecCapabilityEvent::Message(prefix + l))
}

/// The events a scripted run reports.
pub open spec fn run_events(p: SpecProcess) -> Seq<SpecCapabilityEvent> {
    seq![SpecCapabilityEvent::Message("spawned "@ + p.command)] + prefixed("stdout: "@, p.stdout)
        + prefixed("stderr: "@, p.stderr) + seq![
        SpecCapabilityEvent::Data(SpecValue::Int(p.exit_code as i64)),
    ]
}

/// What the scripted process table does with an invocation. A run that does
/// not match the command requested is consumed all the same.
pub open spec fn process_step(s: ProcessState, op: Seq<char>, payload: Option<Seq<char>>) -> (
    ProcessState,
    SpecAnswer,
) {
    if op == "spawn"@ {
        match payload {
            None => (s, failure("process"@, "spawn expects a string payload"@)),
            Some(requested) => if s.scripted.len() == 0 {
                (s, failure("process"@, "spawn invoked without scripted process"@))
            } else {
                let p = s.scripted[0];
                let rest = ProcessState { scripted: s.scripted.drop_first(), completed: s.completed };
                if p.command != requested {
                    (
                        rest,
                        failure(
                            "process"@,
                            "expected scripted command '"@ + p.command + "' but received '"@
                                + requested + "'"@,
                        ),
                    )
                } else {
                    (
                        ProcessState { completed: s.completed.push(p), ..rest },
                        Ok((SpecValue::Int(p.exit_code as i64), run_events(p))),
                    )
                }
            },
        }
    } else {
        (s, unsupported("process"@, op))
    }
}

pub open spec fn process_views(v: Seq<ScriptedProcess>) -> Seq<SpecProcess> {
    v.map_values(|p: ScriptedProcess| p@)
}

pub open spec fn completed_views(v: Seq<CompletedProcess>) -> Seq<SpecProcess> {
    v.map_values(|p: CompletedProcess| p@)
}

fn push_prefixed(
    r: ProviderResponse,
    prefix: &str,
    lines: &Vec<String>,
) -> (out: ProviderResponse)
    ensures
        out.value@ == r.value@,
        cap_event_views(out.events@) == cap_event_views(r.events@) + prefixed(prefix@, string_views(lines@)),
{
    let mut out = r;
    let mut i: usize = 0;
    while i < lines.len()
        invariant
            i <= lines.len(),
            out.value@ == r.value@,
            cap_event_views(out.events@) == cap_event_views(r.events@) + prefixed(prefix@, string_views(lines@.take(i as int))),
        decreases lines.len() - i,
    {
        let ghost before = cap_event_views(out.events@);
        out = out.with_event(CapabilityEvent::Message(joined(prefix, lines[i].as_str())));
        proof {
            assert(lines@.take(i + 1) =~= lines@.take(i as int).push(lines@[i as int]));
            assert(prefixed(prefix@, string_views(lines@.take(i + 1))) =~= prefixed(prefix@, string_views(lines@.take(i as int))).push(SpecCapabilityEvent::Message(prefix@ + lines@[i as int]@)));
        }
        i = i + 1;
    }
    assert(lines@.take(lines.len() as int) =~= lines@);
    out
}

impl DeterministicProcessProvider {
    pub closed spec fn state(&self) -> ProcessState {
        ProcessState {
            scripted: process_views(self.scripted@),
            completed: completed_views(self.completed@),
        }
    }

    /// A table with nothing scripted or recorded.
    pub fn new() -> (p: DeterministicProcessProvider)
        ensures
            p.state().scripted == Seq::<SpecProcess>::empty(),
            p.state().completed == Seq::<SpecProcess>::empty(),
    {
        let p = DeterministicProcessProvider { scripted: Vec::new(), completed: Vec::new() };
        assert(p.state().scripted =~= Seq::<SpecProcess>::empty());
        assert(p.state().completed =~= Seq::<SpecProcess>::empty());
        p
    }

    /// Schedules `process` after the pending runs.
    pub fn script(&mut self, process: ScriptedProcess)
        ensures
            final(self).state().scripted == old(self).state().scripted.push(process@),
            final(self).state().completed == old(self).state().completed,
    {
        let ghost before = self.state();
        let ghost pv = process@;
        self.scripted.push(process);
        assert(self.state().scripted =~= before.scripted.push(pv));
        assert(self.state().completed =~= before.completed);
    }

    /// The runs recorded so far.
    pub fn completed(&self) -> (c: Vec<CompletedProcess>)
        ensures
            completed_views(c@) == self.state().completed,
    {
        let mut c: Vec<CompletedProcess> = Vec::new();
        let mut i: usize = 0;
        while i < self.completed.len()
            invariant
                i <= self.completed.len(),
                completed_views(c@) == completed_views(self.completed@.take(i as int)),
            decreases self.completed.len() - i,
        {
            let ghost before = c@;
            c.push(self.completed[i].copy());
            proof {
                assert(completed_views(c@) =~= completed_views(before).push(self.completed@[i as int]@));
                assert(self.completed@.take(i + 1) =~= self.completed@.take(i as int).push(self.completed@[i as int]));
                assert(completed_views(self.completed@.take(i + 1)) =~= completed_views(self.completed@.take(i as int)).push(self.completed@[i as int]@));
            }
            i = i + 1;
        }
        assert(self.completed@.take(self.completed.len() as int) =~= self.completed@);
        c
    }

    /// Takes the first pending run.
    fn dequeue(&mut self) -> (r: Option<ScriptedProcess>)
        ensures
            old(self).state().scripted.len() == 0 ==> r is None && final(self).state() == old(self).state(),
            old(self).state().scripted.len() > 0 ==> (r matches Some(p) && p@ == old(self).state().scripted[0]
                && final(self).state() == (ProcessState { scripted: old(self).state().scripted.drop_first(), ..old(self).state() })),
    {
        if self.scripted.len() > 0 {
            let ghost before = self.state();
            let p = self.scripted.remove(0);
            assert(self.state().scripted =~= before.scripted.drop_first());
            Some(p)
        } else {
            None
        }
    }

    /// Records `process` as run.
    fn push_completed(&mut self, process: &ScriptedProcess)
        ensures
            final(self).state() == (ProcessState { completed: old(self).state().completed.push(process@), ..old(self).state() }),
    {
        let ghost before = self.state();
        let c = CompletedProcess {
            command: copy_string(&process.command),
            exit_code: process.exit_code,
            stdout: copy_strings(&process.stdout),
            stderr: copy_strings(&process.stderr),
        };
        self.completed.push(c);
        assert(self.state().completed =~= before.completed.push(process@));
        assert(self.state().scripted =~= before.scripted);
    }

    pub fn handle(&mut self, invocation: &CapabilityInvocation) -> (r: Result<
        ProviderResponse,
        RuntimeError,
    >)
        ensures
            (final(self).state(), answer_view(r)) == process_step(
                old(self).state(),
                invocation.operation@,
                string_payload(invocation.payload),
            ),
    {
        if !str_eq(invocation.operation.as_str(), "spawn") {
            return reject("process", invocation.operation.as_str());
        }
        let requested = match payload_string(&invocation.payload) {
            Some(r) => r,
            None => return fail("process", "spawn expects a string payload"),
        };
        let scripted = match self.dequeue() {
            Some(p) => p,
            None => return fail("process", "spawn invoked without scripted process"),
        };
        if !str_eq(scripted.command.as_str(), requested.as_str()) {
            let mut m = String::new();
            push_str(&mut m, "expected scripted command '");
            push_str(&mut m, scripted.command.as_str());
            push_str(&mut m, "' but received '");
            push_str(&mut m, requested.as_str());
            push_str(&mut m, "'");
            assert(m@ =~= "expected scripted command '"@ + scripted@.command + "' but received '"@ + requested@ + "'"@);
            return Err(RuntimeError::provider_failure("process", m));
        }
        self.push_completed(&scripted);
        let code = scripted.exit_code as i64;
        let r = ProviderResponse::new(RuntimeValue::Int(code));
        let r = r.with_event(CapabilityEvent::Message(joined("spawned ", scripted.command.as_str())));
        let r = push_prefixed(r, "stdout: ", &scripted.stdout);
        let r = push_prefixed(r, "stderr: ", &scripted.stderr);
        let r = r.with_event(CapabilityEvent::Data(RuntimeValue::Int(code)));
        assert(cap_event_views(r.events@) =~= run_events(scripted@));
        Ok(r)
    }
}


// ---------------------------------------------------------------------------
// Network fixtures
// ---------------------------------------------------------------------------

/// A canned response: a status, a body and headers.
#[derive(Debug, Clone)]
pub struct NetworkFixture {
    status: u16,
    body: String,
    headers: Vec<(String, String)>,
}

/// A canned response with its texts as character sequences.
pub struct SpecFixture {
    pub status: u16,
    pub body: Seq<char>,
    pub headers: Seq<(Seq<char>, Seq<char>)>,
}

impl View for NetworkFixture {
    type V = SpecFixture;

    closed spec fn view(&self) -> SpecFixture {
        SpecFixture { status: self.status, body: self.body@, headers: pair_views(self.headers@) }
    }
}

/// Header order: by name, then by value.
pub open spec fn header_lt(x: (Seq<char>, Seq<char>), y: (Seq<char>, Seq<char>)) -> bool {
    text_lt(x.0, y.0) || (x.0 == y.0 && text_lt(x.1, y.1))
}

/// `x` inserted into `s` before the first element it precedes.
pub open spec fn insert_header(s: Seq<(Seq<char>, Seq<char>)>, x: (Seq<char>, Seq<char>)) -> Seq<
    (Seq<char>, Seq<char>),
>
    decreases s.len(),
{
    if s.len() == 0 {
        seq![x]
    } else if header_lt(x, s[0]) {
        seq![x] + s
    } else {
        seq![s[0]] + insert_header(s.drop_first(), x)
    }
}

/// The headers sorted by name, then value.
pub open spec fn sort_headers(h: Seq<(Seq<char>, Seq<char>)>) -> Seq<(Seq<char>, Seq<char>)>
    decreases h.len(),
{
    if h.len() == 0 {
        Seq::empty()
    } else {
        insert_header(sort_headers(h.drop_last()), h.last())
    }
}

proof fn lemma_insert_header_at(s: Seq<(Seq<char>, Seq<char>)>, x: (Seq<char>, Seq<char>), p: int)
    requires
        0 <= p <= s.len(),
        forall|k: int| 0 <= k < p ==> !header_lt(x, s[k]),
        p < s.len() ==> header_lt(x, s[p]),
    ensures
        insert_header(s, x) == s.insert(p, x),
    decreases s.len(),
{
    if s.len() == 0 {
        assert(s.insert(p, x) =~= seq![x]);
    } else if p == 0 {
        assert(s.insert(0, x) =~= seq![x] + s);
    } else {
        let d = s.drop_first();
        assert forall|k: int| 0 <= k < p - 1 implies !header_lt(x, d[k]) by {
            assert(d[k] == s[k + 1]);
        }
        lemma_insert_header_at(d, x, p - 1);
        assert(s.insert(p, x) =~= seq![s[0]] + d.insert(p - 1, x));
    }
}

fn header_less(x: &(String, String), y: &(String, String)) -> (r: bool)
    ensures
        r == header_lt((x.0@, x.1@), (y.0@, y.1@)),
{
    text_less(x.0.as_str(), y.0.as_str()) || (str_eq(x.0.as_str(), y.0.as_str()) && text_less(
        x.1.as_str(),
        y.1.as_str(),
    ))
}

impl NetworkFixture {
    /// A response with `status` and `body` and no header.
    pub fn new(status: u16, body: &str) -> (f: NetworkFixture)
        ensures
            f@ == (SpecFixture { status, body: body@, headers: Seq::empty() }),
    {
        let f = NetworkFixture { status, body: to_owned_string(body), headers: Vec::new() };
        assert(f@.headers =~= Seq::<(Seq<char>, Seq<char>)>::empty());
        f
    }

    /// The response with one more header.
    pub fn with_header(self, name: &str, value: &str) -> (f: NetworkFixture)
        ensures
            f@ == (SpecFixture { headers: self@.headers.push((name@, value@)), ..self@ }),
    {
        let mut f = self;
        let ghost before = f.headers@;
        f.headers.push((to_owned_string(name), to_owned_string(value)));
        assert(pair_views(f.headers@) =~= pair_views(before).push((name@, value@)));
        f
    }

    pub fn status(&self) -> (s: u16)
        ensures
            s == self@.status,
    {
        self.status
    }

    pub fn body(&self) -> (b: &str)
        ensures
            b@ == self@.body,
    {
        self.body.as_str()
    }

    /// The headers, sorted by name, then value.
    pub fn sorted_headers(&self) -> (h: Vec<(String, String)>)
        ensures
            pair_views(h@) == sort_headers(self@.headers),
    {
        let mut out: Vec<(String, String)> = Vec::new();
        let mut i: usize = 0;
        while i < self.headers.len()
            invariant
                i <= self.headers.len(),
                pair_views(out@) == sort_headers(pair_views(self.headers@.take(i as int))),
            decreases self.headers.len() - i,
        {
            let x = &self.headers[i];
            let mut p: usize = 0;
            while p < out.len() && !header_less(x, &out[p])
                invariant
                    p <= out.len(),
                    forall|k: int| 0 <= k < p ==> !header_lt((x.0@, x.1@), pair_views(out@)[k]),
                decreases out.len() - p,
            {
                p = p + 1;
            }
            let ghost before = pair_views(out@);
            let ghost xv = (x.0@, x.1@);
            proof {
                lemma_insert_header_at(before, xv, p as int);
            }
            out.insert(p, (copy_string(&x.0), copy_string(&x.1)));
            proof {
                assert(pair_views(out@) =~= before.insert(p as int, xv));
                let t1 = pair_views(self.headers@.take(i + 1));
                assert(t1.drop_last() =~= pair_views(self.headers@.take(i as int)));
                assert(t1.last() == xv);
            }
            i = i + 1;
        }
        assert(self.headers@.take(self.headers.len() as int) =~= self.headers@);
        out
    }
}

/// The events a fixture's response reports.
pub open spec fn fixture_events(key: Seq<char>, f: SpecFixture) -> Seq<SpecCapabilityEvent> {
    seq![
        SpecCapabilityEvent::Message("fixture "@ + key + " responded with status "@ + nat_digits(f.status as nat)),
        SpecCapabilityEvent::Data(SpecValue::Int(f.status as i64)),
    ] + sort_headers(f.headers).map_values(|h: (Seq<char>, Seq<char>)| header_event(h))
}

/// The event reporting one header.
pub open spec fn header_event(h: (Seq<char>, Seq<char>)) -> SpecCapabilityEvent {
    SpecCapabilityEvent::Message("header "@ + h.0 + ": "@ + h.1)
}

/// What the network provider does with an invocation.
pub open spec fn net_answer(fixtures: Map<Seq<char>, SpecFixture>, op: Seq<char>, payload: Option<Seq<char>>) -> SpecAnswer {
    if op == "fetch"@ {
        match payload {
            None => failure("net"@, "fetch expects a string payload identifying a fixture"@),
            Some(key) => if fixtures.contains_key(key) {
                Ok((SpecValue::String(fixtures[key].body), fixture_events(key, fixtures[key])))
            } else {
                failure("net"@, "no fixture registered for '"@ + key + "'"@)
            },
        }
    } else {
        unsupported("net"@, op)
    }
}

/// Serves registered fixtures by key.
#[derive(Debug)]
pub struct NetworkProvider {
    fixtures: StrMap<NetworkFixture>,
}

impl NetworkProvider {
    pub closed spec fn wf(&self) -> bool {
        self.fixtures.wf()
    }

    /// The registered fixtures, by key.
    pub closed spec fn fixtures(&self) -> Map<Seq<char>, SpecFixture> {
        self.fixtures@.map_values(|f: NetworkFixture| f@)
    }

    /// A provider with no fixture registered.
    pub fn new() -> (n: NetworkProvider)
        ensures
            n.wf(),
            n.fixtures() == Map::<Seq<char>, SpecFixture>::empty(),
    {
        let n = NetworkProvider { fixtures: StrMap::new() };
        assert(n.fixtures() =~= Map::<Seq<char>, SpecFixture>::empty());
        n
    }

    pub fn handle(&self, invocation: &CapabilityInvocation) -> (r: Result<ProviderResponse, RuntimeError>)
        requires
            self.wf(),
        ensures
            answer_view(r) == net_answer(self.fixtures(), invocation.operation@, string_payload(invocation.payload)),
    {
        if !str_eq(invocation.operation.as_str(), "fetch") {
            return reject("net", invocation.operation.as_str());
        }
        let key = match payload_string(&invocation.payload) {
            Some(k) => k,
            None => return fail("net", "fetch expects a string payload identifying a fixture"),
        };
        let fixture = match self.fixtures.get(key.as_str()) {
            Some(f) => f,
            None => return fail_with("net", "no fixture registered for '", key.as_str(), "'"),
        };
        let mut m = String::new();
        push_str(&mut m, "fixture ");
        push_str(&mut m, key.as_str());
        push_str(&mut m, " responded with status ");
        push_nat(&mut m, fixture.status as u64);
        assert(m@ =~= "fixture "@ + key@ + " responded with status "@ + nat_digits(fixture@.status as nat));
        let code = fixture.status as i64;
        let mut r = ProviderResponse::new(RuntimeValue::String(copy_string(&fixture.body)))
            .with_event(CapabilityEvent::Message(m))
            .with_event(CapabilityEvent::Data(RuntimeValue::Int(code)));
        let headers = fixture.sorted_headers();
        let ghost start = cap_event_views(r.events@);
        let mut i: usize = 0;
        while i < headers.len()
            invariant
                i <= headers.len(),
                r.value@ == SpecValue::String(fixture@.body),
                cap_event_views(r.events@) == start + pair_views(headers@.take(i as int)).map_values(|h: (Seq<char>, Seq<char>)| header_event(h)),
            decreases headers.len() - i,
        {
            let mut line = String::new();
            push_str(&mut line, "header ");
            push_str(&mut line, headers[i].0.as_str());
            push_str(&mut line, ": ");
            push_str(&mut line, headers[i].1.as_str());
            assert(line@ =~= "header "@ + headers@[i as int].0@ + ": "@ + headers@[i as int].1@);
            let ghost before = cap_event_views(r.events@);
            let ghost lv = line@;
            r = r.with_event(CapabilityEvent::Message(line));
            proof {
                assert(headers@.take(i + 1) =~= headers@.take(i as int).push(headers@[i as int]));
                assert(pair_views(headers@.take(i + 1)) =~= pair_views(headers@.take(i as int)).push((headers@[i as int].0@, headers@[i as int].1@)));
                let f = |h: (Seq<char>, Seq<char>)| header_event(h);
                let a = pair_views(headers@.take(i as int)).map_values(f);
                let e = header_event((headers@[i as int].0@, headers@[i as int].1@));
                assert(pair_views(headers@.take(i + 1)).map_values(f) =~= a.push(e));
                assert(e == SpecCapabilityEvent::Message(lv));
                assert(cap_event_views(r.events@) == before.push(SpecCapabilityEvent::Message(lv)));
                assert((start + a).push(e) =~= start + a.push(e));
            }
            i = i + 1;
        }
        assert(headers@.take(headers.len() as int) =~= headers@);
        assert(cap_event_views(r.events@) =~= fixture_events(key@, self.fixtures()[key@]));
        Ok(r)
    }
}

/// Registers `fixture` under `key`, replacing an earlier one.
pub fn register_network_fixture(net: &mut NetworkProvider, key: String, fixture: NetworkFixture)
    requires
        old(net).wf(),
    ensures
        final(net).wf(),
        final(net).fixtures() == old(net).fixtures().insert(key@, fixture@),
{
    let ghost before = net.fixtures@;
    let ghost (k, f) = (key@, fixture@);
    net.fixtures.insert(key, fixture);
    assert(net.fixtures() =~= before.map_values(|f: NetworkFixture| f@).insert(k, f));
}

/// Forgets every fixture.
pub fn reset_network_fixtures(net: &mut NetworkProvider)
    ensures
        final(net).wf(),
        final(net).fixtures() == Map::<Seq<char>, SpecFixture>::empty(),
{
    net.fixtures.clear();
    assert(net.fixtures() =~= Map::<Seq<char>, SpecFixture>::empty());
}

} // verus!
