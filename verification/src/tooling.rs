//! Snapshots of the compilation pipeline: each stage's status and metrics,
//! written as JSON for tools.
use vstd::prelude::*;

use crate::text::{
    bool_text, copy_string, insert_keyed, join, json_escape, lemma_insert_keyed_at,
    lemma_join_push, nat_digits, push_json_escaped, push_nat, push_str, sort_keyed, sort_texts,
    sorted_strings, text_less, text_lt, to_owned_string, views,
};

use crate::diagnostics::error_text;
use crate::ir::lowering::{hir_functions, hir_shape, ir_shape};
use crate::ir::{Function, Module as IrModule};
use crate::lower::{HFunction, copy_strings, hitem_v, lower_items_spec, lower_module, HItem, HItemV, HModule};
use crate::semantics::check::{check_module, check_module_spec, messages};
use crate::semantics::resolve::{module_env, resolve_module};
use crate::semantics::resolve::resolver::{caps_v, imports_spec, imports_v, resolution, CapV};
use crate::semantics::resolve::data::Resolved;
use crate::syntax::ast::Module;
use crate::syntax::lexer::{byte_len, lex, spec_lex, token_views};
use crate::syntax::model::module_v;
use crate::syntax::parser::{parse_module, parse_source};

verus! {

/// How a stage ended.
#[derive(Debug, Clone)]
pub enum StageStatus {
    Success,
    Failed { message: String },
}

/// A metric's value.
#[derive(Debug, Clone)]
pub enum MetricValue {
    Integer(usize),
    Text(String),
    Bool(bool),
    List(Vec<String>),
}

/// A named metric of a stage.
#[derive(Debug, Clone)]
pub struct StageMetric {
    key: String,
    value: MetricValue,
}

/// One stage of the pipeline: its name, how it ended, its metrics.
#[derive(Debug, Clone)]
pub struct PipelineStage {
    name: String,
    status: StageStatus,
    metrics: Vec<StageMetric>,
}

/// The stages a source went through, for the module it declares.
#[derive(Debug, Clone)]
pub struct PipelineSnapshot {
    segments: Vec<String>,
    stages: Vec<PipelineStage>,
}

pub enum SpecMetricValue {
    Integer(usize),
    Text(Seq<char>),
    Bool(bool),
    List(Seq<Seq<char>>),
}

impl View for MetricValue {
    type V = SpecMetricValue;

    open spec fn view(&self) -> SpecMetricValue {
        match self {
            MetricValue::Integer(n) => SpecMetricValue::Integer(*n),
            MetricValue::Text(t) => SpecMetricValue::Text(t@),
            MetricValue::Bool(b) => SpecMetricValue::Bool(*b),
            MetricValue::List(v) => SpecMetricValue::List(views(v@)),
        }
    }
}

impl View for StageMetric {
    type V = (Seq<char>, SpecMetricValue);

    closed spec fn view(&self) -> (Seq<char>, SpecMetricValue) {
        (self.key@, self.value@)
    }
}

/// A JSON string holding `s`.
pub open spec fn quoted(s: Seq<char>) -> Seq<char> {
    "\""@ + json_escape(s) + "\""@
}

/// The JSON of a metric value; a list is written sorted.
pub open spec fn metric_value_json(v: SpecMetricValue) -> Seq<char> {
    match v {
        SpecMetricValue::Integer(n) => nat_digits(n as nat),
        SpecMetricValue::Text(t) => quoted(t),
        SpecMetricValue::Bool(b) => bool_text(b),
        SpecMetricValue::List(items) => "["@ + join(
            sort_texts(items).map_values(|t: Seq<char>| quoted(t)),
            ","@,
        ) + "]"@,
    }
}

pub open spec fn metric_json(m: (Seq<char>, SpecMetricValue)) -> Seq<char> {
    quoted(m.0) + ":"@ + metric_value_json(m.1)
}

/// The JSON object of a stage's metrics, sorted by key (metrics with equal
/// keys in their original order).
pub open spec fn metrics_json(ms: Seq<(Seq<char>, SpecMetricValue)>) -> Seq<char> {
    "{"@ + join(
        sort_keyed(ms).map_values(|m: (Seq<char>, SpecMetricValue)| metric_json(m)),
        ","@,
    ) + "}"@
}

pub open spec fn status_json(s: StageStatus) -> Seq<char> {
    match s {
        StageStatus::Success => "\"status\":\"ok\""@,
        StageStatus::Failed { message } => "\"status\":\"error\",\"message\":"@ + quoted(message@),
    }
}

pub open spec fn metric_views(ms: Seq<StageMetric>) -> Seq<(Seq<char>, SpecMetricValue)> {
    ms.map_values(|m: StageMetric| m@)
}

fn push_quoted(out: &mut String, s: &str)
    ensures
        final(out)@ == old(out)@ + quoted(s@),
{
    push_str(out, "\"");
    push_json_escaped(out, s);
    push_str(out, "\"");
    assert(final(out)@ =~= old(out)@ + quoted(s@));
}

fn push_quoted_list(out: &mut String, items: &Vec<String>)
    ensures
        final(out)@ == old(out)@ + join(views(items@).map_values(|t: Seq<char>| quoted(t)), ","@),
{
    let ghost start = out@;
    let mut i: usize = 0;
    while i < items.len()
        invariant
            i <= items.len(),
            out@ == start + join(views(items@.take(i as int)).map_values(|t: Seq<char>| quoted(t)), ","@),
        decreases items.len() - i,
    {
        if i > 0 {
            push_str(out, ",");
        }
        push_quoted(out, items[i].as_str());
        proof {
            let f = |t: Seq<char>| quoted(t);
            assert(views(items@.take(i + 1)).map_values(f) =~= views(items@.take(i as int)).map_values(f).push(f(items@[i as int]@)));
            lemma_join_push(views(items@.take(i as int)).map_values(f), ","@, f(items@[i as int]@));
        }
        i = i + 1;
    }
    assert(items@.take(items.len() as int) =~= items@);
}

/// The JSON of a metric value.
pub fn metric_value_to_json(v: &MetricValue) -> (s: String)
    ensures
        s@ == metric_value_json(v@),
{
    let mut s = String::new();
    match v {
        MetricValue::Integer(n) => push_nat(&mut s, *n as u64),
        MetricValue::Text(t) => push_quoted(&mut s, t.as_str()),
        MetricValue::Bool(b) => {
            if *b {
                push_str(&mut s, "true");
            } else {
                push_str(&mut s, "false");
            }
        },
        MetricValue::List(items) => {
            let sorted = sorted_strings(items);
            push_str(&mut s, "[");
            push_quoted_list(&mut s, &sorted);
            push_str(&mut s, "]");
        },
    }
    assert(s@ =~= metric_value_json(v@));
    s
}

impl StageMetric {
    pub fn key(&self) -> (k: &str)
        ensures
            k@ == self@.0,
    {
        self.key.as_str()
    }

    pub fn value(&self) -> (v: &MetricValue)
        ensures
            v@ == self@.1,
    {
        &self.value
    }
}

/// The metrics sorted by key, stably.
fn sorted_metrics(ms: &Vec<StageMetric>) -> (out: Vec<&StageMetric>)
    ensures
        out@.map_values(|m: &StageMetric| m@) == sort_keyed(metric_views(ms@)),
{
    let mut out: Vec<&StageMetric> = Vec::new();
    let mut i: usize = 0;
    while i < ms.len()
        invariant
            i <= ms.len(),
            out@.map_values(|m: &StageMetric| m@) == sort_keyed(metric_views(ms@.take(i as int))),
        decreases ms.len() - i,
    {
        let x = &ms[i];
        let mut p: usize = 0;
        while p < out.len() && !text_less(x.key.as_str(), out[p].key.as_str())
            invariant
                p <= out.len(),
                forall|k: int| 0 <= k < p ==> !text_lt(x@.0, out@[k]@.0),
            decreases out.len() - p,
        {
            p = p + 1;
        }
        let ghost before = out@.map_values(|m: &StageMetric| m@);
        proof {
            assert forall|k: int| 0 <= k < p implies !text_lt(x@.0, before[k].0) by {
                assert(before[k] == out@[k]@);
            }
            if p < out.len() {
                assert(before[p as int] == out@[p as int]@);
            }
            lemma_insert_keyed_at(before, x@, p as int);
        }
        out.insert(p, x);
        proof {
            assert(out@.map_values(|m: &StageMetric| m@) =~= before.insert(p as int, x@));
            let t1 = metric_views(ms@.take(i + 1));
            assert(t1.drop_last() =~= metric_views(ms@.take(i as int)));
            assert(t1.last() == x@);
        }
        i = i + 1;
    }
    assert(ms@.take(ms.len() as int) =~= ms@);
    out
}

/// The JSON object of metrics, sorted by key.
pub fn metrics_to_json(ms: &Vec<StageMetric>) -> (s: String)
    ensures
        s@ == metrics_json(metric_views(ms@)),
{
    let sorted = sorted_metrics(ms);
    let ghost sv = sorted@.map_values(|m: &StageMetric| m@);
    let mut s = String::new();
    push_str(&mut s, "{");
    let ghost head = s@;
    let mut i: usize = 0;
    while i < sorted.len()
        invariant
            i <= sorted.len(),
            sv == sorted@.map_values(|m: &StageMetric| m@),
            s@ == head + join(sv.take(i as int).map_values(|m: (Seq<char>, SpecMetricValue)| metric_json(m)), ","@),
        decreases sorted.len() - i,
    {
        if i > 0 {
            push_str(&mut s, ",");
        }
        let ghost mid = s@;
        push_quoted(&mut s, sorted[i].key());
        push_str(&mut s, ":");
        push_str(&mut s, metric_value_to_json(sorted[i].value()).as_str());
        proof {
            let f = |m: (Seq<char>, SpecMetricValue)| metric_json(m);
            assert(sv[i as int] == sorted@[i as int]@);
            assert(s@ =~= mid + f(sv[i as int]));
            assert(sv.take(i + 1).map_values(f) =~= sv.take(i as int).map_values(f).push(f(sv[i as int])));
            lemma_join_push(sv.take(i as int).map_values(f), ","@, f(sv[i as int]));
        }
        i = i + 1;
    }
    assert(sv.take(sv.len() as int) =~= sv);
    push_str(&mut s, "}");
    assert(s@ =~= metrics_json(metric_views(ms@)));
    s
}

/// The JSON object of a stage.
pub open spec fn stage_json(name: Seq<char>, status: StageStatus, metrics: Seq<StageMetric>) -> Seq<char> {
    "{\"name\":"@ + quoted(name) + ","@ + status_json(status) + ",\"metrics\":"@ + metrics_json(
        metric_views(metrics),
    ) + "}"@
}

impl PipelineStage {
    pub closed spec fn name_view(&self) -> Seq<char> {
        self.name@
    }

    pub closed spec fn status_view(&self) -> StageStatus {
        self.status
    }

    pub closed spec fn metric_list(&self) -> Seq<StageMetric> {
        self.metrics@
    }

    /// The stage's name.
    pub fn name(&self) -> (n: &str)
        ensures
            n@ == self.name_view(),
    {
        self.name.as_str()
    }

    /// How the stage ended.
    pub fn status(&self) -> (s: &StageStatus)
        ensures
            *s == self.status_view(),
    {
        &self.status
    }

    /// The stage's metrics, in the order recorded.
    pub fn metrics(&self) -> (m: &Vec<StageMetric>)
        ensures
            m@ == self.metric_list(),
    {
        &self.metrics
    }

    /// A successful stage with no metric.
    pub fn success(name: &str) -> (s: PipelineStage)
        ensures
            s.name_view() == name@,
            s.status_view() == StageStatus::Success,
            s.metric_list() == Seq::<StageMetric>::empty(),
    {
        let s = PipelineStage { name: to_owned_string(name), status: StageStatus::Success, metrics: Vec::new() };
        assert(s.metric_list() =~= Seq::<StageMetric>::empty());
        s
    }

    /// A failed stage with `message` and no metric.
    pub fn failed(name: &str, message: String) -> (s: PipelineStage)
        ensures
            s.name_view() == name@,
            s.status_view() == (StageStatus::Failed { message }),
            s.metric_list() == Seq::<StageMetric>::empty(),
    {
        let s = PipelineStage {
            name: to_owned_string(name),
            status: StageStatus::Failed { message },
            metrics: Vec::new(),
        };
        assert(s.metric_list() =~= Seq::<StageMetric>::empty());
        s
    }

    /// The stage with one more metric.
    pub fn with_metric(self, key: &str, value: MetricValue) -> (s: PipelineStage)
        ensures
            s.name_view() == self.name_view(),
            s.status_view() == self.status_view(),
            metric_views(s.metric_list()) == metric_views(self.metric_list()).push((key@, value@)),
    {
        let mut s = self;
        let ghost before = s.metrics@;
        let ghost vv = value@;
        s.metrics.push(StageMetric { key: to_owned_string(key), value });
        assert(metric_views(s.metrics@) =~= metric_views(before).push((key@, vv)));
        s
    }

    /// The stage as JSON.
    pub fn to_json(&self) -> (j: String)
        ensures
            j@ == stage_json(self.name_view(), self.status_view(), self.metric_list()),
    {
        let mut j = String::new();
        push_str(&mut j, "{\"name\":");
        push_quoted(&mut j, self.name.as_str());
        push_str(&mut j, ",");
        match &self.status {
            StageStatus::Success => push_str(&mut j, "\"status\":\"ok\""),
            StageStatus::Failed { message } => {
                push_str(&mut j, "\"status\":\"error\",\"message\":");
                push_quoted(&mut j, message.as_str());
            },
        }
        push_str(&mut j, ",\"metrics\":");
        push_str(&mut j, metrics_to_json(&self.metrics).as_str());
        push_str(&mut j, "}");
        assert(j@ =~= stage_json(self.name_view(), self.status_view(), self.metric_list()));
        j
    }
}

/// The JSON of a snapshot: its module path and its stages.
pub open spec fn snapshot_json(path: Seq<Seq<char>>, stages: Seq<PipelineStage>) -> Seq<char> {
    "{\"module_path\":["@ + join(path.map_values(|t: Seq<char>| quoted(t)), ","@)
        + "],\"stages\":["@ + join(
        stages.map_values(|s: PipelineStage| stage_json(s.name_view(), s.status_view(), s.metric_list())),
        ","@,
    ) + "]}"@
}

impl PipelineSnapshot {
    pub closed spec fn path_view(&self) -> Seq<Seq<char>> {
        views(self.segments@)
    }

    pub closed spec fn stage_list(&self) -> Seq<PipelineStage> {
        self.stages@
    }

    /// A snapshot of `stages` for the module at `path`.
    pub fn new(path: Vec<String>, stages: Vec<PipelineStage>) -> (s: PipelineSnapshot)
        ensures
            s.path_view() == views(path@),
            s.stage_list() == stages@,
    {
        PipelineSnapshot { segments: path, stages }
    }

    /// The module's path.
    pub fn module_segments(&self) -> (p: &Vec<String>)
        ensures
            views(p@) == self.path_view(),
    {
        &self.segments
    }

    /// The stages, in pipeline order.
    pub fn stages(&self) -> (s: &Vec<PipelineStage>)
        ensures
            s@ == self.stage_list(),
    {
        &self.stages
    }

    /// The snapshot as JSON.
    pub fn to_json_string(&self) -> (j: String)
        ensures
            j@ == snapshot_json(self.path_view(), self.stage_list()),
    {
        let mut j = String::new();
        push_str(&mut j, "{\"module_path\":[");
        push_quoted_list(&mut j, &self.segments);
        push_str(&mut j, "],\"stages\":[");
        let ghost head = j@;
        let mut i: usize = 0;
        while i < self.stages.len()
            invariant
                i <= self.stages.len(),
                j@ == head + join(self.stages@.take(i as int).map_values(|s: PipelineStage| stage_json(s.name_view(), s.status_view(), s.metric_list())), ","@),
            decreases self.stages.len() - i,
        {
            if i > 0 {
                push_str(&mut j, ",");
            }
            push_str(&mut j, self.stages[i].to_json().as_str());
            proof {
                let f = |s: PipelineStage| stage_json(s.name_view(), s.status_view(), s.metric_list());
                assert(self.stages@.take(i + 1).map_values(f) =~= self.stages@.take(i as int).map_values(f).push(f(self.stages@[i as int])));
                lemma_join_push(self.stages@.take(i as int).map_values(f), ","@, f(self.stages@[i as int]));
            }
            i = i + 1;
        }
        assert(self.stages@.take(self.stages.len() as int) =~= self.stages@);
        push_str(&mut j, "]}");
        assert(j@ =~= snapshot_json(self.path_view(), self.stage_list()));
        j
    }
}

/// The number of functions among lowered items.
pub open spec fn count_hfns(items: Seq<HItemV>) -> nat
    decreases items.len(),
{
    if items.len() == 0 {
        0
    } else {
        count_hfns(items.drop_last()) + if items.last() is Function {
            1nat
        } else {
            0nat
        }
    }
}

proof fn lemma_hir_functions_count(items: Seq<HItem>)
    ensures
        hir_functions(items).len() == count_hfns(items.map_values(|i: HItem| hitem_v(i))),
    decreases items.len(),
{
    if items.len() > 0 {
        lemma_hir_functions_count(items.drop_last());
        assert(items.map_values(|i: HItem| hitem_v(i)).drop_last() =~= items.drop_last().map_values(
            |i: HItem| hitem_v(i),
        ));
    }
}

/// A stage with the given name and outcome whose metrics are `ms`.
pub open spec fn stage_is(st: PipelineStage, name: Seq<char>, ms: Seq<(Seq<char>, SpecMetricValue)>) -> bool {
    &&& st.name_view() == name
    &&& st.status_view() is Success
    &&& metric_views(st.metric_list()) == ms
}

/// A failed stage called `name` whose message is `message`.
pub open spec fn stage_failed(st: PipelineStage, name: Seq<char>, message: Seq<char>) -> bool {
    &&& st.name_view() == name
    &&& st.status_view() matches StageStatus::Failed { message: m } && m@ == message
    &&& st.metric_list().len() == 0
}

/// What a snapshot of a source that lexes to `toks` and parses to the
/// module `m` holds: six successful stages with their metrics. The lowered
/// program's block and effect counts are recorded but not stated here.
pub open spec fn full_snapshot(stages: Seq<PipelineStage>, toks: nat, m: Module) -> bool {
    let lowered = lower_items_spec(m.items@);
    let n_tokens = SpecMetricValue::Integer(toks as usize);
    &&& stages.len() == 6
    &&& stage_is(stages[0], "lexer"@, seq![("tokens"@, n_tokens)])
    &&& stage_is(
        stages[1],
        "parser"@,
        seq![("items"@, SpecMetricValue::Integer(m.items@.len() as usize)), ("tokens"@, n_tokens)],
    )
    &&& stage_is(
        stages[2],
        "resolve"@,
        seq![
            ("imports"@, SpecMetricValue::Integer(imports_spec(m.items@).len() as usize)),
            ("capabilities"@, SpecMetricValue::List(sort_texts(capability_names_spec(m)))),
            ("diagnostics"@, SpecMetricValue::Integer(0)),
        ],
    )
    &&& stage_is(
        stages[3],
        "check"@,
        seq![
            ("diagnostics"@, SpecMetricValue::Integer(check_module_spec(m).len() as usize)),
            ("ok"@, SpecMetricValue::Bool(check_module_spec(m).len() == 0)),
        ],
    )
    &&& stage_is(
        stages[4],
        "lower"@,
        seq![
            ("functions"@, SpecMetricValue::Integer(count_hfns(lowered) as usize)),
            ("items"@, SpecMetricValue::Integer(lowered.len() as usize)),
        ],
    )
    &&& stages[5].name_view() == "ir"@
    &&& stages[5].status_view() is Success
    &&& metric_views(stages[5].metric_list()).len() == 3
    &&& metric_views(stages[5].metric_list())[0] == ("functions"@, SpecMetricValue::Integer(
        count_hfns(lowered) as usize,
    ))
    &&& metric_views(stages[5].metric_list())[1].0 == "blocks"@
    &&& metric_views(stages[5].metric_list())[2].0 == "effects"@
}

/// The names of the capabilities a module's items bind, in the order bound.
pub open spec fn capability_names_spec(m: Module) -> Seq<Seq<char>> {
    resolution(module_env(m), m.items@).caps.map_values(|c: CapV| c.name)
}

fn capability_names(r: &Resolved) -> (names: Vec<String>)
    ensures
        views(names@) == caps_v(r.capabilities@).map_values(|c: CapV| c.name),
{
    let mut names: Vec<String> = Vec::new();
    let mut i: usize = 0;
    while i < r.capabilities.len()
        invariant
            i <= r.capabilities.len(),
            views(names@) == caps_v(r.capabilities@.take(i as int)).map_values(|c: CapV| c.name),
        decreases r.capabilities.len() - i,
    {
        let ghost n0 = names@;
        names.push(copy_string(&r.capabilities[i].name));
        assert(views(names@) =~= views(n0).push(r.capabilities@[i as int].name@));
        assert(r.capabilities@.take(i + 1) =~= r.capabilities@.take(i as int).push(r.capabilities@[i as int]));
        assert(caps_v(r.capabilities@.take(i + 1)).map_values(|c: CapV| c.name) =~= caps_v(
            r.capabilities@.take(i as int),
        ).map_values(|c: CapV| c.name).push(r.capabilities@[i as int].name@));
        i = i + 1;
    }
    assert(r.capabilities@.take(r.capabilities.len() as int) =~= r.capabilities@);
    names
}

fn count_functions(h: &HModule) -> (n: usize)
    ensures
        n == count_hfns(h.view_of().items),
{
    let mut n: usize = 0;
    let mut i: usize = 0;
    while i < h.items.len()
        invariant
            i <= h.items.len(),
            n == count_hfns(h.items@.take(i as int).map_values(|x: HItem| hitem_v(x))),
            n <= i,
        decreases h.items.len() - i,
    {
        proof {
            assert(h.items@.take(i + 1).map_values(|x: HItem| hitem_v(x)).drop_last() =~= h.items@.take(
                i as int,
            ).map_values(|x: HItem| hitem_v(x)));
        }
        match &h.items[i] {
            HItem::Function(_) => {
                n = n + 1;
            },
            HItem::TypeAlias(_) => {},
        }
        i = i + 1;
    }
    assert(h.items@.take(h.items.len() as int) =~= h.items@);
    n
}

fn count_blocks(m: &IrModule) -> (n: usize) {
    let mut n: usize = 0;
    let mut i: usize = 0;
    while i < m.functions.len()
        invariant
            i <= m.functions.len(),
        decreases m.functions.len() - i,
    {
        n = n.saturating_add(m.functions[i].blocks.len());
        i = i + 1;
    }
    n
}

impl PipelineSnapshot {
    /// Runs the pipeline on `source` and records each stage: the lexer and
    /// parser (a failure there ends the snapshot with that stage failed and
    /// no module path), then resolution, checking, lowering and IR lowering
    /// with their metrics.
    pub fn capture(source: &str) -> (s: PipelineSnapshot)
        requires
            byte_len(source@) <= usize::MAX,
        ensures
            match spec_lex(source@) {
                Err(e) => s.path_view().len() == 0 && s.stage_list().len() == 1 && stage_failed(
                    s.stage_list()[0],
                    "lexer"@,
                    error_text(e),
                ),
                Ok(toks) => match parse_source(source@) {
                    Err(e) => s.path_view().len() == 0 && s.stage_list().len() == 2 && stage_is(
                        s.stage_list()[0],
                        "lexer"@,
                        seq![("tokens"@, SpecMetricValue::Integer(toks.len() as usize))],
                    ) && stage_failed(s.stage_list()[1], "parser"@, error_text(e)),
                    Ok(mv) => s.path_view() == mv.name && exists|m: Module|
                        module_v(m) == mv && #[trigger] full_snapshot(s.stage_list(), toks.len(), m),
                },
            },
    {
        let mut stages: Vec<PipelineStage> = Vec::new();
        let tokens = match lex(source) {
            Ok(t) => t,
            Err(err) => {
                stages.push(PipelineStage::failed("lexer", err.to_display_string()));
                return PipelineSnapshot::new(Vec::new(), stages);
            },
        };
        let n_tokens = tokens.len();
        proof {
            assert(token_views(tokens@).len() == tokens@.len());
        }
        let module = match parse_module(source) {
            Ok(m) => m,
            Err(err) => {
                let lexer = PipelineStage::success("lexer").with_metric("tokens", MetricValue::Integer(n_tokens));
                assert(metric_views(lexer.metric_list()) =~= seq![("tokens"@, SpecMetricValue::Integer(n_tokens))]);
                stages.push(lexer);
                stages.push(PipelineStage::failed("parser", err.to_display_string()));
                let s = PipelineSnapshot::new(Vec::new(), stages);
                assert(s.path_view() =~= Seq::<Seq<char>>::empty());
                return s;
            },
        };
        let lexer = PipelineStage::success("lexer").with_metric("tokens", MetricValue::Integer(n_tokens));
        assert(metric_views(lexer.metric_list()) =~= seq![("tokens"@, SpecMetricValue::Integer(n_tokens))]);
        stages.push(lexer);
        let path = copy_strings(&module.name);
        let parser = PipelineStage::success("parser").with_metric(
            "items",
            MetricValue::Integer(module.items.len()),
        ).with_metric("tokens", MetricValue::Integer(n_tokens));
        assert(metric_views(parser.metric_list()) =~= seq![
            ("items"@, SpecMetricValue::Integer(module.items@.len() as usize)),
            ("tokens"@, SpecMetricValue::Integer(n_tokens)),
        ]);
        stages.push(parser);
        let resolved = resolve_module(&module);
        let caps = sorted_strings(&capability_names(&resolved));
        proof {
            assert(imports_v(resolved.imports@).len() == resolved.imports@.len());
        }
        let resolve = PipelineStage::success("resolve").with_metric(
            "imports",
            MetricValue::Integer(resolved.imports.len()),
        ).with_metric("capabilities", MetricValue::List(caps)).with_metric(
            "diagnostics",
            MetricValue::Integer(0),
        );
        assert(metric_views(resolve.metric_list()) =~= seq![
            ("imports"@, SpecMetricValue::Integer(imports_spec(module.items@).len() as usize)),
            ("capabilities"@, SpecMetricValue::List(sort_texts(capability_names_spec(module)))),
            ("diagnostics"@, SpecMetricValue::Integer(0)),
        ]);
        stages.push(resolve);
        let checked = check_module(&module);
        let n_diags = checked.diagnostics.len();
        proof {
            assert(checked.diagnostics@.len() == messages(checked.diagnostics@).len());
        }
        let check = PipelineStage::success("check").with_metric(
            "diagnostics",
            MetricValue::Integer(n_diags),
        ).with_metric("ok", MetricValue::Bool(n_diags == 0));
        assert(metric_views(check.metric_list()) =~= seq![
            ("diagnostics"@, SpecMetricValue::Integer(check_module_spec(module).len() as usize)),
            ("ok"@, SpecMetricValue::Bool(check_module_spec(module).len() == 0)),
        ]);
        stages.push(check);
        let lowered = lower_module(&module);
        let n_fns = count_functions(&lowered);
        let lower = PipelineStage::success("lower").with_metric(
            "functions",
            MetricValue::Integer(n_fns),
        ).with_metric("items", MetricValue::Integer(lowered.items.len()));
        proof {
            assert(lowered.view_of().items.len() == lowered.items@.len());
        }
        assert(metric_views(lower.metric_list()) =~= seq![
            ("functions"@, SpecMetricValue::Integer(count_hfns(lower_items_spec(module.items@)) as usize)),
            ("items"@, SpecMetricValue::Integer(lower_items_spec(module.items@).len() as usize)),
        ]);
        stages.push(lower);
        let ir = crate::ir::lowering::lower_module(&lowered);
        proof {
            lemma_hir_functions_count(lowered.items@);
            assert(ir.functions@.len() == ir.functions@.map_values(|f: Function| ir_shape(f)).len());
        }
        let n_blocks = count_blocks(&ir);
        let ir_stage = PipelineStage::success("ir").with_metric(
            "functions",
            MetricValue::Integer(ir.functions.len()),
        ).with_metric("blocks", MetricValue::Integer(n_blocks)).with_metric(
            "effects",
            MetricValue::Integer(ir.effects.len()),
        );
        proof {
            assert(hir_functions(lowered.items@).map_values(|f: HFunction| hir_shape(f)).len()
                == hir_functions(lowered.items@).len());
            assert(lowered.items@.map_values(|i: HItem| hitem_v(i)) == lowered.view_of().items);
        }
        assert(metric_views(ir_stage.metric_list())[0] == ("functions"@, SpecMetricValue::Integer(
            count_hfns(lower_items_spec(module.items@)) as usize,
        )));
        stages.push(ir_stage);
        let s = PipelineSnapshot::new(path, stages);
        proof {
            assert(views(module.name@) =~= module_v(module).name);
            assert(full_snapshot(s.stage_list(), token_views(tokens@).len(), module));
        }
        s
    }
}

} // verus!
