use mica::cli::{
    bool_string, build_trace_json, entry_task_spec, json_array, json_escape, json_object,
    json_object_pairs, json_string, json_string_array,
};
use mica::semantics::resolve::{CapabilityBinding, CapabilityScope, Resolved};
use mica::syntax::ast::{Block, Function, Item, Module};

fn main_fn(effects: Vec<String>) -> Item {
    Item::Function(Function {
        is_public: false,
        name: "main".to_string(),
        generics: Vec::new(),
        params: Vec::new(),
        return_type: None,
        effect_row: effects,
        body: Block { statements: Vec::new() },
    })
}

#[test]
fn entry_task_spec_collects_main_capabilities() {
    let module = Module { name: vec!["demo".to_string()], items: vec![main_fn(vec!["io".to_string()])] };

    let mut resolved = Resolved::default();
    resolved.module = vec!["demo".to_string()];
    resolved.capabilities.push(CapabilityBinding {
        name: "io".to_string(),
        scope: CapabilityScope::Function { module: vec!["demo".to_string()], function: "main".to_string() },
    });

    let spec = entry_task_spec(&module, &resolved).expect("entry spec");
    assert_eq!(spec.name(), "demo::main");
    assert_eq!(spec.capabilities(), &vec![String::from("io")]);
}

#[test]
fn entry_task_spec_ignores_modules_without_main() {
    let module = Module { name: vec!["demo".to_string()], items: Vec::new() };
    let resolved = Resolved::default();
    assert!(entry_task_spec(&module, &resolved).is_none());
}

#[test]
fn entry_task_spec_skips_other_scopes_and_repeats() {
    let module = Module { name: Vec::new(), items: vec![main_fn(Vec::new())] };
    let mut resolved = Resolved::default();
    for (name, function) in [("io", "main"), ("net", "helper"), ("io", "main"), ("time", "main")] {
        resolved.capabilities.push(CapabilityBinding {
            name: name.to_string(),
            scope: CapabilityScope::Function { module: Vec::new(), function: function.to_string() },
        });
    }
    resolved.capabilities.push(CapabilityBinding {
        name: "fs".to_string(),
        scope: CapabilityScope::TypeAlias { module: Vec::new(), alias_name: "main".to_string() },
    });
    let spec = entry_task_spec(&module, &resolved).expect("entry spec");
    assert_eq!(spec.name(), "main");
    assert_eq!(spec.capabilities(), &vec!["io".to_string(), "time".to_string()]);
}

#[test]
fn build_trace_json_captures_stdout_lines() {
    let json = build_trace_json("demo::main", "first\nsecond\n", "");

    assert!(json.contains("\"task\":\"demo::main\""));
    assert!(json.contains("\"value\":\"first\""));
    assert!(json.contains("\"value\":\"second\""));
    assert!(json.contains("\"capability_counts\":{\"io\":2}"));
    assert!(json.contains("\"operation_counts\":{\"io::write_line\":2}"));
    assert!(json.contains("\"event_count\":6"));
}

#[test]
fn build_trace_json_annotations_include_stderr_messages() {
    let json = build_trace_json("demo::main", "", "failure\n");

    assert!(json.contains("stderr: failure"));
    assert!(json.contains("\"capability_counts\":{}"));
    assert!(json.contains("\"operation_counts\":{}"));
    assert!(json.contains("\"event_count\":3"));
}

#[test]
fn build_trace_json_exact_shape_and_blank_lines() {
    let json = build_trace_json("t", "a\n\n", "");
    assert_eq!(
        json,
        [
            "{\"events\":[",
            "{\"type\":\"task_started\",\"task\":\"t\"},",
            "{\"type\":\"capability_invoked\",\"task\":\"t\",\"capability\":\"io\",\"operation\":\"write_line\"},",
            "{\"type\":\"capability_event\",\"task\":\"t\",\"capability\":\"io\",\"event\":{\"type\":\"message\",\"value\":\"a\"}},",
            "{\"type\":\"task_completed\",\"task\":\"t\"}",
            "],\"telemetry\":[",
            "{\"sequence\":0,\"timestamp_micros\":null,\"event\":{\"type\":\"task_started\",\"task\":\"t\"}},",
            "{\"sequence\":1,\"timestamp_micros\":null,\"event\":{\"type\":\"capability_invoked\",\"task\":\"t\",\"capability\":\"io\",\"operation\":\"write_line\"}},",
            "{\"sequence\":2,\"timestamp_micros\":null,\"event\":{\"type\":\"capability_event\",\"task\":\"t\",\"capability\":\"io\",\"event\":{\"type\":\"message\",\"value\":\"a\"}}},",
            "{\"sequence\":3,\"timestamp_micros\":null,\"event\":{\"type\":\"task_completed\",\"task\":\"t\"}}",
            "],\"tasks\":[{\"task\":\"t\",\"start_timestamp_micros\":null,\"duration_micros\":0,\"event_count\":4,",
            "\"capability_counts\":{\"io\":1},\"operation_counts\":{\"io::write_line\":1},",
            "\"capability_durations_micros\":{},\"operation_durations_micros\":{},\"spawned_tasks\":0}],",
            "\"summary\":{\"total_tasks\":1,\"total_events\":4,\"spawned_tasks\":0,",
            "\"capability_counts\":{\"io\":1},\"operation_counts\":{\"io::write_line\":1},",
            "\"capability_durations_micros\":{},\"operation_durations_micros\":{}}}",
        ]
        .join("")
    );
}

#[test]
fn json_helpers_escape_and_compose() {
    assert_eq!(json_escape("a\"b\\c\n\t\u{1}"), "a\\\"b\\\\c\\n\\t\\u0001");
    assert_eq!(json_escape("\u{1f}"), "\\u001f");
    assert_eq!(json_string("x"), "\"x\"");
    assert_eq!(json_array(vec!["1".to_string(), "true".to_string()]), "[1,true]");
    assert_eq!(json_array(Vec::new()), "[]");
    assert_eq!(json_string_array(&vec!["a".to_string(), "b".to_string()]), "[\"a\",\"b\"]");
    assert_eq!(json_object(vec![("k", "1".to_string()), ("q\"", "[]".to_string())]), "{\"k\":1,\"q\\\"\":[]}");
    assert_eq!(json_object_pairs(vec![("a".to_string(), "null".to_string())]), "{\"a\":null}");
    assert_eq!(json_object(Vec::new()), "{}");
    assert_eq!(bool_string(true), "true");
    assert_eq!(bool_string(false), "false");
}
