use mica::runtime::host::parse_command;
use mica::runtime::host::append_stream_events;
use mica::runtime::ProviderResponse;
use mica::runtime::providers::{
    register_network_fixture, reset_network_fixtures, DeterministicConsoleProvider, DeterministicEnvProvider,
    DeterministicProcessProvider, DeterministicTimeProvider, InMemoryFilesystemProvider, NetworkFixture,
    NetworkProvider, ScriptedProcess,
};
use mica::runtime::scheduler::{BuiltinProvider, Runtime};
use mica::runtime::{CapabilityEvent, RuntimeErrorKind, RuntimeEvent, RuntimeValue, TaskPlan, TaskSpec};

fn spec(name: &str, caps: &[&str]) -> TaskSpec {
    TaskSpec::new(name).with_capabilities(&caps.iter().map(|c| c.to_string()).collect())
}

fn text(v: &str) -> Option<RuntimeValue> {
    Some(RuntimeValue::string(v))
}

fn shims() -> Runtime<BuiltinProvider> {
    Runtime::with_deterministic_shims().expect("runtime setup")
}

fn data_of(events: &[RuntimeEvent], cap: &str) -> Option<String> {
    events.iter().find_map(|event| match event {
        RuntimeEvent::CapabilityEvent { capability, event: CapabilityEvent::Data(RuntimeValue::String(data)), .. }
            if capability == cap => Some(data.clone()),
        _ => None,
    })
}

#[test]
fn runtime_executes_default_shims() {
    let mut runtime = shims();
    let plan = TaskPlan::new().invoke("io", "write_line", text("hello")).invoke("time", "now_millis", None);
    runtime.spawn(spec("main", &["io", "time"]), plan);
    let events = runtime.run().expect("runtime events");
    assert!(matches!(events[0], RuntimeEvent::TaskStarted { ref task } if task == "main"));
    assert!(matches!(
        events[1],
        RuntimeEvent::CapabilityInvoked { ref task, ref capability, ref operation }
            if task == "main" && capability == "io" && operation == "write_line"
    ));
    assert!(matches!(
        events[2],
        RuntimeEvent::CapabilityEvent { ref task, ref capability, event: CapabilityEvent::Message(ref msg) }
            if task == "main" && capability == "io" && msg == "hello"
    ));
    assert!(matches!(
        events[3],
        RuntimeEvent::CapabilityInvoked { ref task, ref capability, ref operation }
            if task == "main" && capability == "time" && operation == "now_millis"
    ));
    assert!(matches!(
        events[4],
        RuntimeEvent::CapabilityEvent { ref task, ref capability, event: CapabilityEvent::Data(RuntimeValue::Int(0)) }
            if task == "main" && capability == "time"
    ));
    assert!(matches!(events[5], RuntimeEvent::TaskCompleted { ref task } if task == "main"));
    assert_eq!(events.len(), 6);
}

#[test]
fn runtime_enforces_capability_scopes() {
    let mut runtime = shims();
    let plan = TaskPlan::new().invoke("io", "write_line", text("nope"));
    runtime.spawn(spec("main", &["time"]), plan);
    let err = runtime.run().expect_err("expected missing capability error");
    assert!(matches!(
        err.kind(),
        RuntimeErrorKind::MissingCapability { task, capability } if task == "main" && capability == "io"
    ));
}

#[test]
fn runtime_schedules_child_tasks_fifo() {
    let mut runtime = shims();
    let child_plan = TaskPlan::new().invoke("io", "write_line", text("child"));
    let parent_plan = TaskPlan::new()
        .invoke("io", "write_line", text("parent"))
        .spawn(spec("child", &["io"]), child_plan);
    runtime.spawn(spec("parent", &["io"]), parent_plan);
    let events = runtime.run().expect("runtime events");

    let expected_order = vec![
        RuntimeEvent::TaskStarted { task: "parent".into() },
        RuntimeEvent::CapabilityInvoked { task: "parent".into(), capability: "io".into(), operation: "write_line".into() },
        RuntimeEvent::CapabilityEvent {
            task: "parent".into(),
            capability: "io".into(),
            event: CapabilityEvent::Message("parent".into()),
        },
        RuntimeEvent::TaskScheduled { parent: "parent".into(), child: "child".into() },
        RuntimeEvent::TaskCompleted { task: "parent".into() },
        RuntimeEvent::TaskStarted { task: "child".into() },
        RuntimeEvent::CapabilityInvoked { task: "child".into(), capability: "io".into(), operation: "write_line".into() },
        RuntimeEvent::CapabilityEvent {
            task: "child".into(),
            capability: "io".into(),
            event: CapabilityEvent::Message("child".into()),
        },
        RuntimeEvent::TaskCompleted { task: "child".into() },
    ];
    assert_eq!(events, expected_order);
}

#[test]
fn runtime_validates_registered_capabilities() {
    let runtime = shims();
    runtime.ensure_capabilities(&spec("main", &["io", "process"])).expect("io capability available");
    let err = runtime.ensure_capabilities(&spec("main", &["db"])).expect_err("expected missing capability error");
    assert!(matches!(err.kind(), RuntimeErrorKind::UnknownCapability { name } if name == "db"));
}

#[test]
fn deterministic_process_provider_replays_scripted_commands() {
    let mut process = DeterministicProcessProvider::new();
    process.script(ScriptedProcess::new("scripted-task").with_stdout_line("ok"));
    let mut runtime: Runtime<BuiltinProvider> = Runtime::new();
    runtime.register_provider(BuiltinProvider::Process(process)).expect("register");
    let plan = TaskPlan::new().invoke("process", "spawn", text("scripted-task"));
    runtime.spawn(spec("main", &["process"]), plan);
    let events = runtime.run().expect("runtime events");

    assert!(events.iter().any(|event| match event {
        RuntimeEvent::CapabilityEvent { capability, event: CapabilityEvent::Message(message), .. } =>
            capability == "process" && message.contains("stdout: ok"),
        _ => false,
    }));
    let completed = match runtime.provider("process") {
        Some(BuiltinProvider::Process(p)) => p.completed(),
        _ => panic!("process provider registered"),
    };
    assert_eq!(completed.len(), 1);
    assert_eq!(completed[0].command, "scripted-task");
    assert_eq!(completed[0].exit_code, 0);
    assert_eq!(completed[0].stdout, vec!["ok".to_string()]);
}

#[test]
fn runtime_produces_structured_telemetry() {
    let mut runtime = shims();
    runtime.spawn(spec("main", &["io"]), TaskPlan::new().invoke("io", "write_line", text("hello")));
    let trace = runtime.run_with_telemetry().expect("runtime telemetry trace");

    let events = trace.events();
    assert_eq!(events.len(), 4, "expected task lifecycle events");
    let telemetry = trace.telemetry();
    assert_eq!(telemetry.len(), events.len());
    for (index, (event, entry)) in events.iter().zip(telemetry.iter()).enumerate() {
        assert_eq!(entry.sequence, index);
        assert_eq!(&entry.event, event);
        assert!(entry.timestamp_micros.is_some(), "telemetry entry should include a timestamp");
    }
    assert!(telemetry.windows(2).all(|pair| pair[0].sequence + 1 == pair[1].sequence));

    let tasks = trace.tasks();
    assert_eq!(tasks.len(), 1, "expected exactly one task metric entry");
    let metrics = &tasks[0];
    assert_eq!(metrics.task, "main");
    assert!(metrics.event_count >= events.len());
    assert!(metrics.start_timestamp_micros.is_some());
    assert_eq!(metrics.capability_counts.get("io"), Some(&1));
    assert_eq!(metrics.operation_counts.get("io::write_line"), Some(&1));
    assert!(metrics.capability_durations_micros.get("io").is_some());
    assert!(metrics.operation_durations_micros.get("io::write_line").is_some());
}

#[test]
fn runtime_filesystem_provider_reads_files() {
    let mut fs = InMemoryFilesystemProvider::new();
    fs.write_file("fixture.txt".to_string(), "filesystem contents".to_string());
    let mut runtime: Runtime<BuiltinProvider> = Runtime::new();
    runtime.register_provider(BuiltinProvider::Filesystem(fs)).expect("register");
    runtime.spawn(spec("reader", &["fs"]), TaskPlan::new().invoke("fs", "read_to_string", text("fixture.txt")));
    let events = runtime.run().expect("runtime events");
    assert_eq!(data_of(&events, "fs").as_deref(), Some("filesystem contents"));
}

#[test]
fn runtime_filesystem_provider_writes_files() {
    let mut runtime = shims();
    let plan = TaskPlan::new()
        .invoke("fs", "write_string", text("out.txt=runtime data"))
        .invoke("fs", "read_to_string", text("out.txt"));
    runtime.spawn(spec("writer", &["fs"]), plan);
    let events = runtime.run().expect("runtime events");
    assert_eq!(data_of(&events, "fs").as_deref(), Some("runtime data"));
    match runtime.provider("fs") {
        Some(BuiltinProvider::Filesystem(f)) => assert_eq!(f.read_file("out.txt"), Some("runtime data".to_string())),
        _ => panic!("fs provider registered"),
    }
}

#[test]
fn runtime_environment_provider_round_trips_values() {
    let mut runtime = shims();
    let plan = TaskPlan::new()
        .invoke("env", "set", text("MICA_RUNTIME_ENV=runtime"))
        .invoke("env", "get", text("MICA_RUNTIME_ENV"))
        .invoke("env", "unset", text("MICA_RUNTIME_ENV"));
    runtime.spawn(spec("env", &["env"]), plan);
    let events = runtime.run().expect("runtime events");
    assert_eq!(data_of(&events, "env").as_deref(), Some("runtime"));
    match runtime.provider("env") {
        Some(BuiltinProvider::Env(e)) => assert_eq!(e.get("MICA_RUNTIME_ENV"), None),
        _ => panic!("env provider registered"),
    }
}

#[test]
fn runtime_trace_reports_task_metrics_for_children() {
    let mut runtime = shims();
    let child_plan = TaskPlan::new().invoke("io", "write_line", text("child"));
    let parent_plan = TaskPlan::new()
        .invoke("io", "write_line", text("parent"))
        .spawn(spec("child", &["io"]), child_plan);
    runtime.spawn(spec("parent", &["io"]), parent_plan);
    let trace = runtime.run_with_telemetry().expect("runtime telemetry trace");

    let tasks = trace.tasks();
    assert_eq!(tasks.len(), 2, "expected metrics for parent and child tasks");
    let parent = tasks.iter().find(|m| m.task == "parent").expect("missing parent metrics");
    assert_eq!(parent.spawned_tasks, 1);
    assert_eq!(parent.capability_counts.get("io"), Some(&1));
    let child = tasks.iter().find(|m| m.task == "child").expect("missing child metrics");
    assert_eq!(child.spawned_tasks, 0);
    assert_eq!(child.capability_counts.get("io"), Some(&1));
}

#[test]
fn runtime_trace_serializes_to_json() {
    let mut runtime = shims();
    runtime.spawn(spec("main", &["io"]), TaskPlan::new().invoke("io", "write_line", text("hello")));
    let json = runtime.run_with_trace_json().expect("runtime should serialize trace");

    assert!(json.trim_start().starts_with('{'));
    assert!(json.trim_end().ends_with('}'));
    assert!(json.contains("\"events\""));
    assert!(json.contains("\"telemetry\""));
    assert!(json.contains("\"tasks\""));
    assert!(json.contains("\"summary\""));
    assert!(json.contains("\"task\":\"main\""));
    assert!(json.contains("\"type\":\"task_started\""));
    assert!(json.contains("\"capability_counts\":{\"io\":1"));
    assert!(json.contains("\"operation_counts\""));
    assert!(json.contains("\"capability_durations_micros\""));
    assert!(json.contains("\"operation_durations_micros\""));
    assert!(json.contains("\"total_events\""));
}

#[test]
fn runtime_trace_summary_accumulates_metrics() {
    let mut runtime = shims();
    let child_plan = TaskPlan::new().invoke("io", "write_line", text("child"));
    let parent_plan = TaskPlan::new()
        .invoke("io", "write_line", text("parent"))
        .spawn(spec("child", &["io"]), child_plan);
    runtime.spawn(spec("parent", &["io"]), parent_plan);
    let trace = runtime.run_with_telemetry().expect("runtime telemetry trace");

    let summary = trace.summary();
    assert_eq!(summary.total_tasks, 2);
    assert_eq!(summary.total_events, trace.events().len());
    assert_eq!(summary.spawned_tasks, 1);
    assert_eq!(summary.capability_counts.get("io"), Some(&2));
    assert_eq!(summary.operation_counts.get("io::write_line"), Some(&2));
    assert!(summary.capability_durations_micros.get("io").is_some());
    assert!(summary.operation_durations_micros.get("io::write_line").is_some());
}

#[test]
fn runtime_deterministic_shims_capture_state() {
    let console = DeterministicConsoleProvider::with_inputs(vec!["scripted input".to_string()]);
    let mut time = DeterministicTimeProvider::monotonic(0, 1);
    time.push_time(42);
    let mut runtime: Runtime<BuiltinProvider> = Runtime::new();
    runtime.register_provider(BuiltinProvider::ScriptedConsole(console)).expect("io");
    runtime.register_provider(BuiltinProvider::Time(time)).expect("time");
    runtime.register_provider(BuiltinProvider::Filesystem(InMemoryFilesystemProvider::new())).expect("fs");
    runtime.register_provider(BuiltinProvider::Env(DeterministicEnvProvider::new())).expect("env");

    let plan = TaskPlan::new()
        .invoke("io", "write_line", text("hi"))
        .invoke("io", "read_line", None)
        .invoke("fs", "write_string", text("deterministic.txt=payload"))
        .invoke("fs", "read_to_string", text("deterministic.txt"))
        .invoke("env", "set", text("TEMP=deterministic"))
        .invoke("env", "get", text("TEMP"))
        .invoke("time", "now_millis", None)
        .invoke("time", "now_millis", None);
    runtime.spawn(spec("main", &["io", "fs", "env", "time"]), plan);
    let events = runtime.run().expect("runtime events");

    match runtime.provider("io") {
        Some(BuiltinProvider::ScriptedConsole(c)) => assert_eq!(c.writes(), vec!["hi".to_string()]),
        _ => panic!("io provider"),
    }
    match runtime.provider("fs") {
        Some(BuiltinProvider::Filesystem(f)) => assert_eq!(f.read_file("deterministic.txt"), Some("payload".to_string())),
        _ => panic!("fs provider"),
    }
    match runtime.provider("env") {
        Some(BuiltinProvider::Env(e)) => assert_eq!(e.get("TEMP"), Some("deterministic".to_string())),
        _ => panic!("env provider"),
    }
    match runtime.provider("time") {
        Some(BuiltinProvider::Time(t)) => assert_eq!(t.last_emitted(), Some(43)),
        _ => panic!("time provider"),
    }

    let mut seen_time_values = Vec::new();
    let mut seen_input = false;
    for event in events {
        if let RuntimeEvent::CapabilityEvent { capability, event, .. } = event {
            match (capability.as_str(), event) {
                ("time", CapabilityEvent::Data(RuntimeValue::Int(value))) => seen_time_values.push(value),
                ("io", CapabilityEvent::Data(RuntimeValue::String(value))) => {
                    if value == "scripted input" {
                        seen_input = true;
                    }
                }
                _ => {}
            }
        }
    }
    assert_eq!(seen_time_values, vec![42, 43]);
    assert!(seen_input, "expected scripted input to be surfaced");
}

#[test]
fn runtime_network_provider_serves_registered_fixtures() {
    let mut net = NetworkProvider::new();
    reset_network_fixtures(&mut net);
    register_network_fixture(
        &mut net,
        "example".to_string(),
        NetworkFixture::new(200, "payload").with_header("content-type", "text/plain"),
    );
    let mut runtime: Runtime<BuiltinProvider> = Runtime::new();
    runtime.register_provider(BuiltinProvider::Network(net)).expect("net");
    runtime.spawn(spec("net", &["net"]), TaskPlan::new().invoke("net", "fetch", text("example")));
    let events = runtime.run().expect("runtime events");

    assert!(events.iter().any(|event| matches!(
        event,
        RuntimeEvent::CapabilityEvent { capability, event: CapabilityEvent::Data(RuntimeValue::Int(status)), .. }
            if capability == "net" && *status == 200
    )));
    assert!(events.iter().any(|event| matches!(
        event,
        RuntimeEvent::CapabilityEvent { capability, event: CapabilityEvent::Message(message), .. }
            if capability == "net" && message.contains("content-type: text/plain")
    )));
}

#[test]
fn runtime_network_provider_reports_missing_fixtures() {
    let mut runtime = shims();
    runtime.spawn(spec("net", &["net"]), TaskPlan::new().invoke("net", "fetch", text("missing")));
    let err = runtime.run().expect_err("expected missing fixture error");
    assert!(matches!(err.kind(), RuntimeErrorKind::ProviderFailure { capability, .. } if capability == "net"));
}

#[test]
fn duplicate_providers_are_refused() {
    let mut runtime: Runtime<BuiltinProvider> = Runtime::new();
    runtime.register_provider(BuiltinProvider::Env(DeterministicEnvProvider::new())).expect("env");
    let err = runtime
        .register_provider(BuiltinProvider::Env(DeterministicEnvProvider::new()))
        .expect_err("second env provider");
    assert!(matches!(err.kind(), RuntimeErrorKind::DuplicateProvider { name } if name == "env"));
}

#[test]
fn unknown_operations_fail_the_run() {
    let mut runtime = shims();
    runtime.spawn(spec("main", &["time"]), TaskPlan::new().invoke("time", "rewind", None));
    let err = runtime.run().expect_err("unsupported operation");
    assert!(matches!(err.kind(), RuntimeErrorKind::ProviderFailure { capability, .. } if capability == "time"));
}

#[test]
fn task_spec_capabilities_keep_first_declaration_order() {
    let t = spec("m", &["io", "time", "io"]);
    assert_eq!(t.capabilities(), &vec!["io".to_string(), "time".to_string()]);
    assert!(TaskSpec::new("m").capabilities().is_empty());
}

#[test]
fn parse_command_splits_words_quotes_and_escapes() {
    let words = parse_command(&text("echo 'hello world' a\\ b \"it's\"")).expect("words");
    assert_eq!(words, vec!["echo".to_string(), "hello world".to_string(), "a b".to_string(), "it's".to_string()]);
    let err = parse_command(&text("echo 'open")).unwrap_err();
    assert!(matches!(err.kind(), RuntimeErrorKind::ProviderFailure { message, .. } if message == "unterminated quote in process payload"));
    let err = parse_command(&text("   ")).unwrap_err();
    assert!(matches!(err.kind(), RuntimeErrorKind::ProviderFailure { message, .. } if message == "spawn requires a command to execute"));
    let err = parse_command(&Some(RuntimeValue::Int(1))).unwrap_err();
    assert!(matches!(err.kind(), RuntimeErrorKind::ProviderFailure { message, .. } if message == "spawn expects a string payload"));
}

#[test]
fn stream_events_keep_non_empty_lines_in_order() {
    let r = append_stream_events(ProviderResponse::new(RuntimeValue::Int(0)), "ok\n\nsecond\n", "warn\n");
    let msgs: Vec<String> = r
        .events
        .iter()
        .map(|e| match e {
            CapabilityEvent::Message(m) => m.clone(),
            _ => panic!("expected message"),
        })
        .collect();
    assert_eq!(msgs, vec!["stdout: ok".to_string(), "stdout: second".to_string(), "stderr: warn".to_string()]);
}
