use mica::tooling::MetricValue;
use mica::ir::analysis::analyze_function_purity;
use mica::ir::lowering::lower_module as lower_to_ir;
use mica::ir::{InstKind, Module as IrModule, Terminator, Type};
use mica::lower::{hir_to_string, lower_module, HExpr, HFuncRef, HItem, HStmt};
use mica::syntax::ast::{BinaryOp, Literal, Module};
use mica::syntax::parser::parse_module;
use mica::tooling::{PipelineSnapshot, StageStatus};

fn parse(src: &str) -> Module {
    parse_module(src).expect("parse ok")
}

fn to_ir(src: &str) -> IrModule {
    let module = parse(src);
    let hir = lower_module(&module);
    lower_to_ir(&hir)
}

#[test]
fn lower_simple_function_into_ir() {
    let src = r#"
module demo

fn add(x: Int, y: Int) -> Int {
  let sum = x + y
  return sum
}
"#;

    let ir_module = to_ir(src);

    assert_eq!(ir_module.name, vec!["demo".to_string()]);
    assert_eq!(ir_module.functions.len(), 1);

    let func = &ir_module.functions[0];
    assert_eq!(func.name, "add");
    assert_eq!(func.params.len(), 2);
    assert!(func.effect_row.is_empty());
    assert_eq!(ir_module.type_of(func.params[0].ty), &Type::Int);
    assert_eq!(ir_module.type_of(func.params[1].ty), &Type::Int);
    assert_eq!(func.blocks.len(), 1);

    let block = &func.blocks[0];
    assert_eq!(block.instructions.len(), 1);
    match &block.instructions[0].kind {
        InstKind::Binary { op, .. } => assert_eq!(*op, BinaryOp::Add),
        other => panic!("expected binary instruction, got {other:?}"),
    }
    match &block.terminator {
        Terminator::Return(Some(ret)) => {
            assert_eq!(*ret, block.instructions[0].id);
        }
        other => panic!("expected return terminator, got {other:?}"),
    }
}

#[test]
fn lowering_literal_return_tracks_type_information() {
    let src = r#"
module demo

fn forty_two() -> Int {
  return 42
}
"#;

    let ir_module = to_ir(src);

    let func = ir_module.functions.iter().find(|f| f.name == "forty_two").expect("function");
    assert_eq!(ir_module.type_of(func.ret_type), &Type::Int);

    let block = &func.blocks[0];
    assert_eq!(block.instructions.len(), 1);
    assert_eq!(ir_module.type_of(block.instructions[0].ty), &Type::Int);
    match &block.instructions[0].kind {
        InstKind::Literal(Literal::Int(value)) => assert_eq!(*value, 42),
        other => panic!("expected int literal, got {other:?}"),
    }
    match &block.terminator {
        Terminator::Return(Some(ret)) => {
            assert_eq!(*ret, block.instructions[0].id);
        }
        other => panic!("expected return terminator, got {other:?}"),
    }
}

#[test]
fn lowering_preserves_effect_rows_and_declared_types() {
    let src = r#"
module demo

type Data = { value: Int }

fn process(count: Int, data: Data) -> Unit !{io} {
  let _tmp = data
  return ()
}
"#;

    let ir_module = to_ir(src);

    let func = ir_module.functions.iter().find(|f| f.name == "process").expect("function");

    let effect_names: Vec<_> =
        func.effect_row.iter().map(|id| ir_module.effect_name(*id).to_string()).collect();
    assert_eq!(effect_names, vec!["io".to_string()]);
    assert_eq!(func.params.len(), 2);
    assert_eq!(ir_module.type_of(func.params[0].ty), &Type::Int);
    match ir_module.type_of(func.params[1].ty) {
        Type::Record(record) => {
            assert_eq!(record.name.as_deref(), Some("Data"));
            assert_eq!(record.fields.len(), 1);
            assert_eq!(record.fields[0].name, "value");
        }
        other => panic!("expected record type for Data param, got {other:?}"),
    }
    assert_eq!(ir_module.type_of(func.ret_type), &Type::Unit);

    let entry_block = func.blocks.iter().find(|block| block.id.index() == 0).expect("entry block");
    match &entry_block.terminator {
        Terminator::Return(Some(value)) => {
            let ret_inst = entry_block
                .instructions
                .iter()
                .find(|inst| inst.id == *value)
                .expect("return instruction");
            assert_eq!(ir_module.type_of(ret_inst.ty), &Type::Unit);
        }
        Terminator::Return(None) => panic!("expected explicit unit return"),
        other => panic!("unexpected terminator: {other:?}"),
    }
}

#[test]
fn call_instructions_capture_effect_metadata() {
    let src = r#"
module demo

fn helper(io: IO) -> Int !{io} {
  1
}

fn main(io: IO) -> Int !{io} {
  helper(io)
}
"#;

    let ir_module = to_ir(src);

    let main_fn = ir_module.functions.iter().find(|f| f.name == "main").expect("main function present");
    let call_inst = main_fn
        .blocks
        .iter()
        .flat_map(|block| block.instructions.iter())
        .find(|inst| matches!(inst.kind, InstKind::Call { .. }))
        .expect("call instruction lowered");
    assert!(!call_inst.effects.is_empty(), "expected call to capture effect metadata");
    let effect_names: Vec<_> =
        call_inst.effects.iter().map(|id| ir_module.effect_name(*id).to_string()).collect();
    assert_eq!(effect_names, vec!["io".to_string()]);
}

#[test]
fn lowering_treats_tail_expression_as_return() {
    let src = r#"
module demo

fn identity(x: Int) -> Int {
  x
}
"#;

    let ir_module = to_ir(src);

    let func = ir_module.functions.iter().find(|f| f.name == "identity").expect("function");

    assert_eq!(ir_module.type_of(func.ret_type), &Type::Int);
    assert!(func.effect_row.is_empty());
    assert_eq!(func.params.len(), 1);
    assert_eq!(ir_module.type_of(func.params[0].ty), &Type::Int);

    let entry_block = &func.blocks[0];
    assert!(entry_block.instructions.is_empty());
    match &entry_block.terminator {
        Terminator::Return(Some(value)) => {
            assert_eq!(*value, func.params[0].value);
        }
        other => panic!("expected tail expression return, got {other:?}"),
    }
}

#[test]
fn lowering_if_expression_produces_branches_and_phi() {
    let src = r#"
module demo

fn pick(flag: Bool) -> Int {
  if flag {
    1
  } else {
    2
  }
}
"#;

    let ir_module = to_ir(src);

    let func = ir_module.functions.iter().find(|f| f.name == "pick").expect("function");

    assert_eq!(func.blocks.len(), 4, "expected entry, then, else, merge blocks");

    let entry = &func.blocks[0];
    match &entry.terminator {
        Terminator::Branch { condition, then_block, else_block } => {
            assert_eq!(*condition, func.params[0].value);
            assert_eq!(then_block.index(), 1);
            assert_eq!(else_block.index(), 2);
        }
        other => panic!("expected branch terminator, got {other:?}"),
    }

    let then_block = &func.blocks[1];
    assert_eq!(then_block.id.index(), 1);
    assert_eq!(then_block.instructions.len(), 1);
    match &then_block.terminator {
        Terminator::Jump(target) => assert_eq!(target.index(), 3),
        other => panic!("expected jump terminator for then block, got {other:?}"),
    }

    let else_block = &func.blocks[2];
    assert_eq!(else_block.instructions.len(), 1);
    match &else_block.terminator {
        Terminator::Jump(target) => assert_eq!(target.index(), 3),
        other => panic!("expected jump terminator for else block, got {other:?}"),
    }

    let merge_block = &func.blocks[3];
    assert_eq!(merge_block.instructions.len(), 1);
    match &merge_block.instructions[0].kind {
        InstKind::Phi { incomings } => {
            assert_eq!(incomings.len(), 2);
            let mut blocks: Vec<_> = incomings.iter().map(|(block, _)| block.index()).collect();
            blocks.sort_unstable();
            assert_eq!(blocks, vec![1, 2]);
        }
        other => panic!("expected phi instruction, got {other:?}"),
    }
    match &merge_block.terminator {
        Terminator::Return(Some(value)) => {
            assert_eq!(*value, merge_block.instructions[0].id);
            assert_eq!(ir_module.type_of(merge_block.instructions[0].ty), &Type::Int);
        }
        other => panic!("expected return terminator in merge block, got {other:?}"),
    }
}

#[test]
fn purity_analysis_identifies_pure_blocks() {
    let src = r#"
module demo

fn forty_two() -> Int {
  42
}

fn helper(io: IO) -> Int !{io} {
  1
}

fn main(io: IO) -> Int !{io} {
  helper(io)
}
"#;

    let ir_module = to_ir(src);

    let pure_fn = ir_module.functions.iter().find(|f| f.name == "forty_two").expect("pure function present");
    let report = analyze_function_purity(pure_fn);
    let entry = pure_fn.blocks[0].id;
    assert!(report.is_block_pure(entry));
    assert!(report.effectful_instructions.is_empty());

    let impure_fn = ir_module.functions.iter().find(|f| f.name == "main").expect("main function present");
    let report = analyze_function_purity(impure_fn);
    let entry = impure_fn.blocks[0].id;
    assert!(!report.is_block_pure(entry), "call with effects should mark block impure");
    assert!(report.effectful_instructions.iter().any(|id| {
        impure_fn
            .blocks
            .iter()
            .flat_map(|block| block.instructions.iter())
            .any(|inst| inst.id == *id && matches!(inst.kind, InstKind::Call { .. }))
    }));
}

#[test]
fn lowering_desugars_methods_and_conditionals_into_calls() {
    let m = parse("module demo\nfn f(a: V, b: V) -> V { a.add(b) }\nfn g(x: Int) { if x { 1 } else { 2 } }");
    let h = lower_module(&m);
    assert_eq!(h.items.len(), 2);
    match &h.items[0] {
        HItem::Function(f) => {
            assert_eq!(f.name, "f");
            assert_eq!(f.params.len(), 2);
            match &f.body.stmts[0] {
                HStmt::Expr(HExpr::Call { func: HFuncRef::Method(name), args }) => {
                    assert_eq!(name, "add");
                    assert_eq!(args.len(), 2);
                }
                other => panic!("expected method call, got {other:?}"),
            }
        }
        other => panic!("expected function, got {other:?}"),
    }
    match &h.items[1] {
        HItem::Function(f) => match &f.body.stmts[0] {
            HStmt::Expr(HExpr::Call { func: HFuncRef::Method(name), args }) => {
                assert_eq!(name, "if");
                assert_eq!(args.len(), 3);
            }
            other => panic!("expected if call, got {other:?}"),
        },
        other => panic!("expected function, got {other:?}"),
    }
}

#[test]
fn lowering_keeps_type_aliases_and_drops_imports() {
    let m = parse("module demo\nuse std.io;\ntype Id = Int\nfn f() { 1 }");
    let h = lower_module(&m);
    assert_eq!(h.items.len(), 2);
    assert!(matches!(&h.items[0], HItem::TypeAlias(a) if a.name == "Id"));
    let ir_module = lower_to_ir(&h);
    let id = ir_module.types.lookup_named("Id").expect("alias registered");
    assert_eq!(ir_module.type_of(id), &Type::Int);
}

#[test]
fn return_inside_a_branch_keeps_the_block_ended() {
    let ir_module = to_ir("module demo\nfn f(c: Bool) -> Int { if c { return 1 } else { 2 } }");
    let func = &ir_module.functions[0];
    assert_eq!(func.blocks.len(), 4);
    match &func.blocks[1].terminator {
        Terminator::Return(Some(_)) => {}
        other => panic!("expected return in then block, got {other:?}"),
    }
}

#[test]
fn pipeline_snapshot_handles_parse_errors() {
    let src = "module broken\nfn missing_brace(x: Int) {";
    let snapshot = PipelineSnapshot::capture(src);

    assert!(snapshot.module_segments().is_empty());
    let stages = snapshot.stages();
    assert_eq!(stages.len(), 2, "only lexer and parser stages should be recorded");
    assert!(matches!(stages[0].status(), StageStatus::Success));
    assert!(matches!(stages[1].status(), StageStatus::Failed { .. }));
}

#[test]
fn pipeline_snapshot_serializes_to_json() {
    let src = r#"
module tooling.json

type Alias = Int

fn identity(x: Int) -> Int {
  x
}
"#;

    let snapshot = PipelineSnapshot::capture(src);
    let json = snapshot.to_json_string();

    assert!(json.contains("\"module_path\""));
    assert!(json.contains("\"stages\""));
    assert!(json.contains("\"lexer\""));
    assert!(json.contains("\"resolve\""));
    assert!(json.contains("\"diagnostics\""));
    assert!(json.contains("\"ok\":true"));
}

#[test]
fn pipeline_snapshot_records_every_stage_in_order() {
    let snapshot = PipelineSnapshot::capture("module a.b\nfn f(x: Int) -> Int { x }");
    let names: Vec<&str> = snapshot.stages().iter().map(|s| s.name()).collect();
    assert_eq!(names, vec!["lexer", "parser", "resolve", "check", "lower", "ir"]);
    assert_eq!(snapshot.module_segments(), &vec!["a".to_string(), "b".to_string()]);
}

#[test]
fn pipeline_snapshot_stops_at_a_lexical_error() {
    let snapshot = PipelineSnapshot::capture("module a\nfn f() { \"open");
    assert_eq!(snapshot.stages().len(), 1);
    assert_eq!(snapshot.stages()[0].name(), "lexer");
    assert!(matches!(snapshot.stages()[0].status(), StageStatus::Failed { .. }));
}

#[test]
fn tests_lower_method_call() {
    let src = r#"
      module demo
      type V = { x: Int }
      fn f(a: V, b: V) -> V { a.add(b) }
    "#;
    let m = parse(src);
    let h = lower_module(&m);
    let s = hir_to_string(&h);
    assert!(s.contains("add(a, b)"));
}

#[test]
fn lowering_tests_lower_method_call() {
    let src = r#"
      module demo
      type V = { x: Int }
      fn f(a: V, b: V) -> V { a.add(b) }
    "#;
    let m = parse(src);
    let h = lower_module(&m);
    let s = hir_to_string(&h);
    assert!(s.contains("add(a, b)"));
}

#[test]
fn hir_rendering_shows_each_statement_form() {
    let m = parse("module demo.app\nfn f(x: Int, y: Int) -> Int { let z = x + 1\n z[0]\n return -y }\nfn g() { 1 }");
    let s = hir_to_string(&lower_module(&m));
    assert_eq!(
        s,
        "hir module demo.app\n\
         fn f(x, y)\n  let z = (x + 1)\n  index(z, 0)\n  return neg(y)\n\
         fn g()\n  1\n"
    );
}

#[test]
fn pipeline_renders_the_orchestration_example() {
    let src = r#"
module pipeline.demo

type TaskResult = Done(Int) | Failed(String)

fn orchestrate(job_id: Int, io: IO, net: Net) -> TaskResult !{io, net} {
  let pending = spawn network::fetch(job_id, net)
  using io::open("log.txt", io) {
    let status = await pending
    if status == 0 {
      TaskResult::Done(status)
    } else {
      TaskResult::Failed("error")
    }
  }
}

fn classify(result: TaskResult) -> Int {
  match result {
    TaskResult::Done(value) => value,
    TaskResult::Failed(_) => 0,
  }
}
"#;
    let module = parse(src);
    assert_eq!(module.name, vec!["pipeline".to_string(), "demo".to_string()]);
    assert_eq!(module.items.len(), 3);
    let pretty = mica::pretty::module_to_string(&module);
    assert!(pretty.contains("fn orchestrate(job_id: Int, io: IO, net: Net) -> TaskResult !{io, net}"));
    assert!(pretty.contains("fn classify(result: TaskResult) -> Int"));
    let dump = hir_to_string(&lower_module(&module));
    assert!(dump.contains("spawn(network::fetch(job_id, net))"));
    assert!(dump.contains("await(pending)"));
    assert!(dump.contains(
        "if((status == 0), { TaskResult::Done(status); }, { TaskResult::Failed(\"error\"); })"
    ));
}

#[test]
fn pipeline_snapshot_reports_stage_metrics() {
    let src = r#"
module tooling.capture

fn compute(x: Int, io: IO, net: Net) -> Int !{io, net} {
  let doubled = x + x
  doubled
}
"#;

    let snapshot = PipelineSnapshot::capture(src);
    assert_eq!(snapshot.module_segments(), &vec!["tooling".to_string(), "capture".to_string()]);

    let stages = snapshot.stages();
    let names: Vec<&str> = stages.iter().map(|stage| stage.name()).collect();
    assert_eq!(names, vec!["lexer", "parser", "resolve", "check", "lower", "ir"]);

    for stage in stages {
        assert!(matches!(stage.status(), StageStatus::Success));
    }

    let resolve_stage = snapshot.stages().iter().find(|stage| stage.name() == "resolve").expect("resolve stage present");
    let capabilities = resolve_stage
        .metrics()
        .iter()
        .find(|metric| metric.key() == "capabilities")
        .expect("capability metric present");
    match capabilities.value() {
        MetricValue::List(values) => {
            assert!(values.contains(&"io".to_string()));
            assert!(values.contains(&"net".to_string()));
        }
        other => panic!("expected list metric, got {other:?}"),
    }

    let check_stage = snapshot.stages().iter().find(|stage| stage.name() == "check").expect("check stage present");
    let diagnostics =
        check_stage.metrics().iter().find(|metric| metric.key() == "diagnostics").expect("diagnostics metric");
    match diagnostics.value() {
        MetricValue::Integer(count) => assert_eq!(*count, 0),
        other => panic!("expected integer metric, got {other:?}"),
    }
}
