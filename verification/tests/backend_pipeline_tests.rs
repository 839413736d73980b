use mica::backend::llvm::LlvmBackend;
use mica::backend::native::NativeBackend;
use mica::backend::text::TextBackend;
use mica::backend::{run, BackendOptions};
use mica::ir::lowering::lower_module as lower_to_ir;
use mica::ir::Module;
use mica::lower::lower_module;
use mica::syntax::parser::parse_module;

fn typed(src: &str) -> Module {
    let module = parse_module(src).expect("parse ok");
    lower_to_ir(&lower_module(&module))
}

#[test]
fn text_backend_renders_effect_rows_and_types() {
    let src = r#"
module backend.sample

fn transform(x: Int, io: IO) -> Int !{io} {
  let bumped = x + 1
  return bumped
}
"#;
    let ir_module = typed(src);
    let output = run(&TextBackend, &ir_module, &BackendOptions::default()).expect("backend output");

    assert!(output.contains("module backend.sample"));
    assert!(output.contains("fn transform(x: Int, io: IO) -> Int !{io}"));
    assert!(output.contains("block 0:"));
    assert!(output.contains("return %"));
    assert!(
        output.contains("+ %") || output.contains("call"),
        "expected arithmetic or call instruction in block: {}",
        output
    );
}

#[test]
fn llvm_backend_renders_integer_arithmetic() {
    let src = r#"
module backend.llvm

fn transform(x: Int, io: IO) -> Int !{io} {
  let bumped = x + 1
  return bumped
}
"#;
    let ir_module = typed(src);
    let output = run(&LlvmBackend::default(), &ir_module, &BackendOptions::default()).expect("backend output");

    let ir = output.as_str();
    assert!(ir.contains("target datalayout"));
    assert!(ir.contains("define i64 @transform(i64 %x, ptr %io)"));
    assert!(ir.contains("; effects: io"));
    assert!(ir.contains("bb0:"));
    assert!(ir.contains("%2 = add i64 0, 1"));
    assert!(ir.contains("%3 = add i64 %0, %2"));
    assert!(ir.contains("ret i64 %3"));
}

#[test]
fn llvm_backend_handles_branch_and_phi() {
    let src = r#"
module backend.branch

fn choose(flag: Bool) -> Int {
  if flag {
    1
  } else {
    2
  }
}
"#;
    let ir_module = typed(src);
    let output = run(&LlvmBackend::default(), &ir_module, &BackendOptions::default()).expect("backend output");

    let ir = output.as_str();
    assert!(ir.contains("br i1 %0, label %bb1, label %bb2"));
    assert!(ir.contains("%3 = phi i64 [ %1, %bb1 ], [ %2, %bb2 ]"));
    assert!(ir.contains("ret i64 %3"));
}

#[test]
fn llvm_backend_interns_string_literals() {
    let src = r#"
module backend.strings

fn message() -> String {
  "hi"
}
"#;
    let ir_module = typed(src);
    let output = run(&LlvmBackend::default(), &ir_module, &BackendOptions::default()).expect("backend output");

    let ir = output.as_str();
    assert!(ir.contains("@.str0 = private constant [3 x i8] c\"hi\\00\""));
    assert!(ir.contains("%0 = getelementptr inbounds ([3 x i8], ptr @.str0, i32 0, i32 0)"));
    assert!(ir.contains("ret ptr %0"));
}

#[test]
fn llvm_backend_returns_void_for_unit() {
    let src = r#"
module backend.unit

fn noop() {
  ()
}
"#;
    let ir_module = typed(src);
    let output = run(&LlvmBackend::default(), &ir_module, &BackendOptions::default()).expect("backend output");

    let ir = output.as_str();
    assert!(ir.contains("define void @noop()"));
    assert!(ir.contains("bb0:"));
    assert!(ir.contains("ret void"));
}

#[test]
fn native_backend_handles_unit_functions() {
    let src = r#"
module backend.native_unit

fn noop() {
  ()
}

fn caller() {
  noop()
}
"#;
    let ir_module = typed(src);
    let artifact = run(&NativeBackend, &ir_module, &BackendOptions::default()).expect("native backend artifact");

    assert!(artifact.c_source.contains("void noop(void)"), "expected void signature for noop: {}", artifact.c_source);
    assert!(artifact.c_source.contains("void caller(void)"), "expected void signature for caller: {}", artifact.c_source);
    assert!(!artifact.c_source.contains("return 0;"), "unit functions should not return numeric zero: {}", artifact.c_source);
    assert!(
        artifact.c_source.contains("noop();\n  int64_t v"),
        "unit calls should lower to call plus stub value: {}",
        artifact.c_source
    );
    assert!(!artifact.c_source.contains("return v"), "unit functions should not return temporary values: {}", artifact.c_source);
}

#[test]
fn native_backend_threads_runtime_capabilities() {
    let src = r#"
module backend.native_capabilities

fn log(io: IO) !{io} {
  io.println("hello")
}
"#;
    let ir_module = typed(src);
    let artifact = run(&NativeBackend, &ir_module, &BackendOptions::default()).expect("native backend artifact");

    assert!(
        artifact.c_source.contains("mica_runtime_require_capability(\"io\")"),
        "runtime guards missing from C source: {}",
        artifact.c_source
    );
    assert!(artifact.c_source.contains("mica_runtime_io_write_line"), "expected IO runtime shim in C source: {}", artifact.c_source);
    assert!(
        artifact.c_source.contains("MICA_RUNTIME_CAPABILITY_NAMES"),
        "capability registry not emitted: {}",
        artifact.c_source
    );
}
