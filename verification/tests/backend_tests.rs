use mica::backend;
use mica::backend::llvm::{escape_string, format_type, record_symbol, sanitize_symbol, LlvmBackend};
use mica::backend::native::{escape_string as c_escape, mangle_name, sanitize_identifier, NativeBackend};
use mica::backend::text::TextBackend;
use mica::backend::{BackendError, BackendOptions};
use mica::ir::{
    BasicBlock, BlockId, EffectId, EffectTable, FuncRef, Function, InstKind, Instruction, Module, Param,
    RecordField, RecordType, Terminator, Type, TypeId, TypeTable, ValueId,
};
use mica::syntax::ast::{BinaryOp, Literal, Path};

const INT: TypeId = TypeId(2);
const BOOL: TypeId = TypeId(4);
const UNIT: TypeId = TypeId(1);
const STRING: TypeId = TypeId(5);

fn inst(id: u32, ty: TypeId, kind: InstKind) -> Instruction {
    Instruction { id: ValueId(id), ty, effects: Vec::new(), kind }
}

fn module(name: &[&str], functions: Vec<Function>, types: TypeTable, effects: EffectTable) -> Module {
    Module { name: name.iter().map(|s| s.to_string()).collect(), functions, types, effects }
}

/// `fn transform(x: Int, io: IO) -> Int !{io} { let bumped = x + 1; return bumped }`
fn transform_module(name: &[&str]) -> Module {
    let mut types = TypeTable::new();
    let io_ty = types.intern(Type::Named("IO".to_string()));
    let mut effects = EffectTable::new();
    let io = effects.intern("io".to_string());
    let function = Function {
        name: "transform".to_string(),
        params: vec![
            Param { name: "x".to_string(), ty: INT, value: ValueId(0) },
            Param { name: "io".to_string(), ty: io_ty, value: ValueId(1) },
        ],
        ret_type: INT,
        blocks: vec![BasicBlock {
            id: BlockId(0),
            instructions: vec![
                inst(2, INT, InstKind::Literal(Literal::Int(1))),
                inst(3, INT, InstKind::Binary { op: BinaryOp::Add, lhs: ValueId(0), rhs: ValueId(2) }),
            ],
            terminator: Terminator::Return(Some(ValueId(3))),
        }],
        effect_row: vec![io],
    };
    module(name, vec![function], types, effects)
}

/// `fn choose(flag: Bool) -> Int { if flag { 1 } else { 2 } }`
fn choose_module() -> Module {
    let function = Function {
        name: "choose".to_string(),
        params: vec![Param { name: "flag".to_string(), ty: BOOL, value: ValueId(0) }],
        ret_type: INT,
        blocks: vec![
            BasicBlock {
                id: BlockId(0),
                instructions: Vec::new(),
                terminator: Terminator::Branch { condition: ValueId(0), then_block: BlockId(1), else_block: BlockId(2) },
            },
            BasicBlock {
                id: BlockId(1),
                instructions: vec![inst(1, INT, InstKind::Literal(Literal::Int(1)))],
                terminator: Terminator::Jump(BlockId(3)),
            },
            BasicBlock {
                id: BlockId(2),
                instructions: vec![inst(2, INT, InstKind::Literal(Literal::Int(2)))],
                terminator: Terminator::Jump(BlockId(3)),
            },
            BasicBlock {
                id: BlockId(3),
                instructions: vec![inst(
                    3,
                    INT,
                    InstKind::Phi { incomings: vec![(BlockId(1), ValueId(1)), (BlockId(2), ValueId(2))] },
                )],
                terminator: Terminator::Return(Some(ValueId(3))),
            },
        ],
        effect_row: Vec::new(),
    };
    module(&["backend", "branch"], vec![function], TypeTable::new(), EffectTable::new())
}

fn vec2_types() -> (TypeTable, TypeId) {
    let mut types = TypeTable::new();
    let vec2 = types.intern(Type::Record(RecordType {
        name: Some("Vec2".to_string()),
        fields: vec![
            RecordField { name: "x".to_string(), ty: INT, offset: 0 },
            RecordField { name: "y".to_string(), ty: INT, offset: 8 },
        ],
        size: 16,
        align: 8,
    }));
    (types, vec2)
}

/// `fn build(x: Int, y: Int) -> Vec2 { Vec2 { x, y } }` with the given literal fields.
fn record_module(fields: Vec<(&str, u32)>) -> Module {
    let (types, vec2) = vec2_types();
    let function = Function {
        name: "build".to_string(),
        params: vec![
            Param { name: "x".to_string(), ty: INT, value: ValueId(0) },
            Param { name: "y".to_string(), ty: INT, value: ValueId(1) },
        ],
        ret_type: vec2,
        blocks: vec![BasicBlock {
            id: BlockId(0),
            instructions: vec![inst(
                2,
                vec2,
                InstKind::Record {
                    type_path: Some(Path { segments: vec!["Vec2".to_string()] }),
                    fields: fields.into_iter().map(|(n, v)| (n.to_string(), ValueId(v))).collect(),
                },
            )],
            terminator: Terminator::Return(Some(ValueId(2))),
        }],
        effect_row: Vec::new(),
    };
    module(&["backend", "native_record"], vec![function], types, EffectTable::new())
}

#[test]
fn recommended_worker_count_reserves_headroom() {
    assert_eq!(backend::recommended_worker_count_with_available(1, 8), 1);
    assert_eq!(backend::recommended_worker_count_with_available(2, 8), 1);
    assert_eq!(backend::recommended_worker_count_with_available(3, 8), 2);
    assert_eq!(backend::recommended_worker_count_with_available(8, 8), 7);
    assert_eq!(backend::recommended_worker_count_with_available(4, 2), 2);
    assert_eq!(backend::recommended_worker_count_with_available(4, 1), 1);
}

#[test]
fn recommended_worker_count_handles_zero() {
    assert_eq!(backend::recommended_worker_count_with_available(0, 0), 1);
    assert_eq!(backend::recommended_worker_count_with_available(10, 0), 1);
}

#[test]
fn text_backend_renders_effect_rows_and_types_on_hand_built_ir() {
    let ir_module = transform_module(&["backend", "sample"]);
    let output = backend::run(&TextBackend, &ir_module, &BackendOptions::default()).expect("backend output");
    assert!(output.contains("module backend.sample"), "{}", output);
    assert!(output.contains("fn transform(x: Int, io: IO) -> Int !{io}"), "{}", output);
    assert!(output.contains("block 0:"), "{}", output);
    assert!(output.contains("return %"), "{}", output);
    assert!(output.contains("+ %"), "{}", output);
}

#[test]
fn llvm_backend_renders_integer_arithmetic_on_hand_built_ir() {
    let ir_module = transform_module(&["backend", "llvm"]);
    let output = backend::run(&LlvmBackend::default(), &ir_module, &BackendOptions::default()).expect("backend output");
    let ir = output.as_str();
    assert!(ir.starts_with("; ModuleID = 'backend.llvm'\n"), "{}", ir);
    assert!(ir.contains("target datalayout = \"e-m:e-p:64:64-i64:64-f64:64-n8:16:32:64-S128\""));
    assert!(!ir.contains("target triple"));
    assert!(ir.contains("define i64 @transform(i64 %x, ptr %io) {"), "{}", ir);
    assert!(ir.contains("  ; pure regions: [bb0]\n"), "{}", ir);
    assert!(ir.contains("; effects: io"));
    assert!(ir.contains("bb0:\n  ; block purity: pure\n"), "{}", ir);
    assert!(ir.contains("%2 = add i64 0, 1"));
    assert!(ir.contains("%3 = add i64 %0, %2"));
    assert!(ir.contains("ret i64 %3"));
    assert_eq!(output.target_triple, None);
}

#[test]
fn llvm_backend_prefers_its_own_target_triple() {
    let ir_module = transform_module(&["m"]);
    let mut options = BackendOptions::default();
    options.target_triple = Some("x86_64-unknown-linux-gnu".to_string());
    let out = backend::run(&LlvmBackend::default(), &ir_module, &options).expect("output");
    assert!(out.ir.contains("target triple = \"x86_64-unknown-linux-gnu\"\n"));
    assert_eq!(out.target_triple.as_deref(), Some("x86_64-unknown-linux-gnu"));
    let own = LlvmBackend { target_triple: Some("aarch64-apple-darwin".to_string()) };
    let out = backend::run(&own, &ir_module, &options).expect("output");
    assert!(out.ir.contains("target triple = \"aarch64-apple-darwin\"\n"));
}

#[test]
fn llvm_backend_handles_branch_and_phi_on_hand_built_ir() {
    let ir_module = choose_module();
    let output = backend::run(&LlvmBackend::default(), &ir_module, &BackendOptions::default()).expect("backend output");
    let ir = output.as_str();
    assert!(ir.contains("br i1 %0, label %bb1, label %bb2"), "{}", ir);
    assert!(ir.contains("phi i64 [ %1, %bb1 ], [ %2, %bb2 ]"), "{}", ir);
    assert!(ir.contains("; pure regions: [bb0, bb1, bb2, bb3]"), "{}", ir);
    assert!(ir.contains("  br label %bb3\n"));
}

#[test]
fn llvm_backend_interns_string_literals_on_hand_built_ir() {
    let function = Function {
        name: "greet".to_string(),
        params: Vec::new(),
        ret_type: STRING,
        blocks: vec![BasicBlock {
            id: BlockId(0),
            instructions: vec![
                inst(0, STRING, InstKind::Literal(Literal::String("hi \"you\"\n".to_string()))),
                inst(1, STRING, InstKind::Literal(Literal::String("é".to_string()))),
                inst(2, STRING, InstKind::Literal(Literal::String("hi \"you\"\n".to_string()))),
            ],
            terminator: Terminator::Return(Some(ValueId(2))),
        }],
        effect_row: Vec::new(),
    };
    let ir_module = module(&["s"], vec![function], TypeTable::new(), EffectTable::new());
    let out = backend::run(&LlvmBackend::default(), &ir_module, &BackendOptions::default()).expect("output");
    let ir = out.as_str();
    assert!(ir.contains("@.str0 = private constant [10 x i8] c\"hi \\22you\\22\\0A\\00\"\n"), "{}", ir);
    assert!(ir.contains("@.str1 = private constant [3 x i8] c\"\\E9\\00\"\n"), "{}", ir);
    assert!(!ir.contains("@.str2"));
    assert!(ir.contains("%0 = getelementptr inbounds ([10 x i8], ptr @.str0, i32 0, i32 0)"), "{}", ir);
    assert!(ir.contains("%2 = getelementptr inbounds ([10 x i8], ptr @.str0, i32 0, i32 0)"));
    assert!(ir.contains("ret ptr %2"));
}

#[test]
fn llvm_backend_returns_void_for_unit_on_hand_built_ir() {
    let function = Function {
        name: "noop".to_string(),
        params: Vec::new(),
        ret_type: UNIT,
        blocks: vec![BasicBlock {
            id: BlockId(0),
            instructions: vec![inst(0, UNIT, InstKind::Literal(Literal::Unit))],
            terminator: Terminator::Return(Some(ValueId(0))),
        }],
        effect_row: Vec::new(),
    };
    let ir_module = module(&["u"], vec![function], TypeTable::new(), EffectTable::new());
    let out = backend::run(&LlvmBackend::default(), &ir_module, &BackendOptions::default()).expect("output");
    assert!(out.ir.contains("define void @noop() {"), "{}", out.ir);
    assert!(out.ir.contains("  ret void\n"));
    assert!(!out.ir.contains("%0 ="));
}

#[test]
fn llvm_backend_preserves_call_return_types() {
    let mut effects = EffectTable::new();
    let io = effects.intern("io".to_string());
    let mut call = inst(
        1,
        STRING,
        InstKind::Call { func: FuncRef::Function(Path { segments: vec!["text".to_string(), "read".to_string()] }), args: vec![ValueId(0)] },
    );
    call.effects = vec![io];
    let method = inst(2, UNIT, InstKind::Call { func: FuncRef::Method("log.line".to_string()), args: vec![ValueId(1)] });
    let function = Function {
        name: "run".to_string(),
        params: vec![Param { name: "n".to_string(), ty: INT, value: ValueId(0) }],
        ret_type: STRING,
        blocks: vec![BasicBlock { id: BlockId(0), instructions: vec![call, method], terminator: Terminator::Return(Some(ValueId(1))) }],
        effect_row: vec![io],
    };
    let ir_module = module(&["c"], vec![function], TypeTable::new(), effects);
    let out = backend::run(&LlvmBackend::default(), &ir_module, &BackendOptions::default()).expect("output");
    assert!(out.ir.contains("  %1 = call ptr @text__read(i64 %0)  ; effects: io\n"), "{}", out.ir);
    assert!(out.ir.contains("  call void @log_line(ptr %1)\n"), "{}", out.ir);
    assert!(out.ir.contains("; block purity: effectful"));
    assert!(!out.ir.contains("pure regions"));
}

#[test]
fn llvm_backend_emits_record_literals_and_types() {
    let out = backend::run(&LlvmBackend::default(), &record_module(vec![("y", 1), ("x", 0)]), &BackendOptions::default())
        .expect("output");
    assert!(out.ir.contains("%record.Vec2 = type { i64, i64 }\n; layout: size=16, align=8\n"), "{}", out.ir);
    assert!(
        out.ir.contains("%2 = insertvalue %record.Vec2 (insertvalue %record.Vec2 undef, i64 %0, 0), i64 %1, 1"),
        "{}",
        out.ir
    );
}

#[test]
fn llvm_backend_rejects_incomplete_record_literals() {
    let err = backend::run(&LlvmBackend::default(), &record_module(vec![("x", 0)]), &BackendOptions::default())
        .expect_err("missing field");
    match err {
        BackendError::Unsupported(m) => assert_eq!(m, "record literal missing field 'y' for type %record.Vec2"),
        other => panic!("unexpected {:?}", other),
    }
    let err = backend::run(
        &LlvmBackend::default(),
        &record_module(vec![("x", 0), ("y", 1), ("x", 1)]),
        &BackendOptions::default(),
    )
    .expect_err("duplicate field");
    assert_eq!(err.to_display_string(), "unsupported backend feature: duplicate field 'x' in record literal");
    let err = backend::run(
        &LlvmBackend::default(),
        &record_module(vec![("x", 0), ("z", 1)]),
        &BackendOptions::default(),
    )
    .expect_err("unknown field");
    assert_eq!(err.to_display_string(), "unsupported backend feature: record literal field 'z' not present in type %record.Vec2");
}

#[test]
fn llvm_backend_rejects_untyped_record_literals() {
    let mut m = record_module(vec![("x", 0), ("y", 1)]);
    m.functions[0].blocks[0].instructions[0].ty = INT;
    let err = backend::run(&LlvmBackend::default(), &m, &BackendOptions::default()).expect_err("untyped");
    assert_eq!(
        err.to_display_string(),
        "unsupported backend feature: record literal for type 'i64' requires a concrete record layout"
    );
}

#[test]
fn llvm_helpers_sanitize_and_escape() {
    assert_eq!(sanitize_symbol("a::b.c"), "a__b_c");
    assert_eq!(record_symbol("geo.Point"), "record.geo_Point");
    assert_eq!(escape_string("a\\b\t\u{1}~"), "a\\5Cb\\09\\01~");
    assert_eq!(escape_string("€"), "\\20AC");
    let (types, vec2) = vec2_types();
    let m = module(&["t"], Vec::new(), types, EffectTable::new());
    assert_eq!(format_type(&m, vec2), "%record.Vec2");
    assert_eq!(format_type(&m, TypeId(0)), "ptr");
    assert_eq!(format_type(&m, TypeId(3)), "double");
}

#[test]
fn llvm_backend_formats_anonymous_records() {
    let mut types = TypeTable::new();
    let anon = types.intern(Type::Record(RecordType {
        name: None,
        fields: vec![RecordField { name: "a".to_string(), ty: BOOL, offset: 0 }, RecordField { name: "b".to_string(), ty: STRING, offset: 8 }],
        size: 16,
        align: 8,
    }));
    let m = module(&["t"], Vec::new(), types, EffectTable::new());
    assert_eq!(format_type(&m, anon), "{ i1, ptr }");
    let out = backend::run(&LlvmBackend::default(), &m, &BackendOptions::default()).expect("output");
    assert!(!out.ir.contains("= type"));
}

#[test]
fn native_backend_threads_runtime_capabilities_on_hand_built_ir() {
    let mut effects = EffectTable::new();
    let io = effects.intern("io".to_string());
    let mut types = TypeTable::new();
    let io_ty = types.intern(Type::Named("IO".to_string()));
    let function = Function {
        name: "log".to_string(),
        params: vec![Param { name: "io".to_string(), ty: io_ty, value: ValueId(0) }],
        ret_type: UNIT,
        blocks: vec![BasicBlock {
            id: BlockId(0),
            instructions: vec![
                inst(1, STRING, InstKind::Literal(Literal::String("hello".to_string()))),
                inst(2, UNIT, InstKind::Call { func: FuncRef::Method("println".to_string()), args: vec![ValueId(0), ValueId(1)] }),
            ],
            terminator: Terminator::Return(None),
        }],
        effect_row: vec![io],
    };
    let ir_module = module(&["backend", "native_capabilities"], vec![function], types, effects);
    let artifact = backend::run(&NativeBackend, &ir_module, &BackendOptions::default()).expect("native backend artifact");
    assert!(artifact.c_source.contains("mica_runtime_require_capability(\"io\")"));
    assert!(artifact.c_source.contains("mica_runtime_io_write_line"));
    assert!(artifact.c_source.contains("MICA_RUNTIME_CAPABILITY_NAMES"));
    assert!(artifact.c_source.contains("static const size_t MICA_RUNTIME_CAPABILITY_COUNT = 1;"));
    assert!(artifact.c_source.contains("  mica_runtime_mark_capability(\"io\");\n"));
    assert!(artifact.c_source.contains("void log(int64_t arg0);\n"), "{}", artifact.c_source);
    assert_eq!(artifact.module_name, "backend_native_capabilities");
}

#[test]
fn native_backend_emits_record_literals() {
    let artifact = backend::run(&NativeBackend, &record_module(vec![("y", 1), ("x", 0)]), &BackendOptions::default())
        .expect("native backend artifact");
    assert!(artifact.c_source.contains("typedef struct record_Vec2"));
    assert!(artifact.c_source.contains("record_Vec2 build"));
    assert!(artifact.c_source.contains("(record_Vec2){ .x ="), "{}", artifact.c_source);
    assert!(artifact.c_source.contains(".y ="));
}

#[test]
fn native_backend_rejects_incomplete_record_literals() {
    let err = backend::run(&NativeBackend, &record_module(vec![("x", 0)]), &BackendOptions::default())
        .expect_err("missing field");
    assert_eq!(err.to_display_string(), "unsupported backend feature: record literal for 'Vec2' is missing field 'y'");
}

#[test]
fn native_backend_handles_unit_functions_on_hand_built_ir() {
    let function = Function {
        name: "noop".to_string(),
        params: Vec::new(),
        ret_type: UNIT,
        blocks: vec![BasicBlock { id: BlockId(0), instructions: Vec::new(), terminator: Terminator::Return(None) }],
        effect_row: Vec::new(),
    };
    let artifact = backend::run(&NativeBackend, &module(&["u"], vec![function], TypeTable::new(), EffectTable::new()), &BackendOptions::default())
        .expect("artifact");
    assert!(artifact.c_source.contains("void noop(void);\n"));
    assert!(artifact.c_source.contains("void noop(void) {\n"));
    assert!(artifact.c_source.contains("static const size_t MICA_RUNTIME_CAPABILITY_COUNT = 0;"));
}

#[test]
fn native_helpers_mangle_and_escape() {
    assert_eq!(mangle_name("math::add"), "math_add");
    assert_eq!(sanitize_identifier("9lives-x"), "_9lives_x");
    assert_eq!(sanitize_identifier(""), "_");
    assert_eq!(c_escape("a\"b\\\n"), "a\\\"b\\\\\\n");
}

#[test]
fn backend_errors_display() {
    assert_eq!(BackendError::unsupported("x").to_display_string(), "unsupported backend feature: x");
    assert_eq!(BackendError::internal("y").to_display_string(), "backend error: y");
}

#[test]
fn unused_effect_ids_are_fine() {
    let _ = EffectId(0);
}
