use mica::cli::args::{parse_args, CommandKind, TraceTarget};
use mica::cli::ir_json::{ir_instruction_kind_json, ir_module_to_json, ir_type_json};
use mica::cli::report::{resolve_summary_text, resolved_to_json};
use mica::ir::{
    BasicBlock, BlockId, EffectTable, FuncRef, Function, InstKind, Instruction, Module, Param, RecordField,
    RecordType, Terminator, Type, TypeId, TypeTable, ValueId,
};
use mica::runtime::store::StrMap;
use mica::semantics::resolve::{
    resolve_module, CapabilityBinding, CapabilityScope, PathKind, Resolved, ResolvedImport, ResolvedPath,
    SymbolCategory, SymbolInfo, SymbolScope,
};
use mica::syntax::ast::{BinaryOp, Literal, Path};
use mica::syntax::parser::parse_module;

fn strings(v: &[&str]) -> Vec<String> {
    v.iter().map(|s| s.to_string()).collect()
}

#[test]
fn resolve_json_orders_types_by_name() {
    let m = parse_module("module demo.json\ntype Zed = P | Q\ntype Alpha = R | P").expect("parse ok");
    let json = resolved_to_json(&resolve_module(&m));
    assert!(json.starts_with(
        "{\"module_path\":[\"demo\",\"json\"],\"adts\":{\"Alpha\":[\"R\",\"P\"],\"Zed\":[\"P\",\"Q\"]},\
\"variant_to_adt\":{\"P\":[\"Zed\",\"Alpha\"],\"Q\":[\"Zed\"],\"R\":[\"Alpha\"]},\"imports\":[],\"symbols\":[{\"name\":\"Zed\""
    ));
    assert!(json.ends_with("\"resolved_paths\":[],\"capabilities\":[],\"diagnostics\":[]}"));
}

fn sample_resolution() -> Resolved {
    let module = strings(&["app"]);
    let mut adts = StrMap::new();
    adts.insert("Opt".to_string(), strings(&["Some", "None"]));
    adts.insert("Unit".to_string(), vec![]);
    Resolved {
        module: module.clone(),
        adts,
        variant_to_adt: StrMap::new(),
        imports: vec![
            ResolvedImport { path: strings(&["std", "io"]), alias: Some("sio".to_string()) },
            ResolvedImport { path: strings(&["net"]), alias: None },
        ],
        symbols: vec![
            SymbolInfo {
                name: "zeta".to_string(),
                category: SymbolCategory::Function { is_public: false },
                scope: SymbolScope::Module(module.clone()),
            },
            SymbolInfo {
                name: "Opt".to_string(),
                category: SymbolCategory::Type { is_public: true, params: strings(&["T"]) },
                scope: SymbolScope::Module(module.clone()),
            },
            SymbolInfo {
                name: "alpha".to_string(),
                category: SymbolCategory::Function { is_public: true },
                scope: SymbolScope::Function { module: module.clone(), function: "outer".to_string() },
            },
        ],
        resolved_paths: vec![
            ResolvedPath {
                segments: strings(&["Opt", "Some"]),
                kind: PathKind::Variant,
                resolved: Some(SymbolInfo {
                    name: "Some".to_string(),
                    category: SymbolCategory::Variant { parent: "Opt".to_string() },
                    scope: SymbolScope::Module(module.clone()),
                }),
            },
            ResolvedPath { segments: strings(&["missing"]), kind: PathKind::Value, resolved: None },
        ],
        capabilities: vec![CapabilityBinding {
            name: "io".to_string(),
            scope: CapabilityScope::Function { module: module.clone(), function: "main".to_string() },
        }],
    }
}

#[test]
fn resolve_summary_lists_every_section() {
    let text = resolve_summary_text(&sample_resolution());
    let expected = "module: app\n\
imports:\n  use std::io as sio\n  use net\n\
types:\n  type Opt = Some | None\n  type Unit\n\
functions:\n  pub fn alpha (scope: app::outer)\n  fn zeta (scope: app)\n\
capabilities:\n  fn app::main requires io\n\
paths:\n  Opt::Some -> Some (Variant { parent: \"Opt\" })\n  missing -> <unresolved value>\n";
    assert_eq!(text, expected);
}

#[test]
fn resolve_summary_skips_empty_sections() {
    let m = parse_module("module a.b").expect("parse ok");
    assert_eq!(resolve_summary_text(&resolve_module(&m)), "module: a.b\n");
}

#[test]
fn resolve_json_renders_symbols_paths_and_capabilities() {
    let json = resolved_to_json(&sample_resolution());
    assert!(json.starts_with("{\"module_path\":[\"app\"],\"adts\":{\"Opt\":[\"Some\",\"None\"],\"Unit\":[]},\"variant_to_adt\":{},"));
    assert!(json.contains("\"imports\":[{\"path\":[\"std\",\"io\"],\"alias\":\"sio\"},{\"path\":[\"net\"],\"alias\":null}]"));
    assert!(json.contains("{\"name\":\"Opt\",\"category\":{\"type\":\"Type\",\"is_public\":true,\"params\":[\"T\"]},\"scope\":{\"type\":\"Module\",\"path\":[\"app\"]}}"));
    assert!(json.contains("{\"segments\":[\"missing\"],\"kind\":\"Value\",\"resolved\":null}"));
    assert!(json.contains("\"capabilities\":[{\"name\":\"io\",\"scope\":{\"type\":\"Function\",\"module_path\":[\"app\"],\"function\":\"main\"}}]"));
    assert!(json.ends_with("\"diagnostics\":[]}"));
}

#[test]
fn command_line_selects_command_and_options() {
    let a = parse_args(&strings(&["--resolve", "prog.mica"])).expect("valid");
    assert_eq!(a.input_path, "prog.mica");
    assert!(!a.pretty);
    assert!(matches!(a.command, CommandKind::Resolve));

    let a = parse_args(&strings(&["--pretty", "--check", "--ast", "x.mica"])).expect("valid");
    assert!(a.pretty);
    assert!(matches!(a.command, CommandKind::Ast));

    let a = parse_args(&strings(&["--out", "bin", "--run", "--trace-json", "-", "main.mica"])).expect("valid");
    match a.command {
        CommandKind::Run { output, trace } => {
            assert_eq!(output.as_deref(), Some("bin"));
            assert!(matches!(trace, Some(TraceTarget::Stdout)));
        }
        other => panic!("expected run, got {other:?}"),
    }

    let a = parse_args(&strings(&["--build", "--out", "a.out", "--emit-llvm", "m.mica"])).expect("valid");
    assert!(matches!(a.command, CommandKind::Llvm));
    let a = parse_args(&strings(&["--run", "--trace-json", "trace.json", "m.mica"])).expect("valid");
    assert!(matches!(a.command, CommandKind::Run { trace: Some(TraceTarget::File(ref p)), output: None } if p == "trace.json"));
    let a = parse_args(&strings(&["--build", "--out", "a.out", "m.mica"])).expect("valid");
    assert!(matches!(a.command, CommandKind::Build { output: Some(ref p) } if p == "a.out"));
}

#[test]
fn command_line_errors_name_the_problem() {
    let err = |v: &[&str]| parse_args(&strings(v)).expect_err("invalid").message;
    assert_eq!(err(&[]), "missing input file");
    assert_eq!(err(&["--check"]), "missing input file");
    assert_eq!(err(&["--trace-json", "t", "f.mica"]), "--trace-json is only supported with --run");
    assert_eq!(err(&["a.mica", "b.mica"]), "unexpected extra argument 'b.mica'");
    assert_eq!(err(&["--out"]), "expected output path after --out");
    assert_eq!(err(&["--run", "--trace-json"]), "expected output path after --trace-json");
    let e = parse_args(&strings(&["a", "b"])).expect_err("invalid");
    assert_eq!(e.span, None);
}

#[test]
fn ir_instruction_kinds_as_json() {
    let bin = InstKind::Binary { op: BinaryOp::Le, lhs: ValueId(1), rhs: ValueId(2) };
    assert_eq!(ir_instruction_kind_json(&bin), "{\"kind\":\"Binary\",\"op\":\"<=\",\"lhs\":1,\"rhs\":2}");
    let call = InstKind::Call {
        func: FuncRef::Function(Path { segments: strings(&["io", "print"]) }),
        args: vec![ValueId(0), ValueId(3)],
    };
    assert_eq!(
        ir_instruction_kind_json(&call),
        "{\"kind\":\"Call\",\"function\":{\"type\":\"Function\",\"path\":[\"io\",\"print\"]},\"args\":[0,3]}"
    );
    let lit = InstKind::Literal(Literal::Int(-7));
    assert_eq!(ir_instruction_kind_json(&lit), "{\"kind\":\"Literal\",\"value\":{\"type\":\"Int\",\"value\":-7}}");
    let rec = InstKind::Record { type_path: None, fields: vec![("x".to_string(), ValueId(4))] };
    assert_eq!(
        ir_instruction_kind_json(&rec),
        "{\"kind\":\"Record\",\"type_path\":null,\"fields\":[{\"name\":\"x\",\"value\":4}]}"
    );
    let phi = InstKind::Phi { incomings: vec![(BlockId(1), ValueId(5))] };
    assert_eq!(ir_instruction_kind_json(&phi), "{\"kind\":\"Phi\",\"incomings\":[{\"block\":1,\"value\":5}]}");
}

#[test]
fn ir_types_as_json() {
    let rec = Type::Record(RecordType {
        name: Some("P".to_string()),
        fields: vec![RecordField { name: "x".to_string(), ty: TypeId(2), offset: 0 }],
        size: 8,
        align: 8,
    });
    assert_eq!(
        ir_type_json(&rec),
        "{\"kind\":\"Record\",\"name\":\"P\",\"fields\":[{\"name\":\"x\",\"type\":2,\"offset\":0}],\"size\":8,\"align\":8}"
    );
    assert_eq!(ir_type_json(&Type::Named("IO".to_string())), "{\"kind\":\"Named\",\"name\":\"IO\"}");
}

#[test]
fn ir_module_as_json() {
    let mut types = TypeTable::new();
    let mut effects = EffectTable::new();
    let io = effects.intern("io".to_string());
    let _ = &mut types;
    let f = Function {
        name: "id".to_string(),
        params: vec![Param { name: "x".to_string(), ty: TypeId(2), value: ValueId(0) }],
        ret_type: TypeId(2),
        blocks: vec![BasicBlock {
            id: BlockId(0),
            instructions: vec![Instruction { id: ValueId(1), ty: TypeId(1), effects: vec![io], kind: InstKind::Path(Path { segments: strings(&["x"]) }) }],
            terminator: Terminator::Return(Some(ValueId(0))),
        }],
        effect_row: vec![io],
    };
    let m = Module { name: strings(&["m"]), functions: vec![f], types, effects };
    let json = ir_module_to_json(&m);
    assert!(json.starts_with("{\"name\":[\"m\"],\"functions\":[{\"name\":\"id\",\"ret_type\":2,\"effect_row\":[\"io\"],\"params\":[{\"name\":\"x\",\"type\":2,\"value\":0}],\"blocks\":[{\"id\":0,\"instructions\":[{\"id\":1,\"type\":1,\"effects\":[\"io\"],\"kind\":{\"kind\":\"Path\",\"segments\":[\"x\"]}}],\"terminator\":{\"kind\":\"Return\",\"value\":0}}]}],\"types\":[{\"id\":0,\"type\":{\"kind\":\""));
    assert!(json.ends_with("\"effects\":[{\"id\":0,\"name\":\"io\"}]}"));
    assert!(json.contains("{\"id\":2,\"type\":{\"kind\":\"Int\"}}"));
}
