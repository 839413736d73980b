use mica::semantics::resolve::{resolve_modules, CapabilityScope, PathKind, SymbolCategory, SymbolScope};
use mica::syntax::ast::{Block, Expr, Function, Item, LetStmt, Module, Param, Path, Stmt, TypeAlias, TypeExpr, UseDecl};
use mica::semantics::resolve::resolve_module;
use mica::syntax::parser::parse_module;

#[test]
fn tests_resolve_adts() {
    let m = parse_module("module m\ntype A = X | Y").expect("parse ok");
    let r = resolve_module(&m);
    assert!(r.adts.get("A").is_some());
    assert_eq!(r.adts.get("A").unwrap(), &vec!["X".to_string(), "Y".to_string()]);
}

#[test]
fn resolve_and_check_tests_resolve_adts() {
    let m = parse_module("module m\ntype A = X | Y").expect("parse ok");
    let r = resolve_module(&m);
    assert!(r.adts.get("A").is_some());
    assert_eq!(r.adts.get("A").unwrap(), &vec!["X".to_string(), "Y".to_string()]);
}

#[test]
fn variants_map_to_every_declaring_type() {
    let m = parse_module("module a.b\ntype A = X | Y\ntype B = Y(Int) | Z\ntype C = Int").expect("parse ok");
    let r = resolve_module(&m);
    assert_eq!(r.module, vec!["a".to_string(), "b".to_string()]);
    assert_eq!(r.adts.len(), 2);
    assert!(r.adts.get("C").is_none());
    assert_eq!(r.variant_to_adt.get("Y").unwrap(), &vec!["A".to_string(), "B".to_string()]);
    assert_eq!(r.variant_to_adt.get("X").unwrap(), &vec!["A".to_string()]);
    assert_eq!(r.variant_to_adt.get("Z").unwrap(), &vec!["B".to_string()]);
    assert!(r.imports.is_empty());
    let names: Vec<&str> = r.symbols.iter().map(|s| s.name.as_str()).collect();
    assert_eq!(names, vec!["A", "X", "Y", "B", "Y", "Z", "C"]);
    assert_eq!(r.resolved_paths.len(), 2);
    assert!(r.resolved_paths.iter().all(|p| p.segments == vec!["Int".to_string()] && p.resolved.is_none()));
}

#[test]
fn resolve_collects_symbols_and_paths() {
    let module = Module {
        name: vec!["demo".into()],
        items: vec![
            Item::Use(UseDecl { path: vec!["math".into(), "add".into()], alias: Some("plus".into()) }),
            Item::TypeAlias(TypeAlias {
                is_public: false,
                name: "Pair".into(),
                params: vec!["T".into()],
                value: TypeExpr::Tuple(vec![TypeExpr::Name("T".into()), TypeExpr::Name("T".into())]),
            }),
            Item::Function(Function {
                is_public: false,
                name: "project".into(),
                generics: vec!["T".into()],
                params: vec![Param {
                    name: "pair".into(),
                    ty: TypeExpr::Generic("Pair".into(), vec![TypeExpr::Name("T".into())]),
                    mutable: false,
                }],
                return_type: Some(TypeExpr::Name("T".into())),
                effect_row: vec!["io".into()],
                body: Block {
                    statements: vec![
                        Stmt::Let(LetStmt {
                            mutable: false,
                            name: "first".into(),
                            value: Expr::Path(Path { segments: vec!["pair".into()] }),
                        }),
                        Stmt::Expr(Expr::Path(Path { segments: vec!["first".into()] })),
                    ],
                },
            }),
        ],
    };

    let resolved = resolve_module(&module);

    assert!(resolved.imports.iter().any(|import| import.alias.as_deref() == Some("plus")));

    let type_symbol = resolved
        .symbols
        .iter()
        .find(|symbol| matches!(symbol.category, SymbolCategory::Type { .. }) && symbol.name == "Pair")
        .expect("type symbol recorded");
    assert!(matches!(type_symbol.scope, SymbolScope::Module(_)));

    assert!(resolved
        .symbols
        .iter()
        .any(|symbol| matches!(symbol.category, SymbolCategory::TypeParam) && symbol.name == "T"));

    let paths: Vec<_> =
        resolved.resolved_paths.iter().filter(|path| path.segments == vec!["Pair".to_string()]).collect();
    assert!(!paths.is_empty(), "expected to see resolved path for Pair, got {paths:?}");
    assert!(paths.iter().all(|path| matches!(path.kind, PathKind::Type)));

    assert!(resolved.capabilities.iter().any(|cap| {
        cap.name == "io"
            && matches!(cap.scope, CapabilityScope::Function { ref function, .. } if function == "project")
    }));
}

#[test]
fn type_alias_function_effect_row_records_capabilities() {
    let module = parse_module("module demo\n\
         type Handler = fn(Int) -> Int !{io}\n")
    .expect("parse ok");

    let resolved = resolve_module(&module);

    let capability = resolved.capabilities.iter().find(|cap| cap.name == "io").expect("type alias capability recorded");

    match &capability.scope {
        CapabilityScope::TypeAlias { alias_name, .. } => assert_eq!(alias_name, "Handler"),
        other => panic!("expected type alias capability scope, got {other:?}"),
    }
}

#[test]
fn resolve_variants_in_match_patterns_without_prefix() {
    let module = parse_module(
        "module demo\n\
         type Option[T] = Some(T) | None\n\
         fn unwrap(opt: Option[Int]) -> Int {\n\
           match opt {\n\
             Some(value) => value,\n\
             None => 0,\n\
           }\n\
         }\n",
    )
    .expect("parse ok");

    let resolved = resolve_module(&module);

    let some_variant = resolved
        .resolved_paths
        .iter()
        .find(|path| path.segments == vec!["Some".to_string()])
        .expect("expected resolved path for bare Some variant");

    assert!(matches!(some_variant.kind, PathKind::Variant));
    let variant_symbol = some_variant.resolved.as_ref().expect("variant should resolve to symbol");
    match &variant_symbol.category {
        SymbolCategory::Variant { parent } => assert_eq!(parent, "Option"),
        other => panic!("expected variant symbol, got {other:?}"),
    }

    assert!(resolved.symbols.iter().any(|symbol| {
        matches!(symbol.category, SymbolCategory::LocalBinding)
            && symbol.name == "value"
            && matches!(symbol.scope, SymbolScope::Function { ref function, .. } if function == "unwrap")
    }));
}

#[test]
fn inner_bindings_shadow_and_leave_with_their_scope() {
    let module = parse_module(
        "module demo\nfn f(x: Int) -> Int { let y = { let x = 1\n x }\n x }",
    )
    .expect("parse ok");
    let r = resolve_module(&module);
    let xs: Vec<_> = r
        .resolved_paths
        .iter()
        .filter(|p| p.segments == vec!["x".to_string()] && p.kind == PathKind::Value)
        .collect();
    assert_eq!(xs.len(), 2);
    assert!(matches!(xs[0].resolved.as_ref().unwrap().category, SymbolCategory::LocalBinding));
    assert!(matches!(xs[1].resolved.as_ref().unwrap().category, SymbolCategory::ValueParam));
}

#[test]
fn resolve_modules_resolves_each_module() {
    let a = parse_module("module a\nfn f(io: IO) !{io} { 1 }").expect("parse ok");
    let b = parse_module("module b\nuse a.f;\nfn g() { f }").expect("parse ok");
    let rs = resolve_modules(&vec![a, b]);
    assert_eq!(rs.len(), 2);
    assert_eq!(rs[0].capabilities.len(), 1);
    assert_eq!(rs[1].imports.len(), 1);
    assert_eq!(rs[1].imports[0].alias.as_deref(), Some("f"));
}
