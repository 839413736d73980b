use mica::semantics::check::{check_exhaustiveness, check_module, Diagnostic};
use mica::syntax::ast::{
    Block, Expr, Function, Item, Literal, MatchArm, Module, Param, Path, Pattern, Stmt, TypeAlias,
    TypeExpr, TypeVariant,
};

fn s(x: &str) -> String {
    x.to_string()
}

fn sum_type(name: &str, variants: &[&str]) -> Item {
    Item::TypeAlias(TypeAlias {
        is_public: false,
        name: s(name),
        params: vec![],
        value: TypeExpr::Sum(
            variants
                .iter()
                .map(|v| TypeVariant { name: s(v), fields: vec![] })
                .collect(),
        ),
    })
}

fn function(name: &str, params: Vec<(&str, &str)>, ret: Option<&str>, effects: &[&str], body: Vec<Stmt>) -> Item {
    Item::Function(Function {
        is_public: false,
        name: s(name),
        generics: vec![],
        params: params
            .into_iter()
            .map(|(n, t)| Param { name: s(n), ty: TypeExpr::Name(s(t)), mutable: false })
            .collect(),
        return_type: ret.map(|t| TypeExpr::Name(s(t))),
        effect_row: effects.iter().map(|e| s(e)).collect(),
        body: Block { statements: body },
    })
}

fn path(segments: &[&str]) -> Path {
    Path { segments: segments.iter().map(|x| s(x)).collect() }
}

fn int_lit(v: i64) -> Expr {
    Expr::Literal(Literal::Int(v))
}

fn arm(variant: &str, body: Expr) -> MatchArm {
    MatchArm {
        pattern: Pattern::EnumVariant { path: path(&[variant]), fields: vec![] },
        guard: None,
        body,
    }
}

fn match_on(scrutinee: &str, arms: Vec<MatchArm>) -> Expr {
    Expr::Match { scrutinee: Box::new(Expr::Path(path(&[scrutinee]))), arms }
}

fn module(name: &[&str], items: Vec<Item>) -> Module {
    Module { name: name.iter().map(|x| s(x)).collect(), items }
}

fn messages(diags: &[Diagnostic]) -> Vec<String> {
    diags.iter().map(|d| d.message.clone()).collect()
}

fn parse(src: &str) -> Module {
    mica::syntax::parser::parse_module(src).expect("parse ok")
}

#[test]
fn tests_exhaustiveness_checker() {
    let m1 = parse("module m\ntype S = A | B\nfn f(x: S) -> Int { match x { A => 1 } }");
    let diags = check_exhaustiveness(&m1);
    assert!(!diags.is_empty());

    let m2 = parse("module m\ntype S = A | B\nfn f(x: S) -> Int { match x { A => 1, B => 2 } }");
    let diags2 = check_exhaustiveness(&m2);
    assert!(diags2.is_empty());
}

#[test]
fn resolve_and_check_tests_exhaustiveness_checker() {
    let m1 = parse("module m\ntype S = A | B\nfn f(x: S) -> Int { match x { A => 1 } }");
    let diags = check_exhaustiveness(&m1);
    assert!(!diags.is_empty());

    let m2 = parse("module m\ntype S = A | B\nfn f(x: S) -> Int { match x { A => 1, B => 2 } }");
    let diags2 = check_exhaustiveness(&m2);
    assert!(diags2.is_empty());
}

#[test]
fn pipeline_reports_missing_variant_in_branchy_match() {
    let src = r#"
module pipeline.demo

type Response = Success | Failure | Retry

fn handle(resp: Response) -> Int {
  match resp {
    Success => 1,
    Retry => {
      let again = 0
      again
    },
  }
}
"#;
    let module = parse(src);
    let diags = check_exhaustiveness(&module);
    assert_eq!(diags.len(), 1, "expected a single diagnostic: {diags:?}");
    assert!(diags[0].message.contains("missing variants Failure"));
}

#[test]
fn hand_built_match_reports_missing_variant() {
    let retry_body = Expr::Block(Block {
        statements: vec![
            Stmt::Let(mica::syntax::ast::LetStmt { mutable: false, name: s("again"), value: int_lit(0) }),
            Stmt::Expr(Expr::Path(path(&["again"]))),
        ],
    });
    let m = module(
        &["pipeline", "demo"],
        vec![
            sum_type("Response", &["Success", "Failure", "Retry"]),
            function(
                "handle",
                vec![("resp", "Response")],
                Some("Int"),
                &[],
                vec![Stmt::Expr(match_on("resp", vec![arm("Success", int_lit(1)), arm("Retry", retry_body)]))],
            ),
        ],
    );
    let diags = check_exhaustiveness(&m);
    assert_eq!(messages(&diags), vec![s("non-exhaustive match for Response: missing variants Failure")]);
    assert!(check_module(&m).diagnostics.len() == 1);
}

#[test]
fn wildcard_or_binding_arm_makes_match_exhaustive() {
    let m = module(
        &["m"],
        vec![
            sum_type("S", &["A", "B", "C"]),
            function(
                "f",
                vec![("x", "S")],
                Some("Int"),
                &[],
                vec![Stmt::Expr(match_on(
                    "x",
                    vec![
                        arm("A", int_lit(1)),
                        MatchArm { pattern: Pattern::Wildcard, guard: None, body: int_lit(2) },
                    ],
                ))],
            ),
        ],
    );
    assert!(check_exhaustiveness(&m).is_empty());
    let m2 = module(
        &["m"],
        vec![
            sum_type("S", &["A", "B", "C"]),
            function("f", vec![("x", "S")], Some("Int"), &[], vec![Stmt::Expr(match_on("x", vec![arm("B", int_lit(1))]))]),
        ],
    );
    assert_eq!(messages(&check_exhaustiveness(&m2)), vec![s("non-exhaustive match for S: missing variants A, C")]);
}

#[test]
fn check_module_reports_return_type_mismatch() {
    let m = module(
        &["m"],
        vec![function("g", vec![], Some("Int"), &[], vec![Stmt::Expr(Expr::Literal(Literal::Bool(true)))])],
    );
    let r = check_module(&m);
    assert_eq!(messages(&r.diagnostics), vec![s("function 'g' returns 'Bool' but expected 'Int'")]);
}

#[test]
fn check_module_reports_capability_problems() {
    let m = module(&["m"], vec![function("h", vec![], None, &["io", "io"], vec![])]);
    let r = check_module(&m);
    assert_eq!(
        messages(&r.diagnostics),
        vec![
            s("function 'h' has duplicate capability 'io' in effect row"),
            s("function 'h' declares capability 'io' but has no parameter with that name"),
            s("function 'h' declares capability 'io' but has no parameter with that name"),
        ]
    );
    let ok = module(&["m"], vec![function("h", vec![("io", "IO")], None, &["io"], vec![])]);
    assert!(check_module(&ok).diagnostics.is_empty());
}

#[test]
fn check_module_reports_value_without_return_type_and_bad_condition() {
    let cond = Expr::If {
        condition: Box::new(int_lit(1)),
        then_branch: Box::new(Expr::Block(Block { statements: vec![Stmt::Expr(int_lit(2))] })),
        else_branch: Some(Box::new(Expr::Block(Block { statements: vec![Stmt::Expr(int_lit(3))] }))),
    };
    let m = module(
        &["m"],
        vec![
            function("k", vec![], None, &[], vec![Stmt::Expr(int_lit(1))]),
            function("c", vec![], Some("Int"), &[], vec![Stmt::Expr(cond)]),
        ],
    );
    let r = check_module(&m);
    assert_eq!(
        messages(&r.diagnostics),
        vec![
            s("function 'k' returns value of type 'Int' but is declared without return type"),
            s("if condition in 'c' is 'Int' but must be Bool"),
        ]
    );
}

#[test]
fn check_module_appends_exhaustiveness_after_function_diagnostics() {
    let m = module(
        &["m"],
        vec![
            sum_type("S", &["A", "B"]),
            function("f", vec![("x", "S")], Some("Int"), &[], vec![Stmt::Expr(match_on("x", vec![arm("A", int_lit(1))]))]),
            function("g", vec![], Some("Int"), &[], vec![Stmt::Expr(Expr::Literal(Literal::String(s("no"))))]),
        ],
    );
    let r = check_module(&m);
    assert_eq!(
        messages(&r.diagnostics),
        vec![
            s("function 'g' returns 'String' but expected 'Int'"),
            s("non-exhaustive match for S: missing variants B"),
        ]
    );
}
