use mica::diagnostics::ErrorKind;
use mica::syntax::ast::{BinaryOp, Expr, Item, Literal, Module, Pattern, Stmt, TypeExpr, UnaryOp};
use mica::syntax::parser::parse_module;

fn parse(src: &str) -> Module {
    parse_module(src).expect("parse ok")
}

fn check_adt_sum() {
    let m = parse("module m\npub type Option[T] = Some(T) | None\npub type Result[T,E] = Ok(T) | Err(E)");
    assert_eq!(m.items.len(), 2);
    match &m.items[0] {
        Item::TypeAlias(ta) => {
            assert_eq!(ta.name, "Option");
            assert!(ta.is_public);
            assert_eq!(ta.params, vec!["T".to_string()]);
            match &ta.value {
                TypeExpr::Sum(vars) => {
                    let names: Vec<_> = vars.iter().map(|v| v.name.as_str()).collect();
                    assert_eq!(names, vec!["Some", "None"]);
                    assert!(matches!(&vars[0].fields[..], [TypeExpr::Name(n)] if n == "T"));
                    assert!(vars[1].fields.is_empty());
                }
                _ => panic!("expected sum"),
            }
        }
        _ => panic!("expected type alias"),
    }
}

#[test]
fn tests_parse_adt_sum() {
    check_adt_sum();
}

#[test]
fn parser_tests_parse_adt_sum() {
    check_adt_sum();
}

fn check_using_try_and_chan() {
    let src = r#"
      module demo
      fn main(io: IO) !{io} {
        using File::open("/tmp/x", io)? {
          let q = chan[Int](3)
          q
        }
      }
    "#;
    let m = parse(src);
    let f = match &m.items[0] {
        Item::Function(f) => f,
        _ => panic!(),
    };
    assert_eq!(f.effect_row, vec!["io".to_string()]);
    let stmts = &f.body.statements;
    if let Stmt::Expr(Expr::Using { binding, expr, body }) = &stmts[0] {
        assert!(binding.is_none());
        match &**expr {
            Expr::Try(inner) => match &**inner {
                Expr::Call { callee, .. } => match &**callee {
                    Expr::Path(p) => assert_eq!(p.segments, vec!["File", "open"]),
                    _ => panic!(),
                },
                _ => panic!(),
            },
            _ => panic!(),
        }
        if let Stmt::Let(l) = &body.statements[0] {
            match &l.value {
                Expr::Chan { ty, capacity } => {
                    match &**ty {
                        TypeExpr::Name(n) => assert_eq!(n, "Int"),
                        _ => panic!(),
                    }
                    assert!(matches!(capacity, Some(_)));
                }
                _ => panic!(),
            }
        } else {
            panic!()
        }
    } else {
        panic!()
    }
}

#[test]
fn tests_parse_using_try_and_chan() {
    check_using_try_and_chan();
}

#[test]
fn parser_tests_parse_using_try_and_chan() {
    check_using_try_and_chan();
}

fn check_list_type() {
    let m = parse("module m\nfn g(x: [Int]) { x }");
    let f = match &m.items[0] {
        Item::Function(f) => f,
        _ => panic!(),
    };
    match &f.params[0].ty {
        TypeExpr::List(inner) => match &**inner {
            TypeExpr::Name(n) => assert_eq!(n, "Int"),
            _ => panic!(),
        },
        _ => panic!(),
    }
}

#[test]
fn tests_list_type_parses() {
    check_list_type();
}

#[test]
fn parser_tests_list_type_parses() {
    check_list_type();
}

#[test]
fn operators_bind_by_precedence_and_associate_left() {
    let m = parse("module m\nfn f(a: Int, b: Int) -> Bool { a + b * 2 - 1 < 3 && !done || x == y }");
    let f = match &m.items[0] {
        Item::Function(f) => f,
        _ => panic!(),
    };
    let e = match &f.body.statements[0] {
        Stmt::Expr(e) => e,
        _ => panic!(),
    };
    // ((((a + (b * 2)) - 1) < 3) && !done) || (x == y)
    match e {
        Expr::Binary { lhs, op: BinaryOp::Or, rhs } => {
            assert!(matches!(&**rhs, Expr::Binary { op: BinaryOp::Eq, .. }));
            match &**lhs {
                Expr::Binary { lhs, op: BinaryOp::And, rhs } => {
                    assert!(matches!(&**rhs, Expr::Unary { op: UnaryOp::Not, .. }));
                    match &**lhs {
                        Expr::Binary { lhs, op: BinaryOp::Lt, .. } => match &**lhs {
                            Expr::Binary { lhs, op: BinaryOp::Sub, .. } => {
                                assert!(matches!(&**lhs, Expr::Binary { op: BinaryOp::Add, rhs, .. }
                                    if matches!(&**rhs, Expr::Binary { op: BinaryOp::Mul, .. })));
                            }
                            _ => panic!("expected subtraction"),
                        },
                        _ => panic!("expected comparison"),
                    }
                }
                _ => panic!("expected conjunction"),
            }
        }
        other => panic!("expected disjunction, got {other:?}"),
    }
}

#[test]
fn patterns_distinguish_variants_from_bindings() {
    let src = "module m\ntype S = A | B(Int)\nfn f(x: S) -> Int { match x { A => 1, B(n) => n, other if true => 2, _ => 0 } }";
    let m = parse(src);
    let f = match &m.items[1] {
        Item::Function(f) => f,
        _ => panic!(),
    };
    let arms = match &f.body.statements[0] {
        Stmt::Expr(Expr::Match { arms, .. }) => arms,
        _ => panic!(),
    };
    assert!(matches!(&arms[0].pattern, Pattern::EnumVariant { path, fields } if path.segments == vec!["A"] && fields.is_empty()));
    assert!(matches!(&arms[1].pattern, Pattern::EnumVariant { fields, .. } if matches!(&fields[..], [Pattern::Binding(n)] if n == "n")));
    assert!(matches!(&arms[2].pattern, Pattern::Binding(n) if n == "other"));
    assert!(arms[2].guard.is_some());
    assert!(matches!(&arms[3].pattern, Pattern::Wildcard));
}

#[test]
fn statements_control_flow_and_literals() {
    let src = "module a.b\nuse std.io as sio;\nfn f() { let mut x = 1; while x < 3 { x = x + 1 } for i in xs { loop { break } } if x { return; } else if y { continue } else { 2.5 } return \"s\"; }";
    let m = parse(src);
    assert_eq!(m.name, vec!["a".to_string(), "b".to_string()]);
    match &m.items[0] {
        Item::Use(u) => {
            assert_eq!(u.path, vec!["std".to_string(), "io".to_string()]);
            assert_eq!(u.alias.as_deref(), Some("sio"));
        }
        _ => panic!(),
    }
    let f = match &m.items[1] {
        Item::Function(f) => f,
        _ => panic!(),
    };
    let ss = &f.body.statements;
    assert!(matches!(&ss[0], Stmt::Let(l) if l.mutable && l.name == "x"));
    assert!(matches!(&ss[1], Stmt::Expr(Expr::While { .. })));
    assert!(matches!(&ss[2], Stmt::Expr(Expr::For { binding, .. }) if binding == "i"));
    match &ss[3] {
        Stmt::Expr(Expr::If { else_branch: Some(e), .. }) => assert!(matches!(&**e, Expr::If { .. })),
        _ => panic!(),
    }
    assert!(matches!(&ss[4], Stmt::Return(Some(Expr::Literal(Literal::String(s)))) if s == "s"));
    assert_eq!(ss.len(), 5);
}

#[test]
fn types_of_every_form() {
    let src = "module m\ntype R = { a: Int, f: fn(Int, &mut T) -> () !{io} }\ntype P = (Int, Bool)\ntype G = Map[String, [Int]]";
    let m = parse(src);
    match &m.items[0] {
        Item::TypeAlias(ta) => match &ta.value {
            TypeExpr::Record(fields) => {
                assert_eq!(fields[0].0, "a");
                match &fields[1].1 {
                    TypeExpr::Function { params, return_type, effect_row } => {
                        assert!(matches!(&params[1], TypeExpr::Reference { is_mut: true, .. }));
                        assert!(matches!(&**return_type, TypeExpr::Unit));
                        assert_eq!(effect_row, &vec!["io".to_string()]);
                    }
                    _ => panic!(),
                }
            }
            _ => panic!(),
        },
        _ => panic!(),
    }
    assert!(matches!(&m.items[1], Item::TypeAlias(ta) if matches!(&ta.value, TypeExpr::Tuple(items) if items.len() == 2)));
    assert!(matches!(&m.items[2], Item::TypeAlias(ta) if matches!(&ta.value, TypeExpr::Generic(n, args) if n == "Map" && args.len() == 2)));
}

#[test]
fn parse_errors_carry_positions_and_messages() {
    let err = parse_module("fn f() {}").expect_err("missing module header");
    assert_eq!(err.kind, ErrorKind::Parse);
    assert_eq!(err.message, "expected 'module' at top of file");
    assert_eq!(err.span, Some((0, 2)));

    let err = parse_module("module broken\nfn missing_brace(x: Int) {").expect_err("unterminated block");
    assert_eq!(err.kind, ErrorKind::Parse);
    assert_eq!(err.message, "expected '}' to close block");

    let err = parse_module("module m\nfn f() { ) }").expect_err("bad expression");
    assert_eq!(err.message, "unexpected token in expression: RParen");
    assert_eq!(err.span, Some((18, 19)));

    let err = parse_module("module m\npub let").expect_err("bad item");
    assert_eq!(err.message, "expected 'fn' or 'type' after 'pub'");

    let err = parse_module("module m\nfn f() { \"oops }").expect_err("lexical error");
    assert_eq!(err.kind, ErrorKind::Lex);
}
