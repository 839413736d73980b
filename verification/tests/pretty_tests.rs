use mica::pretty::module_to_string;
use mica::syntax::ast::{
    Block, Function, Item, Module, Param, TypeAlias, TypeExpr, TypeVariant, UseDecl,
};
use mica::syntax::parser::parse_module;

fn parse(src: &str) -> Module {
    parse_module(src).expect("parse ok")
}

#[test]
fn tests_pretty_print_snapshot() {
    let m = parse("module m\npub type Option[T] = Some(T) | None");
    let s = module_to_string(&m);
    assert!(s.contains("pub type Option[T] = Some(T) | None"));
}

#[test]
fn pretty_tests_pretty_print_snapshot() {
    let m = parse("module m\npub type Option[T] = Some(T) | None");
    let s = module_to_string(&m);
    assert!(s.contains("pub type Option[T] = Some(T) | None"));
}

#[test]
fn pretty_print_renders_each_type_form() {
    let module = Module {
        name: vec!["demo".into(), "app".into()],
        items: vec![
            Item::Use(UseDecl { path: vec!["std".into(), "io".into()], alias: Some("io".into()) }),
            Item::Use(UseDecl { path: vec!["net".into()], alias: None }),
            Item::TypeAlias(TypeAlias {
                is_public: true,
                name: "Result".into(),
                params: vec!["T".into(), "E".into()],
                value: TypeExpr::Sum(vec![
                    TypeVariant { name: "Ok".into(), fields: vec![TypeExpr::Name("T".into())] },
                    TypeVariant { name: "Err".into(), fields: vec![TypeExpr::Name("E".into())] },
                    TypeVariant { name: "Pending".into(), fields: vec![] },
                ]),
            }),
            Item::TypeAlias(TypeAlias {
                is_public: false,
                name: "Row".into(),
                params: vec![],
                value: TypeExpr::Record(vec![
                    ("id".into(), TypeExpr::Name("Int".into())),
                    ("data".into(), TypeExpr::Generic("Vec".into(), vec![TypeExpr::Name("Bytes".into())])),
                ]),
            }),
            Item::Function(Function {
                is_public: true,
                name: "process".into(),
                generics: vec!["T".into()],
                params: vec![
                    Param {
                        name: "input".into(),
                        mutable: false,
                        ty: TypeExpr::List(Box::new(TypeExpr::Name("T".into()))),
                    },
                    Param {
                        name: "handler".into(),
                        mutable: false,
                        ty: TypeExpr::Function {
                            params: vec![TypeExpr::Reference {
                                is_mut: true,
                                inner: Box::new(TypeExpr::Name("T".into())),
                            }],
                            return_type: Box::new(TypeExpr::Unit),
                            effect_row: vec!["io".into()],
                        },
                    },
                ],
                return_type: Some(TypeExpr::Tuple(vec![
                    TypeExpr::Unit,
                    TypeExpr::Reference { is_mut: false, inner: Box::new(TypeExpr::Name("Int".into())) },
                ])),
                effect_row: vec!["io".into(), "net".into()],
                body: Block { statements: vec![] },
            }),
            Item::Function(Function {
                is_public: false,
                name: "main".into(),
                generics: vec![],
                params: vec![],
                return_type: None,
                effect_row: vec![],
                body: Block { statements: vec![] },
            }),
        ],
    };
    let printed = module_to_string(&module);
    assert_eq!(
        printed,
        "module demo.app\n\
         use std.io as io;\n\
         use net;\n\
         pub type Result[T, E] = Ok(T) | Err(E) | Pending\n\
         type Row = { id: Int, data: Vec[Bytes] }\n\
         pub fn process[T](input: [T], handler: fn(&mut T) -> () !{io}) -> ((), &Int) !{io, net} { … }\n\
         fn main() { … }\n"
    );
}

#[test]
fn pretty_print_of_parsed_functions() {
    let m = parse("module jobs\nfn classify(result: TaskResult) -> Int { 1 }\nfn run(job_id: Int, io: IO) -> TaskResult !{io} { job_id }");
    let s = module_to_string(&m);
    assert!(s.starts_with("module jobs\n"));
    assert!(s.contains("fn classify(result: TaskResult) -> Int { … }\n"));
    assert!(s.contains("fn run(job_id: Int, io: IO) -> TaskResult !{io} { … }\n"));
}
