use mica::diagnostics::{Error, ErrorKind};
use mica::syntax::ast::BinaryOp;

#[test]
fn error_display_formats() {
    let err = Error::lex(Some((1, 3)), "bad");
    assert_eq!(err.to_display_string(), "Lex error at 1..3: bad");

    let perr = Error::parse(None, "oops");
    assert_eq!(perr.to_display_string(), "Parse error: oops");

    assert_eq!(ErrorKind::Lex.to_display_string(), "lexical");
    assert_eq!(ErrorKind::Parse.to_display_string(), "parse");
}

#[test]
fn binary_op_display_covers_all_symbols() {
    let ops = [
        (BinaryOp::Add, "+"),
        (BinaryOp::Sub, "-"),
        (BinaryOp::Mul, "*"),
        (BinaryOp::Div, "/"),
        (BinaryOp::Mod, "%"),
        (BinaryOp::Eq, "=="),
        (BinaryOp::Ne, "!="),
        (BinaryOp::Lt, "<"),
        (BinaryOp::Le, "<="),
        (BinaryOp::Gt, ">"),
        (BinaryOp::Ge, ">="),
        (BinaryOp::And, "&&"),
        (BinaryOp::Or, "||"),
    ];

    for (op, expected) in ops {
        assert_eq!(op.to_display_string(), expected);
    }
}
