//! The parser: a recursive descent over the tokens of a module, stated as a
//! grammar over token sequences and carried out by functions that follow it.
use vstd::prelude::*;
use vstd::string::StrSliceExecFns;

use crate::diagnostics::{Error, ErrorKind, SpecError};
use crate::syntax::ast::{
    BinaryOp, Block, Expr, Function, Item, LetStmt, Literal, MatchArm, Module, Param, Path, Pattern, Stmt,
    TypeAlias, TypeExpr, TypeVariant, UnaryOp, UseDecl,
};
use crate::syntax::lexer::{byte_len, lex, spec_lex, token_views};
use crate::syntax::model::{
    alias_v, arms_v, block_v, expr_v, exprs_v, function_v, item_v, items_v, module_v, opt_str, param_v, params_v,
    pattern_v, patterns_v, stmt_v, use_v, variants_v,
    stmts_v, type_fields_v, type_v, types_v, BlockV, ExprV, FunctionV, ItemV, LiteralV, MatchArmV, ModuleV,
    ParamV, PatternV, StmtV, TypeAliasV, TypeExprV, TypeVariantV, UseDeclV,
};
use crate::syntax::token::{SpecToken, SpecTokenKind, Token, TokenKind, TokenKindOf};
use crate::text::{copy_string, push_str, to_owned_string, views};

verus! {

// ---------------------------------------------------------------------------
// Tokens
// ---------------------------------------------------------------------------

/// The variant of a token kind, as a number.
pub open spec fn kind_tag(k: SpecTokenKind) -> u8 {
    match k {
        TokenKindOf::Module => 0,
        TokenKindOf::Pub => 1,
        TokenKindOf::Fn => 2,
        TokenKindOf::Type => 3,
        TokenKindOf::Impl => 4,
        TokenKindOf::Use => 5,
        TokenKindOf::Let => 6,
        TokenKindOf::Mut => 7,
        TokenKindOf::Return => 8,
        TokenKindOf::If => 9,
        TokenKindOf::Else => 10,
        TokenKindOf::Match => 11,
        TokenKindOf::For => 12,
        TokenKindOf::In => 13,
        TokenKindOf::Loop => 14,
        TokenKindOf::While => 15,
        TokenKindOf::Break => 16,
        TokenKindOf::Continue => 17,
        TokenKindOf::Spawn => 18,
        TokenKindOf::Await => 19,
        TokenKindOf::Chan => 20,
        TokenKindOf::Using => 21,
        TokenKindOf::As => 22,
        TokenKindOf::Identifier(_) => 23,
        TokenKindOf::IntLiteral(_) => 24,
        TokenKindOf::FloatLiteral(_) => 25,
        TokenKindOf::StringLiteral(_) => 26,
        TokenKindOf::BoolLiteral(_) => 27,
        TokenKindOf::LParen => 28,
        TokenKindOf::RParen => 29,
        TokenKindOf::LBrace => 30,
        TokenKindOf::RBrace => 31,
        TokenKindOf::LBracket => 32,
        TokenKindOf::RBracket => 33,
        TokenKindOf::Comma => 34,
        TokenKindOf::Colon => 35,
        TokenKindOf::DoubleColon => 36,
        TokenKindOf::Semi => 37,
        TokenKindOf::Dot => 38,
        TokenKindOf::ThinArrow => 39,
        TokenKindOf::FatArrow => 40,
        TokenKindOf::Assign => 41,
        TokenKindOf::Plus => 42,
        TokenKindOf::Minus => 43,
        TokenKindOf::Star => 44,
        TokenKindOf::Slash => 45,
        TokenKindOf::Percent => 46,
        TokenKindOf::Ampersand => 47,
        TokenKindOf::Pipe => 48,
        TokenKindOf::Question => 49,
        TokenKindOf::Bang => 50,
        TokenKindOf::EqEq => 51,
        TokenKindOf::NotEq => 52,
        TokenKindOf::Lt => 53,
        TokenKindOf::Le => 54,
        TokenKindOf::Gt => 55,
        TokenKindOf::Ge => 56,
        TokenKindOf::AndAnd => 57,
        TokenKindOf::OrOr => 58,
        TokenKindOf::Eof => 59,
    }
}

/// The name of a token kind's variant, as its debug rendering shows it
/// for a kind without payload.
pub open spec fn kind_name(k: SpecTokenKind) -> Seq<char> {
    match k {
        TokenKindOf::Module => "Module"@,
        TokenKindOf::Pub => "Pub"@,
        TokenKindOf::Fn => "Fn"@,
        TokenKindOf::Type => "Type"@,
        TokenKindOf::Impl => "Impl"@,
        TokenKindOf::Use => "Use"@,
        TokenKindOf::Let => "Let"@,
        TokenKindOf::Mut => "Mut"@,
        TokenKindOf::Return => "Return"@,
        TokenKindOf::If => "If"@,
        TokenKindOf::Else => "Else"@,
        TokenKindOf::Match => "Match"@,
        TokenKindOf::For => "For"@,
        TokenKindOf::In => "In"@,
        TokenKindOf::Loop => "Loop"@,
        TokenKindOf::While => "While"@,
        TokenKindOf::Break => "Break"@,
        TokenKindOf::Continue => "Continue"@,
        TokenKindOf::Spawn => "Spawn"@,
        TokenKindOf::Await => "Await"@,
        TokenKindOf::Chan => "Chan"@,
        TokenKindOf::Using => "Using"@,
        TokenKindOf::As => "As"@,
        TokenKindOf::Identifier(_) => "Identifier"@,
        TokenKindOf::IntLiteral(_) => "IntLiteral"@,
        TokenKindOf::FloatLiteral(_) => "FloatLiteral"@,
        TokenKindOf::StringLiteral(_) => "StringLiteral"@,
        TokenKindOf::BoolLiteral(_) => "BoolLiteral"@,
        TokenKindOf::LParen => "LParen"@,
        TokenKindOf::RParen => "RParen"@,
        TokenKindOf::LBrace => "LBrace"@,
        TokenKindOf::RBrace => "RBrace"@,
        TokenKindOf::LBracket => "LBracket"@,
        TokenKindOf::RBracket => "RBracket"@,
        TokenKindOf::Comma => "Comma"@,
        TokenKindOf::Colon => "Colon"@,
        TokenKindOf::DoubleColon => "DoubleColon"@,
        TokenKindOf::Semi => "Semi"@,
        TokenKindOf::Dot => "Dot"@,
        TokenKindOf::ThinArrow => "ThinArrow"@,
        TokenKindOf::FatArrow => "FatArrow"@,
        TokenKindOf::Assign => "Assign"@,
        TokenKindOf::Plus => "Plus"@,
        TokenKindOf::Minus => "Minus"@,
        TokenKindOf::Star => "Star"@,
        TokenKindOf::Slash => "Slash"@,
        TokenKindOf::Percent => "Percent"@,
        TokenKindOf::Ampersand => "Ampersand"@,
        TokenKindOf::Pipe => "Pipe"@,
        TokenKindOf::Question => "Question"@,
        TokenKindOf::Bang => "Bang"@,
        TokenKindOf::EqEq => "EqEq"@,
        TokenKindOf::NotEq => "NotEq"@,
        TokenKindOf::Lt => "Lt"@,
        TokenKindOf::Le => "Le"@,
        TokenKindOf::Gt => "Gt"@,
        TokenKindOf::Ge => "Ge"@,
        TokenKindOf::AndAnd => "AndAnd"@,
        TokenKindOf::OrOr => "OrOr"@,
        TokenKindOf::Eof => "Eof"@,
    }
}


/// A parse of some node: the node and the position after it, or an error.
pub type Parsed<T> = Result<(T, int), SpecError>;

/// The kind of the token at `p`; `Eof` past either end.
pub open spec fn kind_at(t: Seq<SpecToken>, p: int) -> SpecTokenKind {
    if 0 <= p < t.len() {
        t[p].kind
    } else {
        TokenKindOf::Eof
    }
}

/// The span of the token at `p`; empty at 0 past either end.
pub open spec fn span_at(t: Seq<SpecToken>, p: int) -> (usize, usize) {
    if 0 <= p < t.len() {
        t[p].span
    } else {
        (0, 0)
    }
}

/// Whether the token at `p` has the variant of `k`.
pub open spec fn at(t: Seq<SpecToken>, p: int, k: SpecTokenKind) -> bool {
    kind_tag(kind_at(t, p)) == kind_tag(k)
}

/// A parse error at the token at `p`.
pub open spec fn perr(t: Seq<SpecToken>, p: int, m: Seq<char>) -> SpecError {
    SpecError { kind: ErrorKind::Parse, span: Some(span_at(t, p)), message: m }
}

/// The position after an optional `k` at `p`.
pub open spec fn skip(t: Seq<SpecToken>, p: int, k: SpecTokenKind) -> int {
    if at(t, p, k) {
        p + 1
    } else {
        p
    }
}

/// The position after a required `k` at `p`.
pub open spec fn expect(t: Seq<SpecToken>, p: int, k: SpecTokenKind, m: Seq<char>) -> Result<int, SpecError> {
    if at(t, p, k) {
        Ok(p + 1)
    } else {
        Err(perr(t, p, m))
    }
}

/// The identifier at `p`.
pub open spec fn ident(t: Seq<SpecToken>, p: int) -> Parsed<Seq<char>> {
    match kind_at(t, p) {
        TokenKindOf::Identifier(n) => Ok((n, p + 1)),
        _ => Err(perr(t, p, "expected identifier"@)),
    }
}

/// Whether a parse from `p` ended at `q` having consumed tokens. Every parse
/// that succeeds does; the grammar checks it where it continues from a
/// parse's end.
pub open spec fn fwd(t: Seq<SpecToken>, p: int, q: int) -> bool {
    p < q <= t.len()
}

/// The error where a parse would not have consumed anything (never the
/// case).
pub open spec fn stuck(t: Seq<SpecToken>, p: int) -> SpecError {
    perr(t, p, "parser made no progress"@)
}

/// Identifiers separated by commas, from `p`, after `acc`.
pub open spec fn ident_items(t: Seq<SpecToken>, p: int, acc: Seq<Seq<char>>) -> Parsed<Seq<Seq<char>>>
    decreases t.len() - p,
{
    match ident(t, p) {
        Ok((n, q)) => if at(t, q, TokenKindOf::Comma) {
            ident_items(t, q + 1, acc.push(n))
        } else {
            Ok((acc.push(n), q))
        },
        Err(e) => Err(e),
    }
}

/// A possibly empty comma-separated list of identifiers closed by `close`.
pub open spec fn ident_list(t: Seq<SpecToken>, p: int, close: SpecTokenKind, m: Seq<char>) -> Parsed<Seq<Seq<char>>> {
    let first = if at(t, p, close) {
        Ok((Seq::empty(), p))
    } else {
        ident_items(t, p, Seq::empty())
    };
    match first {
        Ok((items, q)) => match expect(t, q, close, m) {
            Ok(r) => Ok((items, r)),
            Err(e) => Err(e),
        },
        Err(e) => Err(e),
    }
}

/// The rest of a path after `segs`, from `p`: segments separated by `::`
/// when `colons` holds (paths in expressions and patterns, where `.` is
/// field access), by `.` otherwise (module names and imports).
pub open spec fn path_rest(t: Seq<SpecToken>, segs: Seq<Seq<char>>, p: int, colons: bool) -> Parsed<Seq<Seq<char>>>
    decreases t.len() - p,
{
    if (!colons && at(t, p, TokenKindOf::Dot)) || (colons && at(t, p, TokenKindOf::DoubleColon)) {
        match ident(t, p + 1) {
            Ok((n, q)) => path_rest(t, segs.push(n), q, colons),
            Err(e) => Err(e),
        }
    } else {
        Ok((segs, p))
    }
}

/// A path of identifiers separated by `::` when `colons` holds, by `.`
/// otherwise.
pub open spec fn path(t: Seq<SpecToken>, p: int, colons: bool) -> Parsed<Seq<Seq<char>>> {
    match ident(t, p) {
        Ok((n, q)) => path_rest(t, seq![n], q, colons),
        Err(e) => Err(e),
    }
}

// ---------------------------------------------------------------------------
// Types
// ---------------------------------------------------------------------------

/// A type.
pub open spec fn type_expr(t: Seq<SpecToken>, p: int) -> Parsed<TypeExprV>
    decreases t.len() - p, 0int,
{
    if at(t, p, TokenKindOf::Fn) {
        fn_type(t, p + 1)
    } else if at(t, p, TokenKindOf::LBrace) {
        let fields = if at(t, p + 1, TokenKindOf::RBrace) {
            Ok((Seq::empty(), p + 1))
        } else {
            field_items(t, p + 1, Seq::empty())
        };
        match fields {
            Ok((fs, q)) => match expect(t, q, TokenKindOf::RBrace, "expected '}' to close record type"@) {
                Ok(r) => Ok((TypeExprV::Record(fs), r)),
                Err(e) => Err(e),
            },
            Err(e) => Err(e),
        }
    } else if at(t, p, TokenKindOf::LBracket) {
        match type_expr(t, p + 1) {
            Ok((inner, q)) => match expect(t, q, TokenKindOf::RBracket, "expected ']' to close list type"@) {
                Ok(r) => Ok((TypeExprV::List(Box::new(inner)), r)),
                Err(e) => Err(e),
            },
            Err(e) => Err(e),
        }
    } else if at(t, p, TokenKindOf::Ampersand) {
        let is_mut = at(t, p + 1, TokenKindOf::Mut);
        match type_expr(t, skip(t, p + 1, TokenKindOf::Mut)) {
            Ok((inner, q)) => Ok((TypeExprV::Reference { is_mut, inner: Box::new(inner) }, q)),
            Err(e) => Err(e),
        }
    } else if at(t, p, TokenKindOf::LParen) {
        if at(t, p + 1, TokenKindOf::RParen) {
            Ok((TypeExprV::Unit, p + 2))
        } else {
            match type_items(t, p + 1, Seq::empty()) {
                Ok((items, q)) => match expect(t, q, TokenKindOf::RParen, "expected ')' in tuple type"@) {
                    Ok(r) => if items.len() == 1 {
                        Ok((items[0], r))
                    } else {
                        Ok((TypeExprV::Tuple(items), r))
                    },
                    Err(e) => Err(e),
                },
                Err(e) => Err(e),
            }
        }
    } else {
        match ident(t, p) {
            Ok((name, q)) => if at(t, q, TokenKindOf::LBracket) {
                match type_list(t, q + 1, TokenKindOf::RBracket) {
                    Ok((args, r)) => match expect(t, r, TokenKindOf::RBracket, "expected closing ']' in generic arguments"@) {
                        Ok(s) => Ok((TypeExprV::Generic(name, args), s)),
                        Err(e) => Err(e),
                    },
                    Err(e) => Err(e),
                }
            } else {
                Ok((TypeExprV::Name(name), q))
            },
            Err(e) => Err(e),
        }
    }
}

/// A function type after `fn`: `(params) -> ret`, with an optional effect
/// row.
pub open spec fn fn_type(t: Seq<SpecToken>, p: int) -> Parsed<TypeExprV>
    decreases t.len() - p, 0int,
{
    match expect(t, p, TokenKindOf::LParen, "expected '(' after 'fn' in function type"@) {
        Err(e) => Err(e),
        Ok(p2) => match type_list(t, p2, TokenKindOf::RParen) {
            Err(e) => Err(e),
            Ok((params, p3)) => match expect(t, p3, TokenKindOf::RParen, "expected ')' after function type parameters"@) {
                Err(e) => Err(e),
                Ok(p4) => match expect(t, p4, TokenKindOf::ThinArrow, "expected '->' in function type"@) {
                    Err(e) => Err(e),
                    Ok(p5) => if !fwd(t, p, p5) {
                        Err(stuck(t, p))
                    } else {
                        match type_expr(t, p5) {
                            Err(e) => Err(e),
                            Ok((ret, p6)) => {
                                let effs = if at(t, p6, TokenKindOf::Bang) {
                                    match expect(t, p6 + 1, TokenKindOf::LBrace, "expected '{' to open function type effect row"@) {
                                        Ok(p7) => ident_list(t, p7, TokenKindOf::RBrace, "expected '}' to close function type effect row"@),
                                        Err(e) => Err(e),
                                    }
                                } else {
                                    Ok((Seq::empty(), p6))
                                };
                                match effs {
                                    Ok((effects, p8)) => Ok((TypeExprV::Function { params, ret: Box::new(ret), effects }, p8)),
                                    Err(e) => Err(e),
                                }
                            },
                        }
                    },
                },
            },
        },
    }
}

/// Types separated by commas, from `p`, after `acc`.
pub open spec fn type_items(t: Seq<SpecToken>, p: int, acc: Seq<TypeExprV>) -> Parsed<Seq<TypeExprV>>
    decreases t.len() - p, 1int,
{
    match type_expr(t, p) {
        Ok((ty, q)) => if !fwd(t, p, q) {
            Err(stuck(t, p))
        } else if at(t, q, TokenKindOf::Comma) {
            type_items(t, q + 1, acc.push(ty))
        } else {
            Ok((acc.push(ty), q))
        },
        Err(e) => Err(e),
    }
}

/// A possibly empty comma-separated list of types before `close`.
pub open spec fn type_list(t: Seq<SpecToken>, p: int, close: SpecTokenKind) -> Parsed<Seq<TypeExprV>>
    decreases t.len() - p, 2int,
{
    if at(t, p, close) {
        Ok((Seq::empty(), p))
    } else {
        type_items(t, p, Seq::empty())
    }
}

/// Record fields `name: type` separated by commas, from `p`, after `acc`.
pub open spec fn field_items(t: Seq<SpecToken>, p: int, acc: Seq<(Seq<char>, TypeExprV)>) -> Parsed<Seq<(Seq<char>, TypeExprV)>>
    decreases t.len() - p, 1int,
{
    match ident(t, p) {
        Ok((name, q)) => match expect(t, q, TokenKindOf::Colon, "expected ':' in record type"@) {
            Ok(q2) => match type_expr(t, q2) {
                Ok((ty, r)) => if !fwd(t, p, r) {
                    Err(stuck(t, p))
                } else if at(t, r, TokenKindOf::Comma) {
                    field_items(t, r + 1, acc.push((name, ty)))
                } else {
                    Ok((acc.push((name, ty)), r))
                },
                Err(e) => Err(e),
            },
            Err(e) => Err(e),
        },
        Err(e) => Err(e),
    }
}

// ---------------------------------------------------------------------------
// Patterns
// ---------------------------------------------------------------------------

/// Whether a name starts with an ASCII capital letter, as variant names do.
pub open spec fn starts_upper(n: Seq<char>) -> bool {
    n.len() > 0 && 'A' <= n[0] <= 'Z'
}

/// A pattern.
pub open spec fn pattern(t: Seq<SpecToken>, p: int) -> Parsed<PatternV>
    decreases t.len() - p, 0int,
{
    match kind_at(t, p) {
        TokenKindOf::Identifier(name) => if name == "_"@ {
            Ok((PatternV::Wildcard, p + 1))
        } else {
            match path(t, p, true) {
                Ok((segs, q)) => if !fwd(t, p, q) {
                    Err(stuck(t, p))
                } else if at(t, q, TokenKindOf::LParen) {
                    let fields = if at(t, q + 1, TokenKindOf::RParen) {
                        Ok((Seq::empty(), q + 1))
                    } else {
                        pattern_items(t, q + 1, Seq::empty())
                    };
                    match fields {
                        Ok((fs, r)) => match expect(t, r, TokenKindOf::RParen, "expected ')' in pattern"@) {
                            Ok(s) => Ok((PatternV::EnumVariant { path: segs, fields: fs }, s)),
                            Err(e) => Err(e),
                        },
                        Err(e) => Err(e),
                    }
                } else if segs.len() == 1 && !starts_upper(segs[0]) {
                    Ok((PatternV::Binding(segs[0]), q))
                } else {
                    Ok((PatternV::EnumVariant { path: segs, fields: Seq::empty() }, q))
                },
                Err(e) => Err(e),
            }
        },
        TokenKindOf::BoolLiteral(b) => Ok((PatternV::Literal(LiteralV::Bool(b)), p + 1)),
        TokenKindOf::IntLiteral(v) => Ok((PatternV::Literal(LiteralV::Int(v)), p + 1)),
        TokenKindOf::StringLiteral(s) => Ok((PatternV::Literal(LiteralV::String(s)), p + 1)),
        _ => Err(perr(t, p, "unsupported pattern"@)),
    }
}

/// Patterns separated by commas, from `p`, after `acc`.
pub open spec fn pattern_items(t: Seq<SpecToken>, p: int, acc: Seq<PatternV>) -> Parsed<Seq<PatternV>>
    decreases t.len() - p, 1int,
{
    match pattern(t, p) {
        Ok((x, q)) => if !fwd(t, p, q) {
            Err(stuck(t, p))
        } else if at(t, q, TokenKindOf::Comma) {
            pattern_items(t, q + 1, acc.push(x))
        } else {
            Ok((acc.push(x), q))
        },
        Err(e) => Err(e),
    }
}

// ---------------------------------------------------------------------------
// Expressions and statements
// ---------------------------------------------------------------------------

/// The binary operator at `p` that binds at level `lvl`: 12 `||`, 11 `&&`,
/// 10 equality, 9 comparison, 8 `+ -`, 7 `* / %`.
pub open spec fn op_at(t: Seq<SpecToken>, p: int, lvl: int) -> Option<BinaryOp> {
    let k = kind_at(t, p);
    if lvl == 12 && k is OrOr {
        Some(BinaryOp::Or)
    } else if lvl == 11 && k is AndAnd {
        Some(BinaryOp::And)
    } else if lvl == 10 && k is EqEq {
        Some(BinaryOp::Eq)
    } else if lvl == 10 && k is NotEq {
        Some(BinaryOp::Ne)
    } else if lvl == 9 && k is Lt {
        Some(BinaryOp::Lt)
    } else if lvl == 9 && k is Le {
        Some(BinaryOp::Le)
    } else if lvl == 9 && k is Gt {
        Some(BinaryOp::Gt)
    } else if lvl == 9 && k is Ge {
        Some(BinaryOp::Ge)
    } else if lvl == 8 && k is Plus {
        Some(BinaryOp::Add)
    } else if lvl == 8 && k is Minus {
        Some(BinaryOp::Sub)
    } else if lvl == 7 && k is Star {
        Some(BinaryOp::Mul)
    } else if lvl == 7 && k is Slash {
        Some(BinaryOp::Div)
    } else if lvl == 7 && k is Percent {
        Some(BinaryOp::Mod)
    } else {
        None
    }
}

/// An expression.
pub open spec fn expression(t: Seq<SpecToken>, p: int) -> Parsed<ExprV>
    decreases t.len() - p, 14int,
{
    assignment(t, p)
}

/// An assignment `target = value` (right associative), or an operand.
pub open spec fn assignment(t: Seq<SpecToken>, p: int) -> Parsed<ExprV>
    decreases t.len() - p, 13int,
{
    match binary(t, p, 12) {
        Ok((lhs, q)) => if !fwd(t, p, q) {
            Err(stuck(t, p))
        } else if at(t, q, TokenKindOf::Assign) {
            match assignment(t, q + 1) {
                Ok((v, r)) => Ok((ExprV::Assignment { target: Box::new(lhs), value: Box::new(v) }, r)),
                Err(e) => Err(e),
            }
        } else {
            Ok((lhs, q))
        },
        Err(e) => Err(e),
    }
}

/// Operands of level `lvl - 1` joined, left to right, by operators of
/// level `lvl`; level 7 joins unary expressions.
pub open spec fn binary(t: Seq<SpecToken>, p: int, lvl: int) -> Parsed<ExprV>
    decreases t.len() - p, if lvl < 7 { 7int } else { lvl },
{
    let first = if lvl <= 7 {
        unary(t, p)
    } else {
        binary(t, p, lvl - 1)
    };
    match first {
        Ok((lhs, q)) => if !fwd(t, p, q) {
            Err(stuck(t, p))
        } else {
            binary_rest(t, lhs, q, lvl)
        },
        Err(e) => Err(e),
    }
}

/// The operators of level `lvl` and their right operands from `p`, folded
/// onto `lhs`.
pub open spec fn binary_rest(t: Seq<SpecToken>, lhs: ExprV, p: int, lvl: int) -> Parsed<ExprV>
    decreases t.len() - p, if lvl < 7 { 7int } else { lvl },
{
    match op_at(t, p, lvl) {
        Some(op) => {
            let rhs = if lvl <= 7 {
                unary(t, p + 1)
            } else {
                binary(t, p + 1, lvl - 1)
            };
            match rhs {
                Ok((r, q)) => if !fwd(t, p, q) {
                    Err(stuck(t, p))
                } else {
                    binary_rest(t, ExprV::Binary { lhs: Box::new(lhs), op, rhs: Box::new(r) }, q, lvl)
                },
                Err(e) => Err(e),
            }
        },
        None => Ok((lhs, p)),
    }
}

/// A prefix operator applied to a unary expression, or a postfix
/// expression.
pub open spec fn unary(t: Seq<SpecToken>, p: int) -> Parsed<ExprV>
    decreases t.len() - p, 6int,
{
    if at(t, p, TokenKindOf::Bang) || at(t, p, TokenKindOf::Minus) || at(t, p, TokenKindOf::Ampersand)
        || at(t, p, TokenKindOf::Await) || at(t, p, TokenKindOf::Spawn) {
        match unary(t, p + 1) {
            Ok((x, q)) => Ok((unary_node(t, p, x), q)),
            Err(e) => Err(e),
        }
    } else {
        postfix(t, p)
    }
}

/// The node a prefix operator at `p` makes of its operand.
pub open spec fn unary_node(t: Seq<SpecToken>, p: int, x: ExprV) -> ExprV {
    let b = Box::new(x);
    if at(t, p, TokenKindOf::Bang) {
        ExprV::Unary { op: UnaryOp::Not, expr: b }
    } else if at(t, p, TokenKindOf::Minus) {
        ExprV::Unary { op: UnaryOp::Neg, expr: b }
    } else if at(t, p, TokenKindOf::Ampersand) {
        ExprV::Unary { op: UnaryOp::Ref, expr: b }
    } else if at(t, p, TokenKindOf::Await) {
        ExprV::Await(b)
    } else {
        ExprV::Spawn(b)
    }
}

/// A primary expression followed by calls, field accesses and indexing.
pub open spec fn postfix(t: Seq<SpecToken>, p: int) -> Parsed<ExprV>
    decreases t.len() - p, 5int,
{
    match primary(t, p) {
        Ok((e, q)) => if !fwd(t, p, q) {
            Err(stuck(t, p))
        } else {
            postfix_rest(t, e, q)
        },
        Err(e) => Err(e),
    }
}

/// The calls, field accesses and indexing from `p`, applied to `e`.
pub open spec fn postfix_rest(t: Seq<SpecToken>, e: ExprV, p: int) -> Parsed<ExprV>
    decreases t.len() - p, 5int,
{
    if at(t, p, TokenKindOf::LParen) {
        let args = if at(t, p + 1, TokenKindOf::RParen) {
            Ok((Seq::empty(), p + 1))
        } else {
            args_items(t, p + 1, Seq::empty())
        };
        match args {
            Ok((a, q)) => match expect(t, q, TokenKindOf::RParen, "expected ')' after call arguments"@) {
                Ok(r) => if !fwd(t, p, r) {
                    Err(stuck(t, p))
                } else {
                    postfix_rest(t, ExprV::Call { callee: Box::new(e), args: a }, r)
                },
                Err(err) => Err(err),
            },
            Err(err) => Err(err),
        }
    } else if at(t, p, TokenKindOf::Dot) {
        match ident(t, p + 1) {
            Ok((name, q)) => postfix_rest(t, ExprV::Field { expr: Box::new(e), name }, q),
            Err(err) => Err(err),
        }
    } else if at(t, p, TokenKindOf::Question) {
        postfix_rest(t, ExprV::Try(Box::new(e)), p + 1)
    } else if at(t, p, TokenKindOf::LBracket) {
        match expression(t, p + 1) {
            Ok((i, q)) => match expect(t, q, TokenKindOf::RBracket, "expected ']' after index expression"@) {
                Ok(r) => if !fwd(t, p, r) {
                    Err(stuck(t, p))
                } else {
                    postfix_rest(t, ExprV::Index { expr: Box::new(e), index: Box::new(i) }, r)
                },
                Err(err) => Err(err),
            },
            Err(err) => Err(err),
        }
    } else {
        Ok((e, p))
    }
}

/// Call arguments separated by commas, from `p`, after `acc`.
pub open spec fn args_items(t: Seq<SpecToken>, p: int, acc: Seq<ExprV>) -> Parsed<Seq<ExprV>>
    decreases t.len() - p, 15int,
{
    match expression(t, p) {
        Ok((a, q)) => if !fwd(t, p, q) {
            Err(stuck(t, p))
        } else if at(t, q, TokenKindOf::Comma) {
            args_items(t, q + 1, acc.push(a))
        } else {
            Ok((acc.push(a), q))
        },
        Err(e) => Err(e),
    }
}

/// A literal, a path, a parenthesised expression, a channel, a block or a
/// control-flow expression.
pub open spec fn primary(t: Seq<SpecToken>, p: int) -> Parsed<ExprV>
    decreases t.len() - p, 4int,
{
    let k = kind_at(t, p);
    if k is Chan {
        chan_expr(t, p)
    } else if k is If {
        if_expr(t, p)
    } else if k is Loop {
        loop_expr(t, p)
    } else if k is While {
        while_expr(t, p)
    } else if k is For {
        for_expr(t, p)
    } else if k is Match {
        match_expr(t, p)
    } else if k is Using {
        using_expr(t, p)
    } else if k is LBrace {
        match block(t, p) {
            Ok((b, q)) => Ok((ExprV::Block(b), q)),
            Err(e) => Err(e),
        }
    } else {
        atom(t, p)
    }
}

/// A literal, a path or a parenthesised expression; any other token is an
/// error.
pub open spec fn atom(t: Seq<SpecToken>, p: int) -> Parsed<ExprV>
    decreases t.len() - p, 3int,
{
    match kind_at(t, p) {
        TokenKindOf::IntLiteral(v) => Ok((ExprV::Literal(LiteralV::Int(v)), p + 1)),
        TokenKindOf::FloatLiteral(s) => Ok((ExprV::Literal(LiteralV::Float(s)), p + 1)),
        TokenKindOf::StringLiteral(s) => Ok((ExprV::Literal(LiteralV::String(s)), p + 1)),
        TokenKindOf::BoolLiteral(b) => Ok((ExprV::Literal(LiteralV::Bool(b)), p + 1)),
        TokenKindOf::Identifier(_) => match path(t, p, true) {
            Ok((segs, q)) => Ok((ExprV::Path(segs), q)),
            Err(e) => Err(e),
        },
        TokenKindOf::LParen => if at(t, p + 1, TokenKindOf::RParen) {
            Ok((ExprV::Literal(LiteralV::Unit), p + 2))
        } else {
            match expression(t, p + 1) {
                Ok((e, q)) => match expect(t, q, TokenKindOf::RParen, "expected ')' to close grouping expression"@) {
                    Ok(r) => Ok((e, r)),
                    Err(err) => Err(err),
                },
                Err(err) => Err(err),
            }
        },
        k => Err(perr(t, p, "unexpected token in expression: "@ + kind_name(k))),
    }
}

/// A channel `chan[T]` with an optional capacity `(n)`, from `chan`.
pub open spec fn chan_expr(t: Seq<SpecToken>, p: int) -> Parsed<ExprV>
    decreases t.len() - p, 3int,
{
    match expect(t, p + 1, TokenKindOf::LBracket, "expected '[' after 'chan'"@) {
        Ok(p2) => match type_expr(t, p2) {
            Ok((ty, p3)) => match expect(t, p3, TokenKindOf::RBracket, "expected ']' after channel type"@) {
                Ok(p4) => if !fwd(t, p, p4) {
                    Err(stuck(t, p))
                } else if at(t, p4, TokenKindOf::LParen) {
                    if at(t, p4 + 1, TokenKindOf::RParen) {
                        Ok((ExprV::Chan { ty, capacity: None }, p4 + 2))
                    } else {
                        match expression(t, p4 + 1) {
                            Ok((c, p5)) => match expect(t, p5, TokenKindOf::RParen, "expected ')' after channel capacity"@) {
                                Ok(p6) => Ok((ExprV::Chan { ty, capacity: Some(Box::new(c)) }, p6)),
                                Err(e) => Err(e),
                            },
                            Err(e) => Err(e),
                        }
                    }
                } else {
                    Ok((ExprV::Chan { ty, capacity: None }, p4))
                },
                Err(e) => Err(e),
            },
            Err(e) => Err(e),
        },
        Err(e) => Err(e),
    }
}

/// `while cond { .. }`.
pub open spec fn while_expr(t: Seq<SpecToken>, p: int) -> Parsed<ExprV>
    decreases t.len() - p, 3int,
{
    match expect(t, p, TokenKindOf::While, "expected 'while'"@) {
        Ok(p1) => match expression(t, p1) {
            Ok((c, q)) => if !fwd(t, p, q) {
                Err(stuck(t, p))
            } else {
                match block(t, q) {
                    Ok((b, r)) => Ok((ExprV::While { condition: Box::new(c), body: Box::new(ExprV::Block(b)) }, r)),
                    Err(e) => Err(e),
                }
            },
            Err(e) => Err(e),
        },
        Err(e) => Err(e),
    }
}

/// `for x in iterable { .. }`.
pub open spec fn for_expr(t: Seq<SpecToken>, p: int) -> Parsed<ExprV>
    decreases t.len() - p, 3int,
{
    match expect(t, p, TokenKindOf::For, "expected 'for'"@) {
        Ok(p1) => match ident(t, p1) {
            Ok((binding, q)) => match expect(t, q, TokenKindOf::In, "expected 'in' in for loop"@) {
                Ok(q2) => match expression(t, q2) {
                    Ok((it, r)) => if !fwd(t, p, r) {
                        Err(stuck(t, p))
                    } else {
                        match block(t, r) {
                            Ok((b, s)) => Ok((ExprV::For { binding, iterable: Box::new(it), body: Box::new(ExprV::Block(b)) }, s)),
                            Err(e) => Err(e),
                        }
                    },
                    Err(e) => Err(e),
                },
                Err(e) => Err(e),
            },
            Err(e) => Err(e),
        },
        Err(e) => Err(e),
    }
}

/// `match scrutinee { arms }`.
pub open spec fn match_expr(t: Seq<SpecToken>, p: int) -> Parsed<ExprV>
    decreases t.len() - p, 3int,
{
    match expect(t, p, TokenKindOf::Match, "expected 'match'"@) {
        Ok(p1) => match expression(t, p1) {
            Ok((s, q)) => if !fwd(t, p, q) {
                Err(stuck(t, p))
            } else {
                match expect(t, q, TokenKindOf::LBrace, "expected '{' to start match arms"@) {
                    Ok(q2) => match arms(t, q2, Seq::empty()) {
                        Ok((a, r)) => match expect(t, r, TokenKindOf::RBrace, "expected '}' to close match"@) {
                            Ok(r2) => Ok((ExprV::Match { scrutinee: Box::new(s), arms: a }, r2)),
                            Err(e) => Err(e),
                        },
                        Err(e) => Err(e),
                    },
                    Err(e) => Err(e),
                }
            },
            Err(e) => Err(e),
        },
        Err(e) => Err(e),
    }
}

/// `loop { .. }`.
pub open spec fn loop_expr(t: Seq<SpecToken>, p: int) -> Parsed<ExprV>
    decreases t.len() - p, 3int,
{
    match expect(t, p, TokenKindOf::Loop, "expected 'loop'"@) {
        Ok(p1) => match block(t, p1) {
            Ok((b, q)) => Ok((ExprV::Loop { body: Box::new(ExprV::Block(b)) }, q)),
            Err(e) => Err(e),
        },
        Err(e) => Err(e),
    }
}

/// `using [name =] resource { .. }`.
pub open spec fn using_expr(t: Seq<SpecToken>, p: int) -> Parsed<ExprV>
    decreases t.len() - p, 3int,
{
    match expect(t, p, TokenKindOf::Using, "expected 'using'"@) {
        Ok(p1) => {
            let binding = match kind_at(t, p1) {
                TokenKindOf::Identifier(n) => if at(t, p1 + 1, TokenKindOf::Assign) {
                    Some(n)
                } else {
                    None
                },
                _ => None,
            };
            let p2 = if binding is Some {
                p1 + 2
            } else {
                p1
            };
            match expression(t, p2) {
                Ok((e, q)) => if !fwd(t, p, q) {
                    Err(stuck(t, p))
                } else {
                    match block(t, q) {
                        Ok((b, r)) => Ok((ExprV::Using { binding, expr: Box::new(e), body: b }, r)),
                        Err(err) => Err(err),
                    }
                },
                Err(err) => Err(err),
            }
        },
        Err(e) => Err(e),
    }
}

/// `if cond { .. }` with an optional `else` block or `else if`.
pub open spec fn if_expr(t: Seq<SpecToken>, p: int) -> Parsed<ExprV>
    decreases t.len() - p, 3int,
{
    match expect(t, p, TokenKindOf::If, "expected 'if'"@) {
        Ok(p1) => match expression(t, p1) {
            Ok((c, q)) => if !fwd(t, p, q) {
                Err(stuck(t, p))
            } else {
                match block(t, q) {
                    Ok((b, r)) => if !fwd(t, p, r) {
                        Err(stuck(t, p))
                    } else if at(t, r, TokenKindOf::Else) {
                        let els = if at(t, r + 1, TokenKindOf::If) {
                            if_expr(t, r + 1)
                        } else {
                            match block(t, r + 1) {
                                Ok((eb, s)) => Ok((ExprV::Block(eb), s)),
                                Err(e) => Err(e),
                            }
                        };
                        match els {
                            Ok((x, s)) => Ok((
                                ExprV::If {
                                    condition: Box::new(c),
                                    then_branch: Box::new(ExprV::Block(b)),
                                    else_branch: Some(Box::new(x)),
                                },
                                s,
                            )),
                            Err(e) => Err(e),
                        }
                    } else {
                        Ok((ExprV::If { condition: Box::new(c), then_branch: Box::new(ExprV::Block(b)), else_branch: None }, r))
                    },
                    Err(e) => Err(e),
                }
            },
            Err(e) => Err(e),
        },
        Err(e) => Err(e),
    }
}

/// Match arms from `p`, after `acc`, up to the closing brace.
pub open spec fn arms(t: Seq<SpecToken>, p: int, acc: Seq<MatchArmV>) -> Parsed<Seq<MatchArmV>>
    decreases t.len() - p, 3int,
{
    if at(t, p, TokenKindOf::RBrace) {
        Ok((acc, p))
    } else {
        match pattern(t, p) {
            Ok((pat, q)) => if !fwd(t, p, q) {
                Err(stuck(t, p))
            } else {
                let guard = if at(t, q, TokenKindOf::If) {
                    match expression(t, q + 1) {
                        Ok((g, r)) => Ok((Some(g), r)),
                        Err(e) => Err(e),
                    }
                } else {
                    Ok((None, q))
                };
                match guard {
                    Ok((g, r)) => match expect(t, r, TokenKindOf::FatArrow, "expected '=>' in match arm"@) {
                        Ok(r2) => if !fwd(t, p, r2) {
                            Err(stuck(t, p))
                        } else {
                            match expression(t, r2) {
                                Ok((body, s)) => {
                                    let arm = MatchArmV { pattern: pat, guard: g, body };
                                    if !fwd(t, p, s) {
                                        Err(stuck(t, p))
                                    } else if at(t, s, TokenKindOf::Comma) {
                                        arms(t, s + 1, acc.push(arm))
                                    } else {
                                        Ok((acc.push(arm), s))
                                    }
                                },
                                Err(e) => Err(e),
                            }
                        },
                        Err(e) => Err(e),
                    },
                    Err(e) => Err(e),
                }
            },
            Err(e) => Err(e),
        }
    }
}

/// A block `{ statements }`.
pub open spec fn block(t: Seq<SpecToken>, p: int) -> Parsed<BlockV>
    decreases t.len() - p, 3int,
{
    match expect(t, p, TokenKindOf::LBrace, "expected '{' to start block"@) {
        Ok(p1) => match stmts(t, p1, Seq::empty()) {
            Ok((ss, q)) => match expect(t, q, TokenKindOf::RBrace, "expected '}' to close block"@) {
                Ok(r) => Ok((BlockV { statements: ss }, r)),
                Err(e) => Err(e),
            },
            Err(e) => Err(e),
        },
        Err(e) => Err(e),
    }
}

/// Statements from `p`, after `acc`, up to a closing brace or the end.
pub open spec fn stmts(t: Seq<SpecToken>, p: int, acc: Seq<StmtV>) -> Parsed<Seq<StmtV>>
    decreases t.len() - p, 16int,
{
    if at(t, p, TokenKindOf::RBrace) || at(t, p, TokenKindOf::Eof) {
        Ok((acc, p))
    } else {
        match statement(t, p) {
            Ok((s, q)) => if !fwd(t, p, q) {
                Err(stuck(t, p))
            } else {
                stmts(t, q, acc.push(s))
            },
            Err(e) => Err(e),
        }
    }
}

/// A statement, with its optional trailing semicolon.
pub open spec fn statement(t: Seq<SpecToken>, p: int) -> Parsed<StmtV>
    decreases t.len() - p, 15int,
{
    if at(t, p, TokenKindOf::Let) {
        let mutable = at(t, p + 1, TokenKindOf::Mut);
        match ident(t, skip(t, p + 1, TokenKindOf::Mut)) {
            Ok((name, q)) => match expect(t, q, TokenKindOf::Assign, "expected '=' in let binding"@) {
                Ok(q2) => match expression(t, q2) {
                    Ok((value, r)) => Ok((StmtV::Let { mutable, name, value }, skip(t, r, TokenKindOf::Semi))),
                    Err(e) => Err(e),
                },
                Err(e) => Err(e),
            },
            Err(e) => Err(e),
        }
    } else if at(t, p, TokenKindOf::Return) {
        if at(t, p + 1, TokenKindOf::Semi) {
            Ok((StmtV::Return(None), p + 2))
        } else {
            match expression(t, p + 1) {
                Ok((e, q)) => Ok((StmtV::Return(Some(e)), skip(t, q, TokenKindOf::Semi))),
                Err(err) => Err(err),
            }
        }
    } else if at(t, p, TokenKindOf::Break) {
        Ok((StmtV::Break, skip(t, p + 1, TokenKindOf::Semi)))
    } else if at(t, p, TokenKindOf::Continue) {
        Ok((StmtV::Continue, skip(t, p + 1, TokenKindOf::Semi)))
    } else {
        match expression(t, p) {
            Ok((e, q)) => Ok((StmtV::Expr(e), skip(t, q, TokenKindOf::Semi))),
            Err(err) => Err(err),
        }
    }
}

// ---------------------------------------------------------------------------
// Items and modules
// ---------------------------------------------------------------------------

/// Parameters `mut? name: type` separated by commas, from `p`, after `acc`.
pub open spec fn param_items(t: Seq<SpecToken>, p: int, acc: Seq<ParamV>) -> Parsed<Seq<ParamV>>
    decreases t.len() - p,
{
    let mutable = at(t, p, TokenKindOf::Mut);
    match ident(t, skip(t, p, TokenKindOf::Mut)) {
        Ok((name, q)) => match expect(t, q, TokenKindOf::Colon, "expected ':' after parameter name"@) {
            Ok(q2) => match type_expr(t, q2) {
                Ok((ty, r)) => {
                    let param = ParamV { name, ty, mutable };
                    if !fwd(t, p, r) {
                        Err(stuck(t, p))
                    } else if at(t, r, TokenKindOf::Comma) {
                        param_items(t, r + 1, acc.push(param))
                    } else {
                        Ok((acc.push(param), r))
                    }
                },
                Err(e) => Err(e),
            },
            Err(e) => Err(e),
        },
        Err(e) => Err(e),
    }
}

/// The head of a function after `fn`: its name, generics and parameters.
#[verifier::opaque]
pub open spec fn fn_head(t: Seq<SpecToken>, p: int) -> Parsed<(Seq<char>, Seq<Seq<char>>, Seq<ParamV>)> {
    match ident(t, p) {
        Err(e) => Err(e),
        Ok((name, p1)) => {
            let gens = if at(t, p1, TokenKindOf::LBracket) {
                ident_list(t, p1 + 1, TokenKindOf::RBracket, "expected closing ']' in generic parameters"@)
            } else {
                Ok((Seq::empty(), p1))
            };
            match gens {
                Err(e) => Err(e),
                Ok((generics, p2)) => match expect(t, p2, TokenKindOf::LParen, "expected '(' in parameter list"@) {
                    Err(e) => Err(e),
                    Ok(p3) => {
                        let ps = if at(t, p3, TokenKindOf::RParen) {
                            Ok((Seq::empty(), p3))
                        } else {
                            param_items(t, p3, Seq::empty())
                        };
                        match ps {
                            Err(e) => Err(e),
                            Ok((params, p4)) => match expect(t, p4, TokenKindOf::RParen, "expected ')' to close parameter list"@) {
                                Err(e) => Err(e),
                                Ok(p5) => Ok(((name, generics, params), p5)),
                            },
                        }
                    },
                },
            }
        },
    }
}

/// The optional return type `-> T` and effect row `!{..}` of a function.
#[verifier::opaque]
pub open spec fn fn_tail(t: Seq<SpecToken>, p: int) -> Parsed<(Option<TypeExprV>, Seq<Seq<char>>)> {
    let ret = if at(t, p, TokenKindOf::ThinArrow) {
        match type_expr(t, p + 1) {
            Ok((ty, q)) => Ok((Some(ty), q)),
            Err(e) => Err(e),
        }
    } else {
        Ok((None, p))
    };
    match ret {
        Err(e) => Err(e),
        Ok((return_type, p6)) => {
            let effs = if at(t, p6, TokenKindOf::Bang) {
                match expect(t, p6 + 1, TokenKindOf::LBrace, "expected '{' after '!' for effect row"@) {
                    Ok(p7) => ident_list(t, p7, TokenKindOf::RBrace, "expected '}' to close effect row"@),
                    Err(e) => Err(e),
                }
            } else {
                Ok((Seq::empty(), p6))
            };
            match effs {
                Err(e) => Err(e),
                Ok((effect_row, p8)) => Ok(((return_type, effect_row), p8)),
            }
        },
    }
}

/// A function after `fn`: name, generics, parameters, return type, effect
/// row and body.
#[verifier::opaque]
pub open spec fn function(t: Seq<SpecToken>, p: int, is_public: bool) -> Parsed<FunctionV> {
    match fn_head(t, p) {
        Err(e) => Err(e),
        Ok(((name, generics, params), p5)) => match fn_tail(t, p5) {
            Err(e) => Err(e),
            Ok(((return_type, effect_row), p8)) => match block(t, p8) {
                Err(e) => Err(e),
                Ok((body, p9)) => Ok((FunctionV { is_public, name, generics, params, return_type, effect_row, body }, p9)),
            },
        },
    }
}

/// Variants `Name` or `Name(types)` separated by `|`, from `p`, after
/// `acc`.
pub open spec fn variants(t: Seq<SpecToken>, p: int, acc: Seq<TypeVariantV>) -> Parsed<Seq<TypeVariantV>>
    decreases t.len() - p,
{
    match ident(t, p) {
        Ok((name, q)) => {
            let fields = if at(t, q, TokenKindOf::LParen) {
                match type_list(t, q + 1, TokenKindOf::RParen) {
                    Ok((fs, r)) => match expect(t, r, TokenKindOf::RParen, "expected ')' after variant fields"@) {
                        Ok(r2) => Ok((fs, r2)),
                        Err(e) => Err(e),
                    },
                    Err(e) => Err(e),
                }
            } else {
                Ok((Seq::empty(), q))
            };
            match fields {
                Ok((fs, r)) => {
                    let v = TypeVariantV { name, fields: fs };
                    if !fwd(t, p, r) {
                        Err(stuck(t, p))
                    } else if at(t, r, TokenKindOf::Pipe) {
                        variants(t, r + 1, acc.push(v))
                    } else {
                        Ok((acc.push(v), r))
                    }
                },
                Err(e) => Err(e),
            }
        },
        Err(e) => Err(e),
    }
}

/// The value of a type alias: a sum of variants where a name is followed by
/// `|` or `(`, else a type.
pub open spec fn alias_value(t: Seq<SpecToken>, p: int) -> Parsed<TypeExprV> {
    if kind_at(t, p) is Identifier && (at(t, p + 1, TokenKindOf::Pipe) || at(t, p + 1, TokenKindOf::LParen)) {
        match variants(t, p, Seq::empty()) {
            Ok((vs, q)) => Ok((TypeExprV::Sum(vs), q)),
            Err(e) => Err(e),
        }
    } else {
        type_expr(t, p)
    }
}

/// A type alias after `type`: name, parameters and the aliased type.
#[verifier::opaque]
pub open spec fn type_alias(t: Seq<SpecToken>, p: int, is_public: bool) -> Parsed<TypeAliasV> {
    match ident(t, p) {
        Err(e) => Err(e),
        Ok((name, p1)) => {
            let ps = if at(t, p1, TokenKindOf::LBracket) {
                ident_list(t, p1 + 1, TokenKindOf::RBracket, "expected closing ']' in type parameters"@)
            } else {
                Ok((Seq::empty(), p1))
            };
            match ps {
                Err(e) => Err(e),
                Ok((params, p2)) => match expect(t, p2, TokenKindOf::Assign, "expected '=' in type alias"@) {
                    Err(e) => Err(e),
                    Ok(p3) => match alias_value(t, p3) {
                        Ok((value, p4)) => Ok((TypeAliasV { is_public, name, params, value }, p4)),
                        Err(e) => Err(e),
                    },
                },
            }
        },
    }
}

/// An import after `use`: a dotted path, an optional `as` alias, and `;`.
#[verifier::opaque]
pub open spec fn use_decl(t: Seq<SpecToken>, p: int) -> Parsed<UseDeclV> {
    match path(t, p, false) {
        Err(e) => Err(e),
        Ok((segs, q)) => {
            let alias = if at(t, q, TokenKindOf::As) {
                match ident(t, q + 1) {
                    Ok((a, r)) => Ok((Some(a), r)),
                    Err(e) => Err(e),
                }
            } else {
                Ok((None, q))
            };
            match alias {
                Err(e) => Err(e),
                Ok((a, r)) => match expect(t, r, TokenKindOf::Semi, "expected ';' after use statement"@) {
                    Ok(s) => Ok((UseDeclV { path: segs, alias: a }, s)),
                    Err(e) => Err(e),
                },
            }
        },
    }
}

/// An item: an import, a type alias or a function, possibly public.
#[verifier::opaque]
pub open spec fn item(t: Seq<SpecToken>, p: int) -> Parsed<ItemV> {
    if at(t, p, TokenKindOf::Use) {
        match use_decl(t, p + 1) {
            Ok((u, q)) => Ok((ItemV::Use(u), q)),
            Err(e) => Err(e),
        }
    } else if at(t, p, TokenKindOf::Type) {
        match type_alias(t, p + 1, false) {
            Ok((a, q)) => Ok((ItemV::TypeAlias(a), q)),
            Err(e) => Err(e),
        }
    } else if at(t, p, TokenKindOf::Pub) {
        if at(t, p + 1, TokenKindOf::Fn) {
            match function(t, p + 2, true) {
                Ok((f, q)) => Ok((ItemV::Function(f), q)),
                Err(e) => Err(e),
            }
        } else if at(t, p + 1, TokenKindOf::Type) {
            match type_alias(t, p + 2, true) {
                Ok((a, q)) => Ok((ItemV::TypeAlias(a), q)),
                Err(e) => Err(e),
            }
        } else {
            Err(perr(t, p + 1, "expected 'fn' or 'type' after 'pub'"@))
        }
    } else if at(t, p, TokenKindOf::Fn) {
        match function(t, p + 1, false) {
            Ok((f, q)) => Ok((ItemV::Function(f), q)),
            Err(e) => Err(e),
        }
    } else {
        Err(perr(t, p, "unexpected item"@))
    }
}

/// The items from `p` to the end, after `acc`.
pub open spec fn items(t: Seq<SpecToken>, p: int, acc: Seq<ItemV>) -> Result<Seq<ItemV>, SpecError>
    decreases t.len() - p,
{
    if at(t, p, TokenKindOf::Eof) {
        Ok(acc)
    } else {
        match item(t, p) {
            Ok((i, q)) => if !fwd(t, p, q) {
                Err(stuck(t, p))
            } else {
                items(t, q, acc.push(i))
            },
            Err(e) => Err(e),
        }
    }
}

/// A module: `module` and a dotted name, then items up to the end.
pub open spec fn module(t: Seq<SpecToken>) -> Result<ModuleV, SpecError> {
    match expect(t, 0, TokenKindOf::Module, "expected 'module' at top of file"@) {
        Err(e) => Err(e),
        Ok(p1) => match path(t, p1, false) {
            Err(e) => Err(e),
            Ok((name, p2)) => match items(t, p2, Seq::empty()) {
                Ok(is) => Ok(ModuleV { name, items: is }),
                Err(e) => Err(e),
            },
        },
    }
}

/// A source text: its tokens, then the module they spell.
pub open spec fn parse_source(s: Seq<char>) -> Result<ModuleV, SpecError> {
    match spec_lex(s) {
        Ok(toks) => module(toks),
        Err(e) => Err(e),
    }
}


// ---------------------------------------------------------------------------
// The parser
// ---------------------------------------------------------------------------

/// What a parse returned, with the node as a mathematical value.
pub open spec fn r_str(r: Result<(String, usize), Error>) -> Parsed<Seq<char>> {
    match r {
        Ok((a, q)) => Ok((a@, q as int)),
        Err(e) => Err(e@),
    }
}

pub open spec fn r_strs(r: Result<(Vec<String>, usize), Error>) -> Parsed<Seq<Seq<char>>> {
    match r {
        Ok((a, q)) => Ok((views(a@), q as int)),
        Err(e) => Err(e@),
    }
}

pub open spec fn r_type(r: Result<(TypeExpr, usize), Error>) -> Parsed<TypeExprV> {
    match r {
        Ok((a, q)) => Ok((type_v(a), q as int)),
        Err(e) => Err(e@),
    }
}

pub open spec fn r_types(r: Result<(Vec<TypeExpr>, usize), Error>) -> Parsed<Seq<TypeExprV>> {
    match r {
        Ok((a, q)) => Ok((types_v(a@), q as int)),
        Err(e) => Err(e@),
    }
}

pub open spec fn r_fields(r: Result<(Vec<(String, TypeExpr)>, usize), Error>) -> Parsed<Seq<(Seq<char>, TypeExprV)>> {
    match r {
        Ok((a, q)) => Ok((type_fields_v(a@), q as int)),
        Err(e) => Err(e@),
    }
}

pub open spec fn r_pattern(r: Result<(Pattern, usize), Error>) -> Parsed<PatternV> {
    match r {
        Ok((a, q)) => Ok((pattern_v(a), q as int)),
        Err(e) => Err(e@),
    }
}

pub open spec fn r_patterns(r: Result<(Vec<Pattern>, usize), Error>) -> Parsed<Seq<PatternV>> {
    match r {
        Ok((a, q)) => Ok((patterns_v(a@), q as int)),
        Err(e) => Err(e@),
    }
}

pub open spec fn r_expr(r: Result<(Expr, usize), Error>) -> Parsed<ExprV> {
    match r {
        Ok((a, q)) => Ok((expr_v(a), q as int)),
        Err(e) => Err(e@),
    }
}

pub open spec fn r_exprs(r: Result<(Vec<Expr>, usize), Error>) -> Parsed<Seq<ExprV>> {
    match r {
        Ok((a, q)) => Ok((exprs_v(a@), q as int)),
        Err(e) => Err(e@),
    }
}

pub open spec fn r_arms(r: Result<(Vec<MatchArm>, usize), Error>) -> Parsed<Seq<MatchArmV>> {
    match r {
        Ok((a, q)) => Ok((arms_v(a@), q as int)),
        Err(e) => Err(e@),
    }
}

pub open spec fn r_block(r: Result<(Block, usize), Error>) -> Parsed<BlockV> {
    match r {
        Ok((a, q)) => Ok((block_v(a), q as int)),
        Err(e) => Err(e@),
    }
}

pub open spec fn r_stmt(r: Result<(Stmt, usize), Error>) -> Parsed<StmtV> {
    match r {
        Ok((a, q)) => Ok((stmt_v(a), q as int)),
        Err(e) => Err(e@),
    }
}

pub open spec fn r_stmts(r: Result<(Vec<Stmt>, usize), Error>) -> Parsed<Seq<StmtV>> {
    match r {
        Ok((a, q)) => Ok((stmts_v(a@), q as int)),
        Err(e) => Err(e@),
    }
}

/// Whether a successful parse from `p` consumed tokens and stayed within
/// the `n` tokens.
pub open spec fn moves<A>(r: Result<(A, usize), Error>, p: usize, n: usize) -> bool {
    r matches Ok((_, q)) ==> p < q <= n
}

fn tag_of(k: &TokenKind) -> (r: u8)
    ensures
        r == kind_tag(k@),
{
    match k {
        TokenKindOf::Module => 0,
        TokenKindOf::Pub => 1,
        TokenKindOf::Fn => 2,
        TokenKindOf::Type => 3,
        TokenKindOf::Impl => 4,
        TokenKindOf::Use => 5,
        TokenKindOf::Let => 6,
        TokenKindOf::Mut => 7,
        TokenKindOf::Return => 8,
        TokenKindOf::If => 9,
        TokenKindOf::Else => 10,
        TokenKindOf::Match => 11,
        TokenKindOf::For => 12,
        TokenKindOf::In => 13,
        TokenKindOf::Loop => 14,
        TokenKindOf::While => 15,
        TokenKindOf::Break => 16,
        TokenKindOf::Continue => 17,
        TokenKindOf::Spawn => 18,
        TokenKindOf::Await => 19,
        TokenKindOf::Chan => 20,
        TokenKindOf::Using => 21,
        TokenKindOf::As => 22,
        TokenKindOf::Identifier(_) => 23,
        TokenKindOf::IntLiteral(_) => 24,
        TokenKindOf::FloatLiteral(_) => 25,
        TokenKindOf::StringLiteral(_) => 26,
        TokenKindOf::BoolLiteral(_) => 27,
        TokenKindOf::LParen => 28,
        TokenKindOf::RParen => 29,
        TokenKindOf::LBrace => 30,
        TokenKindOf::RBrace => 31,
        TokenKindOf::LBracket => 32,
        TokenKindOf::RBracket => 33,
        TokenKindOf::Comma => 34,
        TokenKindOf::Colon => 35,
        TokenKindOf::DoubleColon => 36,
        TokenKindOf::Semi => 37,
        TokenKindOf::Dot => 38,
        TokenKindOf::ThinArrow => 39,
        TokenKindOf::FatArrow => 40,
        TokenKindOf::Assign => 41,
        TokenKindOf::Plus => 42,
        TokenKindOf::Minus => 43,
        TokenKindOf::Star => 44,
        TokenKindOf::Slash => 45,
        TokenKindOf::Percent => 46,
        TokenKindOf::Ampersand => 47,
        TokenKindOf::Pipe => 48,
        TokenKindOf::Question => 49,
        TokenKindOf::Bang => 50,
        TokenKindOf::EqEq => 51,
        TokenKindOf::NotEq => 52,
        TokenKindOf::Lt => 53,
        TokenKindOf::Le => 54,
        TokenKindOf::Gt => 55,
        TokenKindOf::Ge => 56,
        TokenKindOf::AndAnd => 57,
        TokenKindOf::OrOr => 58,
        TokenKindOf::Eof => 59,
    }
}

fn push_kind_name(out: &mut String, k: &TokenKind)
    ensures
        final(out)@ == old(out)@ + kind_name(k@),
{
    match k {
        TokenKindOf::Module => push_str(out, "Module"),
        TokenKindOf::Pub => push_str(out, "Pub"),
        TokenKindOf::Fn => push_str(out, "Fn"),
        TokenKindOf::Type => push_str(out, "Type"),
        TokenKindOf::Impl => push_str(out, "Impl"),
        TokenKindOf::Use => push_str(out, "Use"),
        TokenKindOf::Let => push_str(out, "Let"),
        TokenKindOf::Mut => push_str(out, "Mut"),
        TokenKindOf::Return => push_str(out, "Return"),
        TokenKindOf::If => push_str(out, "If"),
        TokenKindOf::Else => push_str(out, "Else"),
        TokenKindOf::Match => push_str(out, "Match"),
        TokenKindOf::For => push_str(out, "For"),
        TokenKindOf::In => push_str(out, "In"),
        TokenKindOf::Loop => push_str(out, "Loop"),
        TokenKindOf::While => push_str(out, "While"),
        TokenKindOf::Break => push_str(out, "Break"),
        TokenKindOf::Continue => push_str(out, "Continue"),
        TokenKindOf::Spawn => push_str(out, "Spawn"),
        TokenKindOf::Await => push_str(out, "Await"),
        TokenKindOf::Chan => push_str(out, "Chan"),
        TokenKindOf::Using => push_str(out, "Using"),
        TokenKindOf::As => push_str(out, "As"),
        TokenKindOf::Identifier(_) => push_str(out, "Identifier"),
        TokenKindOf::IntLiteral(_) => push_str(out, "IntLiteral"),
        TokenKindOf::FloatLiteral(_) => push_str(out, "FloatLiteral"),
        TokenKindOf::StringLiteral(_) => push_str(out, "StringLiteral"),
        TokenKindOf::BoolLiteral(_) => push_str(out, "BoolLiteral"),
        TokenKindOf::LParen => push_str(out, "LParen"),
        TokenKindOf::RParen => push_str(out, "RParen"),
        TokenKindOf::LBrace => push_str(out, "LBrace"),
        TokenKindOf::RBrace => push_str(out, "RBrace"),
        TokenKindOf::LBracket => push_str(out, "LBracket"),
        TokenKindOf::RBracket => push_str(out, "RBracket"),
        TokenKindOf::Comma => push_str(out, "Comma"),
        TokenKindOf::Colon => push_str(out, "Colon"),
        TokenKindOf::DoubleColon => push_str(out, "DoubleColon"),
        TokenKindOf::Semi => push_str(out, "Semi"),
        TokenKindOf::Dot => push_str(out, "Dot"),
        TokenKindOf::ThinArrow => push_str(out, "ThinArrow"),
        TokenKindOf::FatArrow => push_str(out, "FatArrow"),
        TokenKindOf::Assign => push_str(out, "Assign"),
        TokenKindOf::Plus => push_str(out, "Plus"),
        TokenKindOf::Minus => push_str(out, "Minus"),
        TokenKindOf::Star => push_str(out, "Star"),
        TokenKindOf::Slash => push_str(out, "Slash"),
        TokenKindOf::Percent => push_str(out, "Percent"),
        TokenKindOf::Ampersand => push_str(out, "Ampersand"),
        TokenKindOf::Pipe => push_str(out, "Pipe"),
        TokenKindOf::Question => push_str(out, "Question"),
        TokenKindOf::Bang => push_str(out, "Bang"),
        TokenKindOf::EqEq => push_str(out, "EqEq"),
        TokenKindOf::NotEq => push_str(out, "NotEq"),
        TokenKindOf::Lt => push_str(out, "Lt"),
        TokenKindOf::Le => push_str(out, "Le"),
        TokenKindOf::Gt => push_str(out, "Gt"),
        TokenKindOf::Ge => push_str(out, "Ge"),
        TokenKindOf::AndAnd => push_str(out, "AndAnd"),
        TokenKindOf::OrOr => push_str(out, "OrOr"),
        TokenKindOf::Eof => push_str(out, "Eof"),
    }
}

/// Whether the token at `p` has the variant of `k`.
fn check(t: &Vec<Token>, p: usize, k: &TokenKind) -> (r: bool)
    ensures
        r == at(token_views(t@), p as int, k@),
{
    if p < t.len() {
        tag_of(&t[p].kind) == tag_of(k)
    } else {
        tag_of(k) == 59
    }
}

/// A parse error at the token at `p`.
fn error_at(t: &Vec<Token>, p: usize, msg: &str) -> (e: Error)
    ensures
        e@ == perr(token_views(t@), p as int, msg@),
{
    let span = if p < t.len() {
        t[p].span
    } else {
        (0, 0)
    };
    Error::parse(Some(span), msg)
}

fn skip_tok(t: &Vec<Token>, p: usize, k: &TokenKind) -> (q: usize)
    requires
        p <= t.len(),
        kind_tag(k@) != 59,
    ensures
        q == skip(token_views(t@), p as int, k@),
        p <= q <= t.len(),
{
    if check(t, p, k) {
        p + 1
    } else {
        p
    }
}

fn expect_tok(t: &Vec<Token>, p: usize, k: &TokenKind, msg: &str) -> (r: Result<usize, Error>)
    requires
        p <= t.len(),
        kind_tag(k@) != 59,
    ensures
        match r {
            Ok(q) => expect(token_views(t@), p as int, k@, msg@) == Ok::<int, SpecError>(q as int) && q == p + 1
                && q <= t.len(),
            Err(e) => expect(token_views(t@), p as int, k@, msg@) == Err::<int, SpecError>(e@),
        },
{
    if check(t, p, k) {
        Ok(p + 1)
    } else {
        Err(error_at(t, p, msg))
    }
}

fn ident_tok(t: &Vec<Token>, p: usize) -> (r: Result<(String, usize), Error>)
    requires
        p <= t.len(),
    ensures
        r_str(r) == ident(token_views(t@), p as int),
        r matches Ok((_, q)) ==> q == p + 1 && q <= t.len(),
{
    if p < t.len() {
        match &t[p].kind {
            TokenKindOf::Identifier(n) => {
                return Ok((copy_string(n), p + 1));
            },
            _ => {},
        }
    }
    Err(error_at(t, p, "expected identifier"))
}

fn ident_items_x(t: &Vec<Token>, p: usize, acc: Vec<String>) -> (r: Result<(Vec<String>, usize), Error>)
    requires
        p <= t.len(),
    ensures
        r_strs(r) == ident_items(token_views(t@), p as int, views(acc@)),
        moves(r, p, t.len()),
    decreases t.len() - p,
{
    match ident_tok(t, p) {
        Ok((n, q)) => {
            let ghost nv = n@;
            let mut acc = acc;
            let ghost a0 = acc@;
            acc.push(n);
            assert(views(acc@) =~= views(a0).push(nv));
            if check(t, q, &TokenKindOf::Comma) {
                ident_items_x(t, q + 1, acc)
            } else {
                Ok((acc, q))
            }
        },
        Err(e) => Err(e),
    }
}

fn ident_list_x(t: &Vec<Token>, p: usize, close: &TokenKind, msg: &str) -> (r: Result<(Vec<String>, usize), Error>)
    requires
        p <= t.len(),
        kind_tag(close@) != 59,
    ensures
        r_strs(r) == ident_list(token_views(t@), p as int, close@, msg@),
        moves(r, p, t.len()),
{
    let first = if check(t, p, close) {
        let v: Vec<String> = Vec::new();
        assert(views(v@) =~= Seq::<Seq<char>>::empty());
        Ok((v, p))
    } else {
        let v: Vec<String> = Vec::new();
        assert(views(v@) =~= Seq::<Seq<char>>::empty());
        ident_items_x(t, p, v)
    };
    match first {
        Ok((items, q)) => match expect_tok(t, q, close, msg) {
            Ok(r) => Ok((items, r)),
            Err(e) => Err(e),
        },
        Err(e) => Err(e),
    }
}

fn path_rest_x(t: &Vec<Token>, segs: Vec<String>, p: usize, colons: bool) -> (r: Result<(Vec<String>, usize), Error>)
    requires
        p <= t.len(),
    ensures
        r_strs(r) == path_rest(token_views(t@), views(segs@), p as int, colons),
        r matches Ok((_, q)) ==> p <= q <= t.len(),
    decreases t.len() - p,
{
    if (!colons && check(t, p, &TokenKindOf::Dot)) || (colons && check(t, p, &TokenKindOf::DoubleColon)) {
        match ident_tok(t, p + 1) {
            Ok((n, q)) => {
                let ghost nv = n@;
                let mut segs = segs;
                let ghost s0 = segs@;
                segs.push(n);
                assert(views(segs@) =~= views(s0).push(nv));
                path_rest_x(t, segs, q, colons)
            },
            Err(e) => Err(e),
        }
    } else {
        Ok((segs, p))
    }
}

fn path_x(t: &Vec<Token>, p: usize, colons: bool) -> (r: Result<(Vec<String>, usize), Error>)
    requires
        p <= t.len(),
    ensures
        r_strs(r) == path(token_views(t@), p as int, colons),
        moves(r, p, t.len()),
{
    match ident_tok(t, p) {
        Ok((n, q)) => {
            let ghost nv = n@;
            let segs = vec![n];
            assert(views(segs@) =~= seq![nv]);
            path_rest_x(t, segs, q, colons)
        },
        Err(e) => Err(e),
    }
}


fn type_expr_x(t: &Vec<Token>, p: usize) -> (r: Result<(TypeExpr, usize), Error>)
    requires
        p <= t.len(),
    ensures
        r_type(r) == type_expr(token_views(t@), p as int),
        moves(r, p, t.len()),
    decreases t.len() - p, 0int,
{
    if check(t, p, &TokenKindOf::Fn) {
        fn_type_x(t, p + 1)
    } else if check(t, p, &TokenKindOf::LBrace) {
        let fields = if check(t, p + 1, &TokenKindOf::RBrace) {
            let v: Vec<(String, TypeExpr)> = Vec::new();
            assert(type_fields_v(v@) =~= Seq::<(Seq<char>, TypeExprV)>::empty());
            Ok((v, p + 1))
        } else {
            let v: Vec<(String, TypeExpr)> = Vec::new();
            assert(type_fields_v(v@) =~= Seq::<(Seq<char>, TypeExprV)>::empty());
            field_items_x(t, p + 1, v)
        };
        match fields {
            Ok((fs, q)) => match expect_tok(t, q, &TokenKindOf::RBrace, "expected '}' to close record type") {
                Ok(r) => Ok((TypeExpr::Record(fs), r)),
                Err(e) => Err(e),
            },
            Err(e) => Err(e),
        }
    } else if check(t, p, &TokenKindOf::LBracket) {
        match type_expr_x(t, p + 1) {
            Ok((inner, q)) => match expect_tok(t, q, &TokenKindOf::RBracket, "expected ']' to close list type") {
                Ok(r) => Ok((TypeExpr::List(Box::new(inner)), r)),
                Err(e) => Err(e),
            },
            Err(e) => Err(e),
        }
    } else if check(t, p, &TokenKindOf::Ampersand) {
        let is_mut = check(t, p + 1, &TokenKindOf::Mut);
        let q = skip_tok(t, p + 1, &TokenKindOf::Mut);
        match type_expr_x(t, q) {
            Ok((inner, r)) => Ok((TypeExpr::Reference { is_mut, inner: Box::new(inner) }, r)),
            Err(e) => Err(e),
        }
    } else if check(t, p, &TokenKindOf::LParen) {
        if check(t, p + 1, &TokenKindOf::RParen) {
            Ok((TypeExpr::Unit, p + 2))
        } else {
            let v: Vec<TypeExpr> = Vec::new();
            assert(types_v(v@) =~= Seq::<TypeExprV>::empty());
            match type_items_x(t, p + 1, v) {
                Ok((items, q)) => match expect_tok(t, q, &TokenKindOf::RParen, "expected ')' in tuple type") {
                    Ok(r) => {
                        proof {
                            crate::syntax::model::lemma_types_v_len(items@);
                        }
                        if items.len() == 1 {
                            let mut items = items;
                            let ghost iv = items@;
                            let only = items.pop().unwrap();
                            proof {
                                assert(iv.drop_last() =~= Seq::<TypeExpr>::empty());
                                assert(types_v(iv) == types_v(iv.drop_last()).push(type_v(iv.last())));
                                assert(types_v(iv)[0] == type_v(only));
                            }
                            Ok((only, r))
                        } else {
                            Ok((TypeExpr::Tuple(items), r))
                        }
                    },
                    Err(e) => Err(e),
                },
                Err(e) => Err(e),
            }
        }
    } else {
        match ident_tok(t, p) {
            Ok((name, q)) => if check(t, q, &TokenKindOf::LBracket) {
                match type_list_x(t, q + 1, &TokenKindOf::RBracket) {
                    Ok((args, r)) => match expect_tok(t, r, &TokenKindOf::RBracket, "expected closing ']' in generic arguments") {
                        Ok(s) => Ok((TypeExpr::Generic(name, args), s)),
                        Err(e) => Err(e),
                    },
                    Err(e) => Err(e),
                }
            } else {
                Ok((TypeExpr::Name(name), q))
            },
            Err(e) => Err(e),
        }
    }
}

fn fn_type_x(t: &Vec<Token>, p: usize) -> (r: Result<(TypeExpr, usize), Error>)
    requires
        p <= t.len(),
    ensures
        r_type(r) == fn_type(token_views(t@), p as int),
        moves(r, p, t.len()),
    decreases t.len() - p, 0int,
{
    let p2 = match expect_tok(t, p, &TokenKindOf::LParen, "expected '(' after 'fn' in function type") {
        Ok(q) => q,
        Err(e) => {
            return Err(e);
        },
    };
    let (params, p3) = match type_list_x(t, p2, &TokenKindOf::RParen) {
        Ok(x) => x,
        Err(e) => {
            return Err(e);
        },
    };
    let p4 = match expect_tok(t, p3, &TokenKindOf::RParen, "expected ')' after function type parameters") {
        Ok(q) => q,
        Err(e) => {
            return Err(e);
        },
    };
    let p5 = match expect_tok(t, p4, &TokenKindOf::ThinArrow, "expected '->' in function type") {
        Ok(q) => q,
        Err(e) => {
            return Err(e);
        },
    };
    let (ret, p6) = match type_expr_x(t, p5) {
        Ok(x) => x,
        Err(e) => {
            return Err(e);
        },
    };
    let effs = if check(t, p6, &TokenKindOf::Bang) {
        match expect_tok(t, p6 + 1, &TokenKindOf::LBrace, "expected '{' to open function type effect row") {
            Ok(p7) => ident_list_x(t, p7, &TokenKindOf::RBrace, "expected '}' to close function type effect row"),
            Err(e) => Err(e),
        }
    } else {
        let v: Vec<String> = Vec::new();
        assert(views(v@) =~= Seq::<Seq<char>>::empty());
        Ok((v, p6))
    };
    match effs {
        Ok((effect_row, p8)) => Ok((TypeExpr::Function { params, return_type: Box::new(ret), effect_row }, p8)),
        Err(e) => Err(e),
    }
}

fn type_items_x(t: &Vec<Token>, p: usize, acc: Vec<TypeExpr>) -> (r: Result<(Vec<TypeExpr>, usize), Error>)
    requires
        p <= t.len(),
    ensures
        r_types(r) == type_items(token_views(t@), p as int, types_v(acc@)),
        moves(r, p, t.len()),
    decreases t.len() - p, 1int,
{
    match type_expr_x(t, p) {
        Ok((ty, q)) => {
            let ghost tyv = type_v(ty);
            let mut acc = acc;
            let ghost a0 = acc@;
            acc.push(ty);
            assert(acc@.drop_last() =~= a0);
            assert(types_v(acc@) == types_v(a0).push(tyv));
            if check(t, q, &TokenKindOf::Comma) {
                type_items_x(t, q + 1, acc)
            } else {
                Ok((acc, q))
            }
        },
        Err(e) => Err(e),
    }
}

fn type_list_x(t: &Vec<Token>, p: usize, close: &TokenKind) -> (r: Result<(Vec<TypeExpr>, usize), Error>)
    requires
        p <= t.len(),
    ensures
        r_types(r) == type_list(token_views(t@), p as int, close@),
        r matches Ok((_, q)) ==> p <= q <= t.len(),
    decreases t.len() - p, 2int,
{
    let v: Vec<TypeExpr> = Vec::new();
    assert(types_v(v@) =~= Seq::<TypeExprV>::empty());
    if check(t, p, close) {
        Ok((v, p))
    } else {
        type_items_x(t, p, v)
    }
}

fn field_items_x(t: &Vec<Token>, p: usize, acc: Vec<(String, TypeExpr)>) -> (r: Result<(Vec<(String, TypeExpr)>, usize), Error>)
    requires
        p <= t.len(),
    ensures
        r_fields(r) == field_items(token_views(t@), p as int, type_fields_v(acc@)),
        moves(r, p, t.len()),
    decreases t.len() - p, 1int,
{
    let (name, q) = match ident_tok(t, p) {
        Ok(x) => x,
        Err(e) => {
            return Err(e);
        },
    };
    let q2 = match expect_tok(t, q, &TokenKindOf::Colon, "expected ':' in record type") {
        Ok(x) => x,
        Err(e) => {
            return Err(e);
        },
    };
    match type_expr_x(t, q2) {
        Ok((ty, r)) => {
            let ghost entry = (name@, type_v(ty));
            let mut acc = acc;
            let ghost a0 = acc@;
            acc.push((name, ty));
            assert(acc@.drop_last() =~= a0);
            assert(type_fields_v(acc@) == type_fields_v(a0).push(entry));
            if check(t, r, &TokenKindOf::Comma) {
                field_items_x(t, r + 1, acc)
            } else {
                Ok((acc, r))
            }
        },
        Err(e) => Err(e),
    }
}


fn upper_initial(n: &String) -> (r: bool)
    ensures
        r == starts_upper(n@),
{
    let s = n.as_str();
    if s.unicode_len() == 0 {
        false
    } else {
        let c = s.get_char(0);
        'A' <= c && c <= 'Z'
    }
}

fn pattern_x(t: &Vec<Token>, p: usize) -> (r: Result<(Pattern, usize), Error>)
    requires
        p <= t.len(),
    ensures
        r_pattern(r) == pattern(token_views(t@), p as int),
        moves(r, p, t.len()),
    decreases t.len() - p, 0int,
{
    if p >= t.len() {
        return Err(error_at(t, p, "unsupported pattern"));
    }
    match &t[p].kind {
        TokenKindOf::Identifier(name) => {
            if crate::text::str_eq(name.as_str(), "_") {
                proof {
                    reveal_strlit("_");
                }
                return Ok((Pattern::Wildcard, p + 1));
            }
            proof {
                reveal_strlit("_");
            }
            let (segs, q) = match path_x(t, p, true) {
                Ok(x) => x,
                Err(e) => {
                    return Err(e);
                },
            };
            if check(t, q, &TokenKindOf::LParen) {
                let fields = if check(t, q + 1, &TokenKindOf::RParen) {
                    let v: Vec<Pattern> = Vec::new();
                    assert(patterns_v(v@) =~= Seq::<PatternV>::empty());
                    Ok((v, q + 1))
                } else {
                    let v: Vec<Pattern> = Vec::new();
                    assert(patterns_v(v@) =~= Seq::<PatternV>::empty());
                    pattern_items_x(t, q + 1, v)
                };
                match fields {
                    Ok((fs, r)) => match expect_tok(t, r, &TokenKindOf::RParen, "expected ')' in pattern") {
                        Ok(s) => Ok((Pattern::EnumVariant { path: Path { segments: segs }, fields: fs }, s)),
                        Err(e) => Err(e),
                    },
                    Err(e) => Err(e),
                }
            } else if segs.len() == 1 && !upper_initial(&segs[0]) {
                let mut segs = segs;
                let ghost sv = segs@;
                let only = segs.pop().unwrap();
                assert(views(sv)[0] == only@);
                Ok((Pattern::Binding(only), q))
            } else {
                let v: Vec<Pattern> = Vec::new();
                assert(patterns_v(v@) =~= Seq::<PatternV>::empty());
                Ok((Pattern::EnumVariant { path: Path { segments: segs }, fields: v }, q))
            }
        },
        TokenKindOf::BoolLiteral(b) => Ok((Pattern::Literal(Literal::Bool(*b)), p + 1)),
        TokenKindOf::IntLiteral(v) => Ok((Pattern::Literal(Literal::Int(*v)), p + 1)),
        TokenKindOf::StringLiteral(s) => Ok((Pattern::Literal(Literal::String(copy_string(s))), p + 1)),
        _ => Err(error_at(t, p, "unsupported pattern")),
    }
}

fn pattern_items_x(t: &Vec<Token>, p: usize, acc: Vec<Pattern>) -> (r: Result<(Vec<Pattern>, usize), Error>)
    requires
        p <= t.len(),
    ensures
        r_patterns(r) == pattern_items(token_views(t@), p as int, patterns_v(acc@)),
        moves(r, p, t.len()),
    decreases t.len() - p, 1int,
{
    match pattern_x(t, p) {
        Ok((x, q)) => {
            let ghost xv = pattern_v(x);
            let mut acc = acc;
            let ghost a0 = acc@;
            acc.push(x);
            assert(acc@.drop_last() =~= a0);
            assert(patterns_v(acc@) == patterns_v(a0).push(xv));
            if check(t, q, &TokenKindOf::Comma) {
                pattern_items_x(t, q + 1, acc)
            } else {
                Ok((acc, q))
            }
        },
        Err(e) => Err(e),
    }
}


/// A parse error at the token at `p` with a message already built.
fn error_at_owned(t: &Vec<Token>, p: usize, msg: String) -> (e: Error)
    ensures
        e@ == perr(token_views(t@), p as int, msg@),
{
    let span = if p < t.len() {
        t[p].span
    } else {
        (0, 0)
    };
    Error::parse_owned(Some(span), msg)
}

fn op_at_x(t: &Vec<Token>, p: usize, lvl: u8) -> (r: Option<BinaryOp>)
    ensures
        r == op_at(token_views(t@), p as int, lvl as int),
{
    if p >= t.len() {
        return None;
    }
    let k = &t[p].kind;
    match k {
        TokenKindOf::OrOr => if lvl == 12 { Some(BinaryOp::Or) } else { None },
        TokenKindOf::AndAnd => if lvl == 11 { Some(BinaryOp::And) } else { None },
        TokenKindOf::EqEq => if lvl == 10 { Some(BinaryOp::Eq) } else { None },
        TokenKindOf::NotEq => if lvl == 10 { Some(BinaryOp::Ne) } else { None },
        TokenKindOf::Lt => if lvl == 9 { Some(BinaryOp::Lt) } else { None },
        TokenKindOf::Le => if lvl == 9 { Some(BinaryOp::Le) } else { None },
        TokenKindOf::Gt => if lvl == 9 { Some(BinaryOp::Gt) } else { None },
        TokenKindOf::Ge => if lvl == 9 { Some(BinaryOp::Ge) } else { None },
        TokenKindOf::Plus => if lvl == 8 { Some(BinaryOp::Add) } else { None },
        TokenKindOf::Minus => if lvl == 8 { Some(BinaryOp::Sub) } else { None },
        TokenKindOf::Star => if lvl == 7 { Some(BinaryOp::Mul) } else { None },
        TokenKindOf::Slash => if lvl == 7 { Some(BinaryOp::Div) } else { None },
        TokenKindOf::Percent => if lvl == 7 { Some(BinaryOp::Mod) } else { None },
        _ => None,
    }
}

fn expression_x(t: &Vec<Token>, p: usize) -> (r: Result<(Expr, usize), Error>)
    requires
        p <= t.len(),
    ensures
        r_expr(r) == expression(token_views(t@), p as int),
        moves(r, p, t.len()),
    decreases t.len() - p, 14int,
{
    assignment_x(t, p)
}

fn assignment_x(t: &Vec<Token>, p: usize) -> (r: Result<(Expr, usize), Error>)
    requires
        p <= t.len(),
    ensures
        r_expr(r) == assignment(token_views(t@), p as int),
        moves(r, p, t.len()),
    decreases t.len() - p, 13int,
{
    match binary_x(t, p, 12) {
        Ok((lhs, q)) => if check(t, q, &TokenKindOf::Assign) {
            match assignment_x(t, q + 1) {
                Ok((v, r)) => Ok((Expr::Assignment { target: Box::new(lhs), value: Box::new(v) }, r)),
                Err(e) => Err(e),
            }
        } else {
            Ok((lhs, q))
        },
        Err(e) => Err(e),
    }
}

fn binary_x(t: &Vec<Token>, p: usize, lvl: u8) -> (r: Result<(Expr, usize), Error>)
    requires
        p <= t.len(),
        7 <= lvl <= 12,
    ensures
        r_expr(r) == binary(token_views(t@), p as int, lvl as int),
        moves(r, p, t.len()),
    decreases t.len() - p, lvl as int,
{
    let first = if lvl <= 7 {
        unary_x(t, p)
    } else {
        binary_x(t, p, lvl - 1)
    };
    match first {
        Ok((lhs, q)) => binary_rest_x(t, lhs, q, lvl),
        Err(e) => Err(e),
    }
}

fn binary_rest_x(t: &Vec<Token>, lhs: Expr, p: usize, lvl: u8) -> (r: Result<(Expr, usize), Error>)
    requires
        p <= t.len(),
        7 <= lvl <= 12,
    ensures
        r_expr(r) == binary_rest(token_views(t@), expr_v(lhs), p as int, lvl as int),
        r matches Ok((_, q)) ==> p <= q <= t.len(),
    decreases t.len() - p, lvl as int,
{
    match op_at_x(t, p, lvl) {
        Some(op) => {
            let rhs = if lvl <= 7 {
                unary_x(t, p + 1)
            } else {
                binary_x(t, p + 1, lvl - 1)
            };
            match rhs {
                Ok((r, q)) => binary_rest_x(t, Expr::Binary { lhs: Box::new(lhs), op, rhs: Box::new(r) }, q, lvl),
                Err(e) => Err(e),
            }
        },
        None => Ok((lhs, p)),
    }
}

#[verifier::spinoff_prover]
#[verifier::rlimit(100)]
fn unary_x(t: &Vec<Token>, p: usize) -> (r: Result<(Expr, usize), Error>)
    requires
        p <= t.len(),
    ensures
        r_expr(r) == unary(token_views(t@), p as int),
        moves(r, p, t.len()),
    decreases t.len() - p, 6int,
{
    let bang = check(t, p, &TokenKindOf::Bang);
    let minus = check(t, p, &TokenKindOf::Minus);
    let amp = check(t, p, &TokenKindOf::Ampersand);
    let aw = check(t, p, &TokenKindOf::Await);
    let sp = check(t, p, &TokenKindOf::Spawn);
    if bang || minus || amp || aw || sp {
        match unary_x(t, p + 1) {
            Ok((x, q)) => Ok((make_unary(t, p, x), q)),
            Err(e) => Err(e),
        }
    } else {
        postfix_x(t, p)
    }
}

fn make_unary(t: &Vec<Token>, p: usize, x: Expr) -> (e: Expr)
    ensures
        expr_v(e) == unary_node(token_views(t@), p as int, expr_v(x)),
{
    let b = Box::new(x);
    if check(t, p, &TokenKindOf::Bang) {
        Expr::Unary { op: UnaryOp::Not, expr: b }
    } else if check(t, p, &TokenKindOf::Minus) {
        Expr::Unary { op: UnaryOp::Neg, expr: b }
    } else if check(t, p, &TokenKindOf::Ampersand) {
        Expr::Unary { op: UnaryOp::Ref, expr: b }
    } else if check(t, p, &TokenKindOf::Await) {
        Expr::Await(b)
    } else {
        Expr::Spawn(b)
    }
}

fn postfix_x(t: &Vec<Token>, p: usize) -> (r: Result<(Expr, usize), Error>)
    requires
        p <= t.len(),
    ensures
        r_expr(r) == postfix(token_views(t@), p as int),
        moves(r, p, t.len()),
    decreases t.len() - p, 5int,
{
    match primary_x(t, p) {
        Ok((e, q)) => postfix_rest_x(t, e, q),
        Err(e) => Err(e),
    }
}

fn postfix_rest_x(t: &Vec<Token>, e: Expr, p: usize) -> (r: Result<(Expr, usize), Error>)
    requires
        p <= t.len(),
    ensures
        r_expr(r) == postfix_rest(token_views(t@), expr_v(e), p as int),
        r matches Ok((_, q)) ==> p <= q <= t.len(),
    decreases t.len() - p, 5int,
{
    if check(t, p, &TokenKindOf::LParen) {
        let args = if check(t, p + 1, &TokenKindOf::RParen) {
            let v: Vec<Expr> = Vec::new();
            assert(exprs_v(v@) =~= Seq::<ExprV>::empty());
            Ok((v, p + 1))
        } else {
            let v: Vec<Expr> = Vec::new();
            assert(exprs_v(v@) =~= Seq::<ExprV>::empty());
            args_items_x(t, p + 1, v)
        };
        match args {
            Ok((a, q)) => match expect_tok(t, q, &TokenKindOf::RParen, "expected ')' after call arguments") {
                Ok(r) => postfix_rest_x(t, Expr::Call { callee: Box::new(e), args: a }, r),
                Err(err) => Err(err),
            },
            Err(err) => Err(err),
        }
    } else if check(t, p, &TokenKindOf::Dot) {
        match ident_tok(t, p + 1) {
            Ok((name, q)) => postfix_rest_x(t, Expr::Field { expr: Box::new(e), name }, q),
            Err(err) => Err(err),
        }
    } else if check(t, p, &TokenKindOf::Question) {
        postfix_rest_x(t, Expr::Try(Box::new(e)), p + 1)
    } else if check(t, p, &TokenKindOf::LBracket) {
        match expression_x(t, p + 1) {
            Ok((i, q)) => match expect_tok(t, q, &TokenKindOf::RBracket, "expected ']' after index expression") {
                Ok(r) => postfix_rest_x(t, Expr::Index { expr: Box::new(e), index: Box::new(i) }, r),
                Err(err) => Err(err),
            },
            Err(err) => Err(err),
        }
    } else {
        Ok((e, p))
    }
}

fn args_items_x(t: &Vec<Token>, p: usize, acc: Vec<Expr>) -> (r: Result<(Vec<Expr>, usize), Error>)
    requires
        p <= t.len(),
    ensures
        r_exprs(r) == args_items(token_views(t@), p as int, exprs_v(acc@)),
        moves(r, p, t.len()),
    decreases t.len() - p, 15int,
{
    match expression_x(t, p) {
        Ok((a, q)) => {
            let ghost av = expr_v(a);
            let mut acc = acc;
            let ghost a0 = acc@;
            acc.push(a);
            assert(acc@.drop_last() =~= a0);
            assert(exprs_v(acc@) == exprs_v(a0).push(av));
            if check(t, q, &TokenKindOf::Comma) {
                args_items_x(t, q + 1, acc)
            } else {
                Ok((acc, q))
            }
        },
        Err(e) => Err(e),
    }
}


/// The view of a token kind keeps the variants that open control flow.
proof fn lemma_control_kinds(k: TokenKind)
    ensures
        (k@ is Chan) == (k is Chan),
        (k@ is If) == (k is If),
        (k@ is Loop) == (k is Loop),
        (k@ is While) == (k is While),
        (k@ is For) == (k is For),
        (k@ is Match) == (k is Match),
        (k@ is LBrace) == (k is LBrace),
        (k@ is Using) == (k is Using),
{
}

#[verifier::spinoff_prover]
#[verifier::rlimit(60)]
fn primary_x(t: &Vec<Token>, p: usize) -> (r: Result<(Expr, usize), Error>)
    requires
        p <= t.len(),
    ensures
        r_expr(r) == primary(token_views(t@), p as int),
        moves(r, p, t.len()),
    decreases t.len() - p, 4int,
{
    if p >= t.len() {
        return atom_x(t, p);
    }
    let k = &t[p].kind;
    proof {
        lemma_control_kinds(*k);
        assert(kind_at(token_views(t@), p as int) == k@);
    }
    if matches!(k, TokenKindOf::Chan) {
        chan_x(t, p)
    } else if matches!(k, TokenKindOf::If) {
        if_x(t, p)
    } else if matches!(k, TokenKindOf::Loop) {
        loop_x(t, p)
    } else if matches!(k, TokenKindOf::While) {
        while_x(t, p)
    } else if matches!(k, TokenKindOf::For) {
        for_x(t, p)
    } else if matches!(k, TokenKindOf::Match) {
        match_x(t, p)
    } else if matches!(k, TokenKindOf::Using) {
        using_x(t, p)
    } else if matches!(k, TokenKindOf::LBrace) {
        match block_x(t, p) {
            Ok((b, q)) => Ok((Expr::Block(b), q)),
            Err(e) => Err(e),
        }
    } else {
        atom_x(t, p)
    }
}

/// The primary expressions that are not control flow, channels or blocks:
/// literals, paths, parenthesised expressions; anything else is an error.
#[verifier::spinoff_prover]
#[verifier::rlimit(60)]
fn atom_x(t: &Vec<Token>, p: usize) -> (r: Result<(Expr, usize), Error>)
    requires
        p <= t.len(),
    ensures
        r_expr(r) == atom(token_views(t@), p as int),
        moves(r, p, t.len()),
    decreases t.len() - p, 3int,
{
    if p >= t.len() {
        let mut m = String::new();
        push_str(&mut m, "unexpected token in expression: ");
        push_str(&mut m, "Eof");
        assert(m@ =~= "unexpected token in expression: "@ + kind_name(TokenKindOf::Eof));
        return Err(error_at_owned(t, p, m));
    }
    match &t[p].kind {
        TokenKindOf::IntLiteral(v) => Ok((Expr::Literal(Literal::Int(*v)), p + 1)),
        TokenKindOf::FloatLiteral(s) => Ok((Expr::Literal(Literal::Float(copy_string(s))), p + 1)),
        TokenKindOf::StringLiteral(s) => Ok((Expr::Literal(Literal::String(copy_string(s))), p + 1)),
        TokenKindOf::BoolLiteral(b) => Ok((Expr::Literal(Literal::Bool(*b)), p + 1)),
        TokenKindOf::Identifier(_) => match path_x(t, p, true) {
            Ok((segs, q)) => Ok((Expr::Path(Path { segments: segs }), q)),
            Err(e) => Err(e),
        },
        TokenKindOf::LParen => if check(t, p + 1, &TokenKindOf::RParen) {
            Ok((Expr::Literal(Literal::Unit), p + 2))
        } else {
            match expression_x(t, p + 1) {
                Ok((e, q)) => match expect_tok(t, q, &TokenKindOf::RParen, "expected ')' to close grouping expression") {
                    Ok(r) => Ok((e, r)),
                    Err(err) => Err(err),
                },
                Err(err) => Err(err),
            }
        },
        k => {
            let mut m = String::new();
            push_str(&mut m, "unexpected token in expression: ");
            push_kind_name(&mut m, k);
            Err(error_at_owned(t, p, m))
        },
    }
}

#[verifier::spinoff_prover]
#[verifier::rlimit(60)]
fn chan_x(t: &Vec<Token>, p: usize) -> (r: Result<(Expr, usize), Error>)
    requires
        p < t.len(),
    ensures
        r_expr(r) == chan_expr(token_views(t@), p as int),
        moves(r, p, t.len()),
    decreases t.len() - p, 3int,
{
    let p2 = match expect_tok(t, p + 1, &TokenKindOf::LBracket, "expected '[' after 'chan'") {
        Ok(q) => q,
        Err(e) => {
            return Err(e);
        },
    };
    let (ty, p3) = match type_expr_x(t, p2) {
        Ok(x) => x,
        Err(e) => {
            return Err(e);
        },
    };
    let p4 = match expect_tok(t, p3, &TokenKindOf::RBracket, "expected ']' after channel type") {
        Ok(q) => q,
        Err(e) => {
            return Err(e);
        },
    };
    if check(t, p4, &TokenKindOf::LParen) {
        if check(t, p4 + 1, &TokenKindOf::RParen) {
            Ok((Expr::Chan { ty: Box::new(ty), capacity: None }, p4 + 2))
        } else {
            match expression_x(t, p4 + 1) {
                Ok((c, p5)) => match expect_tok(t, p5, &TokenKindOf::RParen, "expected ')' after channel capacity") {
                    Ok(p6) => Ok((Expr::Chan { ty: Box::new(ty), capacity: Some(Box::new(c)) }, p6)),
                    Err(e) => Err(e),
                },
                Err(e) => Err(e),
            }
        }
    } else {
        Ok((Expr::Chan { ty: Box::new(ty), capacity: None }, p4))
    }
}

#[verifier::spinoff_prover]
#[verifier::rlimit(60)]
fn loop_x(t: &Vec<Token>, p: usize) -> (r: Result<(Expr, usize), Error>)
    requires
        p <= t.len(),
    ensures
        r_expr(r) == loop_expr(token_views(t@), p as int),
        moves(r, p, t.len()),
    decreases t.len() - p, 3int,
{
    match expect_tok(t, p, &TokenKindOf::Loop, "expected 'loop'") {
        Ok(p1) => match block_x(t, p1) {
            Ok((b, q)) => {
                assert(expr_v(Expr::Block(b)) == ExprV::Block(block_v(b)));
                Ok((Expr::Loop { body: Box::new(Expr::Block(b)) }, q))
            },
            Err(e) => Err(e),
        },
        Err(e) => Err(e),
    }
}

#[verifier::spinoff_prover]
#[verifier::rlimit(60)]
fn while_x(t: &Vec<Token>, p: usize) -> (r: Result<(Expr, usize), Error>)
    requires
        p <= t.len(),
    ensures
        r_expr(r) == while_expr(token_views(t@), p as int),
        moves(r, p, t.len()),
    decreases t.len() - p, 3int,
{
    let p1 = match expect_tok(t, p, &TokenKindOf::While, "expected 'while'") {
        Ok(q) => q,
        Err(e) => {
            return Err(e);
        },
    };
    match expression_x(t, p1) {
        Ok((c, q)) => match block_x(t, q) {
            Ok((b, r)) => {
                assert(expr_v(Expr::Block(b)) == ExprV::Block(block_v(b)));
                Ok((Expr::While { condition: Box::new(c), body: Box::new(Expr::Block(b)) }, r))
            },
            Err(e) => Err(e),
        },
        Err(e) => Err(e),
    }
}

#[verifier::spinoff_prover]
#[verifier::rlimit(60)]
fn for_x(t: &Vec<Token>, p: usize) -> (r: Result<(Expr, usize), Error>)
    requires
        p <= t.len(),
    ensures
        r_expr(r) == for_expr(token_views(t@), p as int),
        moves(r, p, t.len()),
    decreases t.len() - p, 3int,
{
    let p1 = match expect_tok(t, p, &TokenKindOf::For, "expected 'for'") {
        Ok(q) => q,
        Err(e) => {
            return Err(e);
        },
    };
    let (binding, q) = match ident_tok(t, p1) {
        Ok(x) => x,
        Err(e) => {
            return Err(e);
        },
    };
    let q2 = match expect_tok(t, q, &TokenKindOf::In, "expected 'in' in for loop") {
        Ok(x) => x,
        Err(e) => {
            return Err(e);
        },
    };
    match expression_x(t, q2) {
        Ok((it, r)) => match block_x(t, r) {
            Ok((b, s)) => {
                assert(expr_v(Expr::Block(b)) == ExprV::Block(block_v(b)));
                Ok((Expr::For { binding, iterable: Box::new(it), body: Box::new(Expr::Block(b)) }, s))
            },
            Err(e) => Err(e),
        },
        Err(e) => Err(e),
    }
}

#[verifier::spinoff_prover]
#[verifier::rlimit(60)]
fn match_x(t: &Vec<Token>, p: usize) -> (r: Result<(Expr, usize), Error>)
    requires
        p <= t.len(),
    ensures
        r_expr(r) == match_expr(token_views(t@), p as int),
        moves(r, p, t.len()),
    decreases t.len() - p, 3int,
{
    let p1 = match expect_tok(t, p, &TokenKindOf::Match, "expected 'match'") {
        Ok(q) => q,
        Err(e) => {
            return Err(e);
        },
    };
    let (s, q) = match expression_x(t, p1) {
        Ok(x) => x,
        Err(e) => {
            return Err(e);
        },
    };
    let q2 = match expect_tok(t, q, &TokenKindOf::LBrace, "expected '{' to start match arms") {
        Ok(x) => x,
        Err(e) => {
            return Err(e);
        },
    };
    let v: Vec<MatchArm> = Vec::new();
    assert(arms_v(v@) =~= Seq::<MatchArmV>::empty());
    match arms_x(t, q2, v) {
        Ok((a, r)) => match expect_tok(t, r, &TokenKindOf::RBrace, "expected '}' to close match") {
            Ok(r2) => Ok((Expr::Match { scrutinee: Box::new(s), arms: a }, r2)),
            Err(e) => Err(e),
        },
        Err(e) => Err(e),
    }
}

#[verifier::spinoff_prover]
#[verifier::rlimit(60)]
fn using_x(t: &Vec<Token>, p: usize) -> (r: Result<(Expr, usize), Error>)
    requires
        p <= t.len(),
    ensures
        r_expr(r) == using_expr(token_views(t@), p as int),
        moves(r, p, t.len()),
    decreases t.len() - p, 3int,
{
    let p1 = match expect_tok(t, p, &TokenKindOf::Using, "expected 'using'") {
        Ok(q) => q,
        Err(e) => {
            return Err(e);
        },
    };
    let mut binding: Option<String> = None;
    if p1 < t.len() {
        match &t[p1].kind {
            TokenKindOf::Identifier(n) => if check(t, p1 + 1, &TokenKindOf::Assign) {
                binding = Some(copy_string(n));
            },
            _ => {},
        }
    }
    assert(opt_str(binding) == match kind_at(token_views(t@), p1 as int) {
        TokenKindOf::Identifier(n) => if at(token_views(t@), p1 + 1, TokenKindOf::Assign) {
            Some(n)
        } else {
            None
        },
        _ => None,
    });
    let p2 = if binding.is_some() {
        p1 + 2
    } else {
        p1
    };
    let (e, q) = match expression_x(t, p2) {
        Ok(x) => x,
        Err(err) => {
            return Err(err);
        },
    };
    match block_x(t, q) {
        Ok((b, r)) => Ok((Expr::Using { binding, expr: Box::new(e), body: b }, r)),
        Err(err) => Err(err),
    }
}

#[verifier::spinoff_prover]
#[verifier::rlimit(60)]
fn if_x(t: &Vec<Token>, p: usize) -> (r: Result<(Expr, usize), Error>)
    requires
        p <= t.len(),
    ensures
        r_expr(r) == if_expr(token_views(t@), p as int),
        moves(r, p, t.len()),
    decreases t.len() - p, 3int,
{
    let p1 = match expect_tok(t, p, &TokenKindOf::If, "expected 'if'") {
        Ok(q) => q,
        Err(e) => {
            return Err(e);
        },
    };
    let (c, q) = match expression_x(t, p1) {
        Ok(x) => x,
        Err(e) => {
            return Err(e);
        },
    };
    let (b, r) = match block_x(t, q) {
        Ok(x) => x,
        Err(e) => {
            return Err(e);
        },
    };
    assert(expr_v(Expr::Block(b)) == ExprV::Block(block_v(b)));
    if check(t, r, &TokenKindOf::Else) {
        let els = if check(t, r + 1, &TokenKindOf::If) {
            if_x(t, r + 1)
        } else {
            match block_x(t, r + 1) {
                Ok((eb, s)) => {
                    assert(expr_v(Expr::Block(eb)) == ExprV::Block(block_v(eb)));
                    Ok((Expr::Block(eb), s))
                },
                Err(e) => Err(e),
            }
        };
        match els {
            Ok((x, s)) => Ok((
                Expr::If {
                    condition: Box::new(c),
                    then_branch: Box::new(Expr::Block(b)),
                    else_branch: Some(Box::new(x)),
                },
                s,
            )),
            Err(e) => Err(e),
        }
    } else {
        Ok((Expr::If { condition: Box::new(c), then_branch: Box::new(Expr::Block(b)), else_branch: None }, r))
    }
}

#[verifier::spinoff_prover]
#[verifier::rlimit(60)]
fn arms_x(t: &Vec<Token>, p: usize, acc: Vec<MatchArm>) -> (r: Result<(Vec<MatchArm>, usize), Error>)
    requires
        p <= t.len(),
    ensures
        r_arms(r) == arms(token_views(t@), p as int, arms_v(acc@)),
        r matches Ok((_, q)) ==> p <= q <= t.len(),
    decreases t.len() - p, 3int,
{
    if check(t, p, &TokenKindOf::RBrace) {
        return Ok((acc, p));
    }
    let (pat, q) = match pattern_x(t, p) {
        Ok(x) => x,
        Err(e) => {
            return Err(e);
        },
    };
    let guard = if check(t, q, &TokenKindOf::If) {
        match expression_x(t, q + 1) {
            Ok((g, r)) => Ok((Some(g), r)),
            Err(e) => Err(e),
        }
    } else {
        Ok((None, q))
    };
    let (g, r) = match guard {
        Ok(x) => x,
        Err(e) => {
            return Err(e);
        },
    };
    let r2 = match expect_tok(t, r, &TokenKindOf::FatArrow, "expected '=>' in match arm") {
        Ok(x) => x,
        Err(e) => {
            return Err(e);
        },
    };
    match expression_x(t, r2) {
        Ok((body, s)) => {
            let arm = MatchArm { pattern: pat, guard: g, body };
            let ghost av = arms_v(seq![arm]).last();
            let mut acc = acc;
            let ghost a0 = acc@;
            acc.push(arm);
            proof {
                assert(acc@.drop_last() =~= a0);
                assert(seq![arm].drop_last() =~= Seq::<MatchArm>::empty());
                assert(arms_v(acc@) == arms_v(a0).push(av));
            }
            if check(t, s, &TokenKindOf::Comma) {
                arms_x(t, s + 1, acc)
            } else {
                Ok((acc, s))
            }
        },
        Err(e) => Err(e),
    }
}

#[verifier::spinoff_prover]
#[verifier::rlimit(60)]
fn block_x(t: &Vec<Token>, p: usize) -> (r: Result<(Block, usize), Error>)
    requires
        p <= t.len(),
    ensures
        r_block(r) == block(token_views(t@), p as int),
        moves(r, p, t.len()),
    decreases t.len() - p, 3int,
{
    let p1 = match expect_tok(t, p, &TokenKindOf::LBrace, "expected '{' to start block") {
        Ok(x) => x,
        Err(e) => {
            return Err(e);
        },
    };
    let v: Vec<Stmt> = Vec::new();
    assert(stmts_v(v@) =~= Seq::<StmtV>::empty());
    match stmts_x(t, p1, v) {
        Ok((ss, q)) => match expect_tok(t, q, &TokenKindOf::RBrace, "expected '}' to close block") {
            Ok(r) => Ok((Block { statements: ss }, r)),
            Err(e) => Err(e),
        },
        Err(e) => Err(e),
    }
}

#[verifier::spinoff_prover]
#[verifier::rlimit(60)]
fn stmts_x(t: &Vec<Token>, p: usize, acc: Vec<Stmt>) -> (r: Result<(Vec<Stmt>, usize), Error>)
    requires
        p <= t.len(),
    ensures
        r_stmts(r) == stmts(token_views(t@), p as int, stmts_v(acc@)),
        r matches Ok((_, q)) ==> p <= q <= t.len(),
    decreases t.len() - p, 16int,
{
    if check(t, p, &TokenKindOf::RBrace) || check(t, p, &TokenKindOf::Eof) {
        return Ok((acc, p));
    }
    match statement_x(t, p) {
        Ok((st, q)) => {
            let ghost sv = stmt_v(st);
            let mut acc = acc;
            let ghost a0 = acc@;
            acc.push(st);
            assert(acc@.drop_last() =~= a0);
            assert(stmts_v(acc@) == stmts_v(a0).push(sv));
            stmts_x(t, q, acc)
        },
        Err(e) => Err(e),
    }
}

#[verifier::spinoff_prover]
#[verifier::rlimit(60)]
fn statement_x(t: &Vec<Token>, p: usize) -> (r: Result<(Stmt, usize), Error>)
    requires
        p <= t.len(),
    ensures
        r_stmt(r) == statement(token_views(t@), p as int),
        moves(r, p, t.len()),
    decreases t.len() - p, 15int,
{
    if check(t, p, &TokenKindOf::Let) {
        let mutable = check(t, p + 1, &TokenKindOf::Mut);
        let p1 = skip_tok(t, p + 1, &TokenKindOf::Mut);
        let (name, q) = match ident_tok(t, p1) {
            Ok(x) => x,
            Err(e) => {
                return Err(e);
            },
        };
        let q2 = match expect_tok(t, q, &TokenKindOf::Assign, "expected '=' in let binding") {
            Ok(x) => x,
            Err(e) => {
                return Err(e);
            },
        };
        match expression_x(t, q2) {
            Ok((value, r)) => Ok((Stmt::Let(LetStmt { mutable, name, value }), skip_tok(t, r, &TokenKindOf::Semi))),
            Err(e) => Err(e),
        }
    } else if check(t, p, &TokenKindOf::Return) {
        if check(t, p + 1, &TokenKindOf::Semi) {
            Ok((Stmt::Return(None), p + 2))
        } else {
            match expression_x(t, p + 1) {
                Ok((e, q)) => Ok((Stmt::Return(Some(e)), skip_tok(t, q, &TokenKindOf::Semi))),
                Err(err) => Err(err),
            }
        }
    } else if check(t, p, &TokenKindOf::Break) {
        Ok((Stmt::Break, skip_tok(t, p + 1, &TokenKindOf::Semi)))
    } else if check(t, p, &TokenKindOf::Continue) {
        Ok((Stmt::Continue, skip_tok(t, p + 1, &TokenKindOf::Semi)))
    } else {
        match expression_x(t, p) {
            Ok((e, q)) => Ok((Stmt::Expr(e), skip_tok(t, q, &TokenKindOf::Semi))),
            Err(err) => Err(err),
        }
    }
}


fn param_items_x(t: &Vec<Token>, p: usize, acc: Vec<Param>) -> (r: Result<(Vec<Param>, usize), Error>)
    requires
        p <= t.len(),
    ensures
        match r {
            Ok((ps, q)) => param_items(token_views(t@), p as int, params_v(acc@)) == Ok::<(Seq<ParamV>, int), SpecError>(
                (params_v(ps@), q as int),
            ) && p < q <= t.len(),
            Err(e) => param_items(token_views(t@), p as int, params_v(acc@)) == Err::<(Seq<ParamV>, int), SpecError>(e@),
        },
    decreases t.len() - p,
{
    let mutable = check(t, p, &TokenKindOf::Mut);
    let p1 = skip_tok(t, p, &TokenKindOf::Mut);
    let (name, q) = match ident_tok(t, p1) {
        Ok(x) => x,
        Err(e) => {
            return Err(e);
        },
    };
    let q2 = match expect_tok(t, q, &TokenKindOf::Colon, "expected ':' after parameter name") {
        Ok(x) => x,
        Err(e) => {
            return Err(e);
        },
    };
    match type_expr_x(t, q2) {
        Ok((ty, r)) => {
            let param = Param { name, ty, mutable };
            let ghost pv = param_v(param);
            let mut acc = acc;
            let ghost a0 = acc@;
            acc.push(param);
            assert(acc@.drop_last() =~= a0);
            assert(params_v(acc@) == params_v(a0).push(pv));
            if check(t, r, &TokenKindOf::Comma) {
                param_items_x(t, r + 1, acc)
            } else {
                Ok((acc, r))
            }
        },
        Err(e) => Err(e),
    }
}

fn fn_head_x(t: &Vec<Token>, p: usize) -> (r: Result<(String, Vec<String>, Vec<Param>, usize), Error>)
    requires
        p <= t.len(),
    ensures
        match r {
            Ok((n, g, ps, q)) => fn_head(token_views(t@), p as int) == Ok::<((Seq<char>, Seq<Seq<char>>, Seq<ParamV>), int), SpecError>(
                ((n@, views(g@), params_v(ps@)), q as int),
            ) && p < q <= t.len(),
            Err(e) => fn_head(token_views(t@), p as int) == Err::<((Seq<char>, Seq<Seq<char>>, Seq<ParamV>), int), SpecError>(e@),
        },
{
    proof {
        reveal(fn_head);
    }
    let (name, p1) = match ident_tok(t, p) {
        Ok(x) => x,
        Err(e) => {
            return Err(e);
        },
    };
    let gens = if check(t, p1, &TokenKindOf::LBracket) {
        ident_list_x(t, p1 + 1, &TokenKindOf::RBracket, "expected closing ']' in generic parameters")
    } else {
        let v: Vec<String> = Vec::new();
        assert(views(v@) =~= Seq::<Seq<char>>::empty());
        Ok((v, p1))
    };
    let (generics, p2) = match gens {
        Ok(x) => x,
        Err(e) => {
            return Err(e);
        },
    };
    let p3 = match expect_tok(t, p2, &TokenKindOf::LParen, "expected '(' in parameter list") {
        Ok(x) => x,
        Err(e) => {
            return Err(e);
        },
    };
    let v: Vec<Param> = Vec::new();
    assert(params_v(v@) =~= Seq::<ParamV>::empty());
    let ps = if check(t, p3, &TokenKindOf::RParen) {
        Ok((v, p3))
    } else {
        param_items_x(t, p3, v)
    };
    let (params, p4) = match ps {
        Ok(x) => x,
        Err(e) => {
            return Err(e);
        },
    };
    match expect_tok(t, p4, &TokenKindOf::RParen, "expected ')' to close parameter list") {
        Ok(p5) => Ok((name, generics, params, p5)),
        Err(e) => Err(e),
    }
}

fn fn_tail_x(t: &Vec<Token>, p: usize) -> (r: Result<(Option<TypeExpr>, Vec<String>, usize), Error>)
    requires
        p <= t.len(),
    ensures
        match r {
            Ok((rt, es, q)) => fn_tail(token_views(t@), p as int) == Ok::<((Option<TypeExprV>, Seq<Seq<char>>), int), SpecError>(
                ((match rt { Some(x) => Some(type_v(x)), None => None }, views(es@)), q as int),
            ) && p <= q <= t.len(),
            Err(e) => fn_tail(token_views(t@), p as int) == Err::<((Option<TypeExprV>, Seq<Seq<char>>), int), SpecError>(e@),
        },
{
    proof {
        reveal(fn_tail);
    }
    let ret = if check(t, p, &TokenKindOf::ThinArrow) {
        match type_expr_x(t, p + 1) {
            Ok((ty, q)) => Ok((Some(ty), q)),
            Err(e) => Err(e),
        }
    } else {
        Ok((None, p))
    };
    let (return_type, p6) = match ret {
        Ok(x) => x,
        Err(e) => {
            return Err(e);
        },
    };
    let effs = if check(t, p6, &TokenKindOf::Bang) {
        match expect_tok(t, p6 + 1, &TokenKindOf::LBrace, "expected '{' after '!' for effect row") {
            Ok(p7) => ident_list_x(t, p7, &TokenKindOf::RBrace, "expected '}' to close effect row"),
            Err(e) => Err(e),
        }
    } else {
        let v: Vec<String> = Vec::new();
        assert(views(v@) =~= Seq::<Seq<char>>::empty());
        Ok((v, p6))
    };
    match effs {
        Ok((effect_row, p8)) => Ok((return_type, effect_row, p8)),
        Err(e) => Err(e),
    }
}

fn function_x(t: &Vec<Token>, p: usize, is_public: bool) -> (r: Result<(Function, usize), Error>)
    requires
        p <= t.len(),
    ensures
        match r {
            Ok((f, q)) => function(token_views(t@), p as int, is_public) == Ok::<(FunctionV, int), SpecError>(
                (function_v(f), q as int),
            ) && p < q <= t.len(),
            Err(e) => function(token_views(t@), p as int, is_public) == Err::<(FunctionV, int), SpecError>(e@),
        },
{
    proof {
        reveal(function);
    }
    let (name, generics, params, p5) = match fn_head_x(t, p) {
        Ok(x) => x,
        Err(e) => {
            return Err(e);
        },
    };
    let (return_type, effect_row, p8) = match fn_tail_x(t, p5) {
        Ok(x) => x,
        Err(e) => {
            return Err(e);
        },
    };
    match block_x(t, p8) {
        Ok((body, p9)) => Ok((Function { is_public, name, generics, params, return_type, effect_row, body }, p9)),
        Err(e) => Err(e),
    }
}

fn variants_x(t: &Vec<Token>, p: usize, acc: Vec<TypeVariant>) -> (r: Result<(Vec<TypeVariant>, usize), Error>)
    requires
        p <= t.len(),
    ensures
        match r {
            Ok((vs, q)) => variants(token_views(t@), p as int, variants_v(acc@)) == Ok::<(Seq<TypeVariantV>, int), SpecError>(
                (variants_v(vs@), q as int),
            ) && p < q <= t.len(),
            Err(e) => variants(token_views(t@), p as int, variants_v(acc@)) == Err::<(Seq<TypeVariantV>, int), SpecError>(e@),
        },
    decreases t.len() - p,
{
    let (name, q) = match ident_tok(t, p) {
        Ok(x) => x,
        Err(e) => {
            return Err(e);
        },
    };
    let fields = if check(t, q, &TokenKindOf::LParen) {
        match type_list_x(t, q + 1, &TokenKindOf::RParen) {
            Ok((fs, r)) => match expect_tok(t, r, &TokenKindOf::RParen, "expected ')' after variant fields") {
                Ok(r2) => Ok((fs, r2)),
                Err(e) => Err(e),
            },
            Err(e) => Err(e),
        }
    } else {
        let v: Vec<TypeExpr> = Vec::new();
        assert(types_v(v@) =~= Seq::<TypeExprV>::empty());
        Ok((v, q))
    };
    match fields {
        Ok((fs, r)) => {
            let v = TypeVariant { name, fields: fs };
            let ghost vv = TypeVariantV { name: v.name@, fields: types_v(v.fields@) };
            let mut acc = acc;
            let ghost a0 = acc@;
            acc.push(v);
            assert(acc@.drop_last() =~= a0);
            assert(variants_v(acc@) == variants_v(a0).push(vv));
            if check(t, r, &TokenKindOf::Pipe) {
                variants_x(t, r + 1, acc)
            } else {
                Ok((acc, r))
            }
        },
        Err(e) => Err(e),
    }
}

fn alias_value_x(t: &Vec<Token>, p: usize) -> (r: Result<(TypeExpr, usize), Error>)
    requires
        p <= t.len(),
    ensures
        r_type(r) == alias_value(token_views(t@), p as int),
        moves(r, p, t.len()),
{
    let named = p < t.len() && matches!(t[p].kind, TokenKindOf::Identifier(_));
    proof {
        if p < t.len() {
            assert(kind_at(token_views(t@), p as int) == t@[p as int].kind@);
        }
    }
    if named && (check(t, p + 1, &TokenKindOf::Pipe) || check(t, p + 1, &TokenKindOf::LParen)) {
        let v: Vec<TypeVariant> = Vec::new();
        assert(variants_v(v@) =~= Seq::<TypeVariantV>::empty());
        match variants_x(t, p, v) {
            Ok((vs, q)) => Ok((TypeExpr::Sum(vs), q)),
            Err(e) => Err(e),
        }
    } else {
        type_expr_x(t, p)
    }
}

fn type_alias_x(t: &Vec<Token>, p: usize, is_public: bool) -> (r: Result<(TypeAlias, usize), Error>)
    requires
        p <= t.len(),
    ensures
        match r {
            Ok((a, q)) => type_alias(token_views(t@), p as int, is_public) == Ok::<(TypeAliasV, int), SpecError>(
                (alias_v(a), q as int),
            ) && p < q <= t.len(),
            Err(e) => type_alias(token_views(t@), p as int, is_public) == Err::<(TypeAliasV, int), SpecError>(e@),
        },
{
    proof {
        reveal(type_alias);
    }
    let (name, p1) = match ident_tok(t, p) {
        Ok(x) => x,
        Err(e) => {
            return Err(e);
        },
    };
    let ps = if check(t, p1, &TokenKindOf::LBracket) {
        ident_list_x(t, p1 + 1, &TokenKindOf::RBracket, "expected closing ']' in type parameters")
    } else {
        let v: Vec<String> = Vec::new();
        assert(views(v@) =~= Seq::<Seq<char>>::empty());
        Ok((v, p1))
    };
    let (params, p2) = match ps {
        Ok(x) => x,
        Err(e) => {
            return Err(e);
        },
    };
    let p3 = match expect_tok(t, p2, &TokenKindOf::Assign, "expected '=' in type alias") {
        Ok(x) => x,
        Err(e) => {
            return Err(e);
        },
    };
    match alias_value_x(t, p3) {
        Ok((value, p4)) => Ok((TypeAlias { is_public, name, params, value }, p4)),
        Err(e) => Err(e),
    }
}

fn use_decl_x(t: &Vec<Token>, p: usize) -> (r: Result<(UseDecl, usize), Error>)
    requires
        p <= t.len(),
    ensures
        match r {
            Ok((u, q)) => use_decl(token_views(t@), p as int) == Ok::<(UseDeclV, int), SpecError>((use_v(u), q as int))
                && p < q <= t.len(),
            Err(e) => use_decl(token_views(t@), p as int) == Err::<(UseDeclV, int), SpecError>(e@),
        },
{
    proof {
        reveal(use_decl);
    }
    let (segs, q) = match path_x(t, p, false) {
        Ok(x) => x,
        Err(e) => {
            return Err(e);
        },
    };
    let alias = if check(t, q, &TokenKindOf::As) {
        match ident_tok(t, q + 1) {
            Ok((a, r)) => Ok((Some(a), r)),
            Err(e) => Err(e),
        }
    } else {
        Ok((None, q))
    };
    let (a, r) = match alias {
        Ok(x) => x,
        Err(e) => {
            return Err(e);
        },
    };
    match expect_tok(t, r, &TokenKindOf::Semi, "expected ';' after use statement") {
        Ok(s) => Ok((UseDecl { path: segs, alias: a }, s)),
        Err(e) => Err(e),
    }
}

fn item_x(t: &Vec<Token>, p: usize) -> (r: Result<(Item, usize), Error>)
    requires
        p <= t.len(),
    ensures
        match r {
            Ok((i, q)) => item(token_views(t@), p as int) == Ok::<(ItemV, int), SpecError>((item_v(i), q as int))
                && p < q <= t.len(),
            Err(e) => item(token_views(t@), p as int) == Err::<(ItemV, int), SpecError>(e@),
        },
{
    proof {
        reveal(item);
    }
    if check(t, p, &TokenKindOf::Use) {
        match use_decl_x(t, p + 1) {
            Ok((u, q)) => Ok((Item::Use(u), q)),
            Err(e) => Err(e),
        }
    } else if check(t, p, &TokenKindOf::Type) {
        match type_alias_x(t, p + 1, false) {
            Ok((a, q)) => Ok((Item::TypeAlias(a), q)),
            Err(e) => Err(e),
        }
    } else if check(t, p, &TokenKindOf::Pub) {
        if check(t, p + 1, &TokenKindOf::Fn) {
            match function_x(t, p + 2, true) {
                Ok((f, q)) => Ok((Item::Function(f), q)),
                Err(e) => Err(e),
            }
        } else if check(t, p + 1, &TokenKindOf::Type) {
            match type_alias_x(t, p + 2, true) {
                Ok((a, q)) => Ok((Item::TypeAlias(a), q)),
                Err(e) => Err(e),
            }
        } else {
            Err(error_at(t, p + 1, "expected 'fn' or 'type' after 'pub'"))
        }
    } else if check(t, p, &TokenKindOf::Fn) {
        match function_x(t, p + 1, false) {
            Ok((f, q)) => Ok((Item::Function(f), q)),
            Err(e) => Err(e),
        }
    } else {
        Err(error_at(t, p, "unexpected item"))
    }
}

fn items_x(t: &Vec<Token>, p: usize, acc: Vec<Item>) -> (r: Result<Vec<Item>, Error>)
    requires
        p <= t.len(),
    ensures
        match r {
            Ok(is) => items(token_views(t@), p as int, items_v(acc@)) == Ok::<Seq<ItemV>, SpecError>(items_v(is@)),
            Err(e) => items(token_views(t@), p as int, items_v(acc@)) == Err::<Seq<ItemV>, SpecError>(e@),
        },
    decreases t.len() - p,
{
    if check(t, p, &TokenKindOf::Eof) {
        return Ok(acc);
    }
    match item_x(t, p) {
        Ok((i, q)) => {
            let ghost iv = item_v(i);
            let mut acc = acc;
            let ghost a0 = acc@;
            acc.push(i);
            assert(acc@.drop_last() =~= a0);
            assert(items_v(acc@) == items_v(a0).push(iv));
            items_x(t, q, acc)
        },
        Err(e) => Err(e),
    }
}

/// Parses the tokens of a module.
pub fn parse_tokens(t: &Vec<Token>) -> (r: Result<Module, Error>)
    ensures
        match r {
            Ok(m) => module(token_views(t@)) == Ok::<ModuleV, SpecError>(module_v(m)),
            Err(e) => module(token_views(t@)) == Err::<ModuleV, SpecError>(e@),
        },
{
    let p1 = match expect_tok(t, 0, &TokenKindOf::Module, "expected 'module' at top of file") {
        Ok(x) => x,
        Err(e) => {
            return Err(e);
        },
    };
    let (name, p2) = match path_x(t, p1, false) {
        Ok(x) => x,
        Err(e) => {
            return Err(e);
        },
    };
    let v: Vec<Item> = Vec::new();
    assert(items_v(v@) =~= Seq::<ItemV>::empty());
    match items_x(t, p2, v) {
        Ok(is) => Ok(Module { name, items: is }),
        Err(e) => Err(e),
    }
}

/// Parses a module from its source text: the lexical error, the parse
/// error, or the module.
pub fn parse_module(source: &str) -> (r: Result<Module, Error>)
    requires
        byte_len(source@) <= usize::MAX,
    ensures
        match r {
            Ok(m) => parse_source(source@) == Ok::<ModuleV, SpecError>(module_v(m)),
            Err(e) => parse_source(source@) == Err::<ModuleV, SpecError>(e@),
        },
{
    match lex(source) {
        Ok(tokens) => parse_tokens(&tokens),
        Err(e) => Err(e),
    }
}

} // verus!
