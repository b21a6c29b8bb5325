//! Expressions: binary operators by precedence, receives, postfix
//! selectors, index, slice, call and type assertion, and operands.
//!
//! Each parsing function is stated by a spec function of the grammar over
//! the token sequence: what it reads from a position, and where it stops,
//! or the message of the first error.

use vstd::prelude::*;

use crate::frontend::ast::{
    arg_views, entry_views, expr_view, expr_views, ArgView, BinaryOperator, CallArgument, ExprView, Expression,
    MapLiteralEntry,
};
use crate::frontend::parser::{
    at_kind, error_at, error_text, expect, expect_identifier, expected_text, parse_type, tokens_wf, type_at,
    ParseError,
};
use crate::frontend::signature::TypeRef;
use crate::frontend::token::{Token, TokenKind};
use crate::text::text_is;

verus! {

/// What a parse of an expression reads: its value and the position after
/// it, or an error message.
pub type ExprResult = Result<(ExprView, int), Seq<char>>;

/// The value of an optional bound.
pub open spec fn opt_view(e: Option<Box<Expression>>) -> Option<Box<ExprView>> {
    match e {
        Some(x) => Some(Box::new(expr_view(*x))),
        None => None,
    }
}

/// Whether a list parser's outcome is the list the grammar states.
pub open spec fn exprs_outcome(r: Result<(Vec<Expression>, usize), ParseError>, s: Result<(Seq<ExprView>, int), Seq<char>>) -> bool {
    match s {
        Ok((v, end)) => r is Ok && expr_views(r->Ok_0.0@) == v && r->Ok_0.1 == end,
        Err(m) => r is Err && r->Err_0.text() == m,
    }
}

/// Whether an expression parser's outcome is the one the grammar states.
pub open spec fn expr_outcome(r: Result<(Expression, usize), ParseError>, s: ExprResult) -> bool {
    match s {
        Ok((v, end)) => r is Ok && expr_view(r->Ok_0.0) == v && r->Ok_0.1 == end,
        Err(m) => r is Err && r->Err_0.text() == m,
    }
}

/// The operator of a token at a precedence level: 4 for `==` and `!=`, 3
/// for comparisons, 2 for `+` and `-`, 1 for `*` and `/`.
pub open spec fn operator_of(kind: TokenKind, level: nat) -> Option<BinaryOperator> {
    match kind {
        TokenKind::EqualEqual => if level == 4 { Some(BinaryOperator::Equal) } else { None },
        TokenKind::BangEqual => if level == 4 { Some(BinaryOperator::NotEqual) } else { None },
        TokenKind::Less => if level == 3 { Some(BinaryOperator::Less) } else { None },
        TokenKind::LessEqual => if level == 3 { Some(BinaryOperator::LessEqual) } else { None },
        TokenKind::Greater => if level == 3 { Some(BinaryOperator::Greater) } else { None },
        TokenKind::GreaterEqual => if level == 3 { Some(BinaryOperator::GreaterEqual) } else { None },
        TokenKind::Plus => if level == 2 { Some(BinaryOperator::Add) } else { None },
        TokenKind::Minus => if level == 2 { Some(BinaryOperator::Subtract) } else { None },
        TokenKind::Star => if level == 1 { Some(BinaryOperator::Multiply) } else { None },
        TokenKind::Slash => if level == 1 { Some(BinaryOperator::Divide) } else { None },
        _ => None,
    }
}

/// Whether a name converts its argument when called, as in `string(b)`.
pub open spec fn conversion_name(name: Seq<char>) -> bool {
    name == "string"@ || name == "int"@ || name == "byte"@ || name == "bool"@ || name == "any"@
}

/// The error when `kind` is not at `p`, or the position after it.
pub open spec fn expect_at(ts: Seq<Token>, p: int, kind: TokenKind) -> Result<int, Seq<char>> {
    if ts[p].kind == kind {
        Ok(p + 1)
    } else {
        Err(error_text(ts, p, expected_text(kind)))
    }
}

/// An expression at `pos`.
pub open spec fn expression_at(ts: Seq<Token>, pos: int) -> ExprResult
    decreases ts.len() - pos, 8nat,
{
    if pos < 0 || pos >= ts.len() {
        Err(seq![])
    } else {
        binary_at(ts, pos, 4)
    }
}

/// Operands joined by operators of `level` or tighter, left to right.
pub open spec fn binary_at(ts: Seq<Token>, pos: int, level: nat) -> ExprResult
    decreases ts.len() - pos, level + 3,
{
    if pos < 0 || pos >= ts.len() {
        Err(seq![])
    } else if level == 0 {
        unary_at(ts, pos)
    } else {
        match binary_at(ts, pos, (level - 1) as nat) {
            Ok((left, p)) => if pos < p < ts.len() {
                binary_rest(ts, left, p, level)
            } else {
                Err(seq![])
            },
            Err(e) => Err(e),
        }
    }
}

/// The operators of `level` that follow `left`, which ends at `p`.
pub open spec fn binary_rest(ts: Seq<Token>, left: ExprView, p: int, level: nat) -> ExprResult
    decreases ts.len() - p, 0nat,
{
    if p < 0 || p >= ts.len() || level == 0 {
        Err(seq![])
    } else {
        match operator_of(ts[p].kind, level) {
            Some(operator) => if p + 1 < ts.len() {
                match binary_at(ts, p + 1, (level - 1) as nat) {
                    Ok((right, q)) => if p < q < ts.len() {
                        binary_rest(ts, ExprView::Binary { left: Box::new(left), operator, right: Box::new(right) }, q, level)
                    } else {
                        Err(seq![])
                    },
                    Err(e) => Err(e),
                }
            } else {
                Err(seq![])
            },
            None => Ok((left, p)),
        }
    }
}

/// A receive `<-x`, or an operand and its postfix operations.
pub open spec fn unary_at(ts: Seq<Token>, pos: int) -> ExprResult
    decreases ts.len() - pos, 2nat,
{
    if pos < 0 || pos >= ts.len() {
        Err(seq![])
    } else if ts[pos].kind is LeftArrow {
        match unary_at(ts, pos + 1) {
            Ok((channel, p)) => Ok((ExprView::Receive { channel: Box::new(channel) }, p)),
            Err(e) => Err(e),
        }
    } else {
        postfix_at(ts, pos)
    }
}

/// An operand followed by its postfix operations.
pub open spec fn postfix_at(ts: Seq<Token>, pos: int) -> ExprResult
    decreases ts.len() - pos, 1nat,
{
    if pos < 0 || pos >= ts.len() {
        Err(seq![])
    } else {
        match operand_at(ts, pos) {
            Ok((e, p)) => if pos < p < ts.len() {
                postfix_rest(ts, e, p)
            } else {
                Err(seq![])
            },
            Err(m) => Err(m),
        }
    }
}

/// The selectors, type assertions, index and slice expressions and calls
/// that follow `e`, which ends at `p`.
pub open spec fn postfix_rest(ts: Seq<Token>, e: ExprView, p: int) -> ExprResult
    decreases ts.len() - p, 0nat,
{
    if p < 0 || p >= ts.len() {
        Err(seq![])
    } else if ts[p].kind is Dot {
        if p + 1 >= ts.len() {
            Err(seq![])
        } else if ts[p + 1].kind is LeftParen {
            if p + 2 >= ts.len() {
                Err(seq![])
            } else if ts[p + 2].kind is Identifier && ts[p + 2].kind->Identifier_0@ == "type"@ {
                Err(error_text(ts, p + 2, "type switches are not supported"@))
            } else {
                match type_at(ts, p + 2) {
                    Ok((asserted_type, q)) => if p < q < ts.len() {
                        match expect_at(ts, q, TokenKind::RightParen) {
                            Ok(end) => postfix_rest(ts, ExprView::TypeAssertion { target: Box::new(e), asserted_type }, end),
                            Err(m) => Err(m),
                        }
                    } else {
                        Err(seq![])
                    },
                    Err(m) => Err(m),
                }
            }
        } else if ts[p + 1].kind is Identifier {
            postfix_rest(ts, ExprView::Selector { target: Box::new(e), member: ts[p + 1].kind->Identifier_0 }, p + 2)
        } else {
            Err(error_text(ts, p + 1, "expected identifier"@))
        }
    } else if ts[p].kind is LeftBracket {
        match index_or_slice_at(ts, p + 1, e) {
            Ok((next, q)) => if p < q < ts.len() {
                postfix_rest(ts, next, q)
            } else {
                Err(seq![])
            },
            Err(m) => Err(m),
        }
    } else if ts[p].kind is LeftParen {
        match call_at(ts, p + 1, e, true) {
            Ok((next, q)) => if p < q < ts.len() {
                postfix_rest(ts, next, q)
            } else {
                Err(seq![])
            },
            Err(m) => Err(m),
        }
    } else {
        Ok((e, p))
    }
}

/// After `[`: `x[i]`, or `x[lo:hi]` with either bound left out.
pub open spec fn index_or_slice_at(ts: Seq<Token>, pos: int, target: ExprView) -> ExprResult
    decreases ts.len() - pos, 10nat,
{
    if pos < 0 || pos >= ts.len() {
        Err(seq![])
    } else if ts[pos].kind is Colon {
        slice_high_at(ts, pos + 1, target, None)
    } else {
        match expression_at(ts, pos) {
            Ok((first, q)) => if pos < q < ts.len() {
                if ts[q].kind is Colon {
                    slice_high_at(ts, q + 1, target, Some(Box::new(first)))
                } else {
                    match expect_at(ts, q, TokenKind::RightBracket) {
                        Ok(end) => Ok((ExprView::Index { target: Box::new(target), index: Box::new(first) }, end)),
                        Err(m) => Err(m),
                    }
                }
            } else {
                Err(seq![])
            },
            Err(m) => Err(m),
        }
    }
}

/// After `lo:`: the upper bound, if any, and `]`.
pub open spec fn slice_high_at(ts: Seq<Token>, pos: int, target: ExprView, low: Option<Box<ExprView>>) -> ExprResult
    decreases ts.len() - pos, 9nat,
{
    if pos < 0 || pos >= ts.len() {
        Err(seq![])
    } else {
        let high: Result<(Option<Box<ExprView>>, int), Seq<char>> = if ts[pos].kind is RightBracket {
            Ok((None, pos))
        } else {
            match expression_at(ts, pos) {
                Ok((h, q)) => Ok((Some(Box::new(h)), q)),
                Err(m) => Err(m),
            }
        };
        match high {
            Ok((high, r)) => if 0 <= r < ts.len() {
                if ts[r].kind is Colon {
                    Err(error_text(ts, r, "full slice expressions are not supported"@))
                } else {
                    match expect_at(ts, r, TokenKind::RightBracket) {
                        Ok(end) => Ok((ExprView::Slice { target: Box::new(target), low, high }, end)),
                        Err(m) => Err(m),
                    }
                }
            } else {
                Err(seq![])
            },
            Err(m) => Err(m),
        }
    }
}

/// After `(`: the arguments of a call, of `make`, or, where `conversions`,
/// of a conversion to a named type.
pub open spec fn call_at(ts: Seq<Token>, pos: int, callee: ExprView, conversions: bool) -> ExprResult
    decreases ts.len() - pos, 11nat,
{
    if pos < 0 || pos >= ts.len() {
        Err(seq![])
    } else if callee is Identifier && callee->Identifier_0@ == "make"@ {
        match type_at(ts, pos) {
            Ok((type_ref, p)) => if pos < p < ts.len() {
                make_rest(ts, type_ref, seq![], p)
            } else {
                Err(seq![])
            },
            Err(m) => Err(m),
        }
    } else if conversions && callee is Identifier && conversion_name(callee->Identifier_0@) {
        match expression_at(ts, pos) {
            Ok((value, p)) => if pos < p < ts.len() {
                let q = if ts[p].kind is Comma { p + 1 } else { p };
                match expect_at(ts, q, TokenKind::RightParen) {
                    Ok(end) => Ok((
                        ExprView::Conversion { type_ref: TypeRef::Named(callee->Identifier_0), value: Box::new(value) },
                        end,
                    )),
                    Err(m) => Err(m),
                }
            } else {
                Err(seq![])
            },
            Err(m) => Err(m),
        }
    } else {
        match arguments_rest(ts, seq![], pos) {
            Ok((arguments, end)) => Ok((ExprView::Call { callee: Box::new(callee), arguments }, end)),
            Err(m) => Err(m),
        }
    }
}

/// The arguments of `make` after its type: `, x` each, an optional
/// trailing comma, and `)`.
pub open spec fn make_rest(ts: Seq<Token>, type_ref: TypeRef, arguments: Seq<ExprView>, p: int) -> ExprResult
    decreases ts.len() - p, 9nat,
{
    if p < 0 || p >= ts.len() {
        Err(seq![])
    } else if ts[p].kind is Comma && p + 1 < ts.len() && !(ts[p + 1].kind is RightParen) {
        match expression_at(ts, p + 1) {
            Ok((argument, q)) => if p < q < ts.len() {
                make_rest(ts, type_ref, arguments.push(argument), q)
            } else {
                Err(seq![])
            },
            Err(m) => Err(m),
        }
    } else {
        let q = if ts[p].kind is Comma { p + 1 } else { p };
        if q >= ts.len() {
            Err(seq![])
        } else {
            match expect_at(ts, q, TokenKind::RightParen) {
                Ok(end) => Ok((ExprView::Make { type_ref, arguments }, end)),
                Err(m) => Err(m),
            }
        }
    }
}

/// Call arguments from `p` up to and past `)`, after those already read;
/// only the last may be a spread `xs...`.
pub open spec fn arguments_rest(ts: Seq<Token>, arguments: Seq<ArgView>, p: int) -> Result<(Seq<ArgView>, int), Seq<char>>
    decreases ts.len() - p, 9nat,
{
    if p < 0 || p >= ts.len() {
        Err(seq![])
    } else if ts[p].kind is RightParen {
        Ok((arguments, p + 1))
    } else {
        match expression_at(ts, p) {
            Ok((value, q)) => if p < q < ts.len() && (ts[q].kind is Ellipsis ==> q + 1 < ts.len()) {
                let spread = ts[q].kind is Ellipsis;
                let next = if spread { q + 1 } else { q };
                let argument = if spread { ArgView::Spread(value) } else { ArgView::Plain(value) };
                if ts[next].kind is Comma {
                    if next + 1 >= ts.len() {
                        Err(seq![])
                    } else if spread && !(ts[next + 1].kind is RightParen) {
                        Err(error_text(ts, next + 1, "spread argument must be the final call argument"@))
                    } else {
                        arguments_rest(ts, arguments.push(argument), next + 1)
                    }
                } else {
                    match expect_at(ts, next, TokenKind::RightParen) {
                        Ok(end) => Ok((arguments.push(argument), end)),
                        Err(m) => Err(m),
                    }
                }
            } else {
                Err(seq![])
            },
            Err(m) => Err(m),
        }
    }
}

/// A literal, a name, a parenthesized expression, a composite literal
/// `[]T{...}` or `map[K]V{...}`, or a conversion `T(x)` to a written type.
pub open spec fn operand_at(ts: Seq<Token>, pos: int) -> ExprResult
    decreases ts.len() - pos, 0nat,
{
    if pos < 0 || pos + 1 >= ts.len() {
        Err(if 0 <= pos < ts.len() { error_text(ts, pos, "expected expression"@) } else { seq![] })
    } else {
        match ts[pos].kind {
            TokenKind::Integer(v) => Ok((ExprView::Integer(v), pos + 1)),
            TokenKind::Bool(v) => Ok((ExprView::Bool(v), pos + 1)),
            TokenKind::String(v) => Ok((ExprView::String(v), pos + 1)),
            TokenKind::Nil => Ok((ExprView::Nil, pos + 1)),
            TokenKind::Identifier(n) => Ok((ExprView::Identifier(n), pos + 1)),
            TokenKind::LeftParen => match expression_at(ts, pos + 1) {
                Ok((inner, p)) => if pos < p < ts.len() {
                    match expect_at(ts, p, TokenKind::RightParen) {
                        Ok(end) => Ok((inner, end)),
                        Err(m) => Err(m),
                    }
                } else {
                    Err(seq![])
                },
                Err(m) => Err(m),
            },
            TokenKind::LeftBracket | TokenKind::MapKeyword | TokenKind::Interface => match type_at(ts, pos) {
                Ok((type_ref, p)) => if pos < p < ts.len() {
                    if ts[p].kind is LeftParen && p + 1 < ts.len() {
                        match expression_at(ts, p + 1) {
                            Ok((value, q)) => if p < q < ts.len() {
                                let r = if ts[q].kind is Comma { q + 1 } else { q };
                                match expect_at(ts, r, TokenKind::RightParen) {
                                    Ok(end) => Ok((ExprView::Conversion { type_ref, value: Box::new(value) }, end)),
                                    Err(m) => Err(m),
                                }
                            } else {
                                Err(seq![])
                            },
                            Err(m) => Err(m),
                        }
                    } else if !(ts[p].kind is LeftBrace) {
                        Err(error_text(ts, p, "expected `{` or `(` after type"@))
                    } else if type_ref is Mapping {
                        match entries_rest(ts, seq![], p + 1) {
                            Ok((entries, end)) => Ok((ExprView::MapLiteral { map_type: type_ref, entries }, end)),
                            Err(m) => Err(m),
                        }
                    } else if type_ref is Slice {
                        match elements_rest(ts, seq![], p + 1) {
                            Ok((elements, end)) => Ok((ExprView::SliceLiteral { element_type: type_ref, elements }, end)),
                            Err(m) => Err(m),
                        }
                    } else {
                        Err(error_text(ts, p, "composite literal requires a slice or map type"@))
                    }
                } else {
                    Err(seq![])
                },
                Err(m) => Err(m),
            },
            _ => Err(error_text(ts, pos, "expected expression"@)),
        }
    }
}

/// The elements of a slice literal from `p` up to and past `}`, after
/// those already read.
pub open spec fn elements_rest(ts: Seq<Token>, elements: Seq<ExprView>, p: int) -> Result<(Seq<ExprView>, int), Seq<char>>
    decreases ts.len() - p, 9nat,
{
    if p < 0 || p >= ts.len() {
        Err(seq![])
    } else if ts[p].kind is RightBrace {
        Ok((elements, p + 1))
    } else {
        match expression_at(ts, p) {
            Ok((element, q)) => if p < q < ts.len() {
                if ts[q].kind is Comma {
                    elements_rest(ts, elements.push(element), q + 1)
                } else {
                    match expect_at(ts, q, TokenKind::RightBrace) {
                        Ok(end) => Ok((elements.push(element), end)),
                        Err(m) => Err(m),
                    }
                }
            } else {
                Err(seq![])
            },
            Err(m) => Err(m),
        }
    }
}

/// The `key: value` entries of a map literal from `p` up to and past `}`,
/// after those already read.
pub open spec fn entries_rest(ts: Seq<Token>, entries: Seq<(ExprView, ExprView)>, p: int) -> Result<(Seq<(ExprView, ExprView)>, int), Seq<char>>
    decreases ts.len() - p, 9nat,
{
    if p < 0 || p >= ts.len() {
        Err(seq![])
    } else if ts[p].kind is RightBrace {
        Ok((entries, p + 1))
    } else {
        match expression_at(ts, p) {
            Ok((key, q)) => if p < q < ts.len() {
                match expect_at(ts, q, TokenKind::Colon) {
                    Ok(r) => if r < ts.len() {
                        match expression_at(ts, r) {
                            Ok((value, s)) => if r < s < ts.len() {
                                if ts[s].kind is Comma {
                                    entries_rest(ts, entries.push((key, value)), s + 1)
                                } else {
                                    match expect_at(ts, s, TokenKind::RightBrace) {
                                        Ok(end) => Ok((entries.push((key, value)), end)),
                                        Err(m) => Err(m),
                                    }
                                }
                            } else {
                                Err(seq![])
                            },
                            Err(m) => Err(m),
                        }
                    } else {
                        Err(seq![])
                    },
                    Err(m) => Err(m),
                }
            } else {
                Err(seq![])
            },
            Err(m) => Err(m),
        }
    }
}

/// Expressions separated by commas, after those already read.
pub open spec fn list_rest(ts: Seq<Token>, values: Seq<ExprView>, p: int) -> Result<(Seq<ExprView>, int), Seq<char>>
    decreases ts.len() - p,
{
    if p < 0 || p >= ts.len() {
        Err(seq![])
    } else if ts[p].kind is Comma && p + 1 < ts.len() {
        match expression_at(ts, p + 1) {
            Ok((value, q)) => if p < q < ts.len() {
                list_rest(ts, values.push(value), q)
            } else {
                Err(seq![])
            },
            Err(m) => Err(m),
        }
    } else {
        Ok((values, p))
    }
}

/// One or more expressions separated by commas.
pub open spec fn expression_list_at(ts: Seq<Token>, pos: int) -> Result<(Seq<ExprView>, int), Seq<char>> {
    match expression_at(ts, pos) {
        Ok((first, p)) => list_rest(ts, seq![first], p),
        Err(m) => Err(m),
    }
}


broadcast use vstd::std_specs::control_flow::group_control_flow_axioms;

/// The binary operator at `pos` that binds at `level`.
fn operator_at(tokens: &Vec<Token>, pos: usize, level: u8) -> (r: Option<BinaryOperator>)
    requires
        pos < tokens@.len(),
    ensures
        r == operator_of(tokens@[pos as int].kind, level as nat),
{
    match (&tokens[pos].kind, level) {
        (TokenKind::EqualEqual, 4) => Some(BinaryOperator::Equal),
        (TokenKind::BangEqual, 4) => Some(BinaryOperator::NotEqual),
        (TokenKind::Less, 3) => Some(BinaryOperator::Less),
        (TokenKind::LessEqual, 3) => Some(BinaryOperator::LessEqual),
        (TokenKind::Greater, 3) => Some(BinaryOperator::Greater),
        (TokenKind::GreaterEqual, 3) => Some(BinaryOperator::GreaterEqual),
        (TokenKind::Plus, 2) => Some(BinaryOperator::Add),
        (TokenKind::Minus, 2) => Some(BinaryOperator::Subtract),
        (TokenKind::Star, 1) => Some(BinaryOperator::Multiply),
        (TokenKind::Slash, 1) => Some(BinaryOperator::Divide),
        _ => None,
    }
}

/// The expression at `pos` and the position after it.
pub fn parse_expression(tokens: &Vec<Token>, pos: usize) -> (r: Result<(Expression, usize), ParseError>)
    requires
        tokens_wf(tokens@),
        pos < tokens@.len(),
    ensures
        expr_outcome(r, expression_at(tokens@, pos as int)),
        r is Ok ==> pos < r->Ok_0.1 < tokens@.len(),
    decreases tokens@.len() - pos, 8nat,
{
    parse_binary(tokens, pos, 4)
}

/// Operands joined by operators that bind at `level` or tighter.
fn parse_binary(tokens: &Vec<Token>, pos: usize, level: u8) -> (r: Result<(Expression, usize), ParseError>)
    requires
        tokens_wf(tokens@),
        pos < tokens@.len(),
        level <= 4,
    ensures
        expr_outcome(r, binary_at(tokens@, pos as int, level as nat)),
        r is Ok ==> pos < r->Ok_0.1 < tokens@.len(),
    decreases tokens@.len() - pos, level + 3,
{
    if level == 0 {
        return parse_unary(tokens, pos);
    }
    let (left, p) = parse_binary(tokens, pos, level - 1)?;
    parse_binary_rest(tokens, left, p, level)
}

/// The operators of `level` that follow `left`, which ends at `p`.
fn parse_binary_rest(tokens: &Vec<Token>, left: Expression, p: usize, level: u8) -> (r: Result<(Expression, usize), ParseError>)
    requires
        tokens_wf(tokens@),
        p < tokens@.len(),
        1 <= level <= 4,
    ensures
        expr_outcome(r, binary_rest(tokens@, expr_view(left), p as int, level as nat)),
        r is Ok ==> p <= r->Ok_0.1 < tokens@.len(),
    decreases tokens@.len() - p, 0nat,
{
    match operator_at(tokens, p, level) {
        Some(operator) => {
            let (right, q) = parse_binary(tokens, p + 1, level - 1)?;
            parse_binary_rest(tokens, Expression::Binary { left: Box::new(left), operator, right: Box::new(right) }, q, level)
        },
        None => Ok((left, p)),
    }
}

/// A receive `<-x`, or an operand with its postfix operations.
fn parse_unary(tokens: &Vec<Token>, pos: usize) -> (r: Result<(Expression, usize), ParseError>)
    requires
        tokens_wf(tokens@),
        pos < tokens@.len(),
    ensures
        expr_outcome(r, unary_at(tokens@, pos as int)),
        r is Ok ==> pos < r->Ok_0.1 < tokens@.len(),
    decreases tokens@.len() - pos, 2nat,
{
    if at_kind(tokens, pos, TokenKind::LeftArrow) {
        let (channel, p) = parse_unary(tokens, pos + 1)?;
        Ok((Expression::Receive { channel: Box::new(channel) }, p))
    } else {
        parse_postfix(tokens, pos)
    }
}

/// Whether a name converts its argument when called: `string(b)`.
fn is_conversion_name(name: &String) -> (r: bool)
    ensures
        r == conversion_name(name@),
{
    text_is(name, "string") || text_is(name, "int") || text_is(name, "byte") || text_is(name, "bool") || text_is(name, "any")
}

/// An operand followed by its postfix operations.
fn parse_postfix(tokens: &Vec<Token>, pos: usize) -> (r: Result<(Expression, usize), ParseError>)
    requires
        tokens_wf(tokens@),
        pos < tokens@.len(),
    ensures
        expr_outcome(r, postfix_at(tokens@, pos as int)),
        r is Ok ==> pos < r->Ok_0.1 < tokens@.len(),
    decreases tokens@.len() - pos, 1nat,
{
    let (e, p) = parse_operand(tokens, pos)?;
    parse_postfix_rest(tokens, e, p)
}

/// The selectors, type assertions, index and slice expressions and calls
/// that follow `e`, which ends at `p`.
fn parse_postfix_rest(tokens: &Vec<Token>, e: Expression, p: usize) -> (r: Result<(Expression, usize), ParseError>)
    requires
        tokens_wf(tokens@),
        p < tokens@.len(),
    ensures
        expr_outcome(r, postfix_rest(tokens@, expr_view(e), p as int)),
        r is Ok ==> p <= r->Ok_0.1 < tokens@.len(),
    decreases tokens@.len() - p, 0nat,
{
    if at_kind(tokens, p, TokenKind::Dot) {
        if at_kind(tokens, p + 1, TokenKind::LeftParen) {
            let is_type_keyword = match &tokens[p + 2].kind {
                TokenKind::Identifier(name) => text_is(name, "type"),
                _ => false,
            };
            if is_type_keyword {
                return Err(error_at(tokens, p + 2, "type switches are not supported"));
            }
            let (asserted_type, q) = parse_type(tokens, p + 2)?;
            let end = expect(tokens, q, TokenKind::RightParen)?;
            return parse_postfix_rest(tokens, Expression::TypeAssertion { target: Box::new(e), asserted_type }, end);
        }
        let (member, q) = expect_identifier(tokens, p + 1)?;
        return parse_postfix_rest(tokens, Expression::Selector { target: Box::new(e), member }, q);
    }
    if at_kind(tokens, p, TokenKind::LeftBracket) {
        let (next, q) = parse_index_or_slice(tokens, p + 1, e)?;
        return parse_postfix_rest(tokens, next, q);
    }
    if at_kind(tokens, p, TokenKind::LeftParen) {
        let (next, q) = parse_call(tokens, p + 1, e, true)?;
        return parse_postfix_rest(tokens, next, q);
    }
    Ok((e, p))
}

/// After `[`: `x[i]`, `x[lo:hi]` with either bound left out.
pub fn parse_index_or_slice(tokens: &Vec<Token>, pos: usize, target: Expression) -> (r: Result<(Expression, usize), ParseError>)
    requires
        tokens_wf(tokens@),
        pos < tokens@.len(),
    ensures
        expr_outcome(r, index_or_slice_at(tokens@, pos as int, expr_view(target))),
        r is Ok ==> pos < r->Ok_0.1 < tokens@.len(),
    decreases tokens@.len() - pos, 10nat,
{
    if at_kind(tokens, pos, TokenKind::Colon) {
        return parse_slice_high(tokens, pos + 1, target, None);
    }
    let (first, q) = parse_expression(tokens, pos)?;
    if at_kind(tokens, q, TokenKind::Colon) {
        return parse_slice_high(tokens, q + 1, target, Some(Box::new(first)));
    }
    let end = expect(tokens, q, TokenKind::RightBracket)?;
    Ok((Expression::Index { target: Box::new(target), index: Box::new(first) }, end))
}

/// After `lo:`: the upper bound, if any, and `]`.
fn parse_slice_high(tokens: &Vec<Token>, pos: usize, target: Expression, low: Option<Box<Expression>>) -> (r: Result<(Expression, usize), ParseError>)
    requires
        tokens_wf(tokens@),
        pos < tokens@.len(),
    ensures
        expr_outcome(r, slice_high_at(tokens@, pos as int, expr_view(target), opt_view(low))),
        r is Ok ==> pos < r->Ok_0.1 < tokens@.len(),
    decreases tokens@.len() - pos, 9nat,
{
    let mut high: Option<Box<Expression>> = None;
    let mut r = pos;
    if !at_kind(tokens, pos, TokenKind::RightBracket) {
        let (h, q) = parse_expression(tokens, pos)?;
        high = Some(Box::new(h));
        r = q;
    }
    if at_kind(tokens, r, TokenKind::Colon) {
        return Err(error_at(tokens, r, "full slice expressions are not supported"));
    }
    let end = expect(tokens, r, TokenKind::RightBracket)?;
    Ok((Expression::Slice { target: Box::new(target), low, high }, end))
}

/// After `(`: the arguments of a call, of `make`, or, where `conversions`,
/// of a conversion to a named type.
pub fn parse_call(tokens: &Vec<Token>, pos: usize, callee: Expression, conversions: bool) -> (r: Result<(Expression, usize), ParseError>)
    requires
        tokens_wf(tokens@),
        pos < tokens@.len(),
    ensures
        expr_outcome(r, call_at(tokens@, pos as int, expr_view(callee), conversions)),
        r is Ok ==> pos < r->Ok_0.1 < tokens@.len(),
    decreases tokens@.len() - pos, 11nat,
{
    let special: u8 = match &callee {
        Expression::Identifier(name) => if text_is(name, "make") {
            1
        } else if conversions && is_conversion_name(name) {
            2
        } else {
            0
        },
        _ => 0,
    };
    if special == 1 {
        let (type_ref, p) = parse_type(tokens, pos)?;
        return parse_make_rest(tokens, type_ref, Vec::new(), p);
    }
    if special == 2 {
        let name = match callee {
            Expression::Identifier(name) => name,
            _ => String::new(),
        };
        let (value, p) = parse_expression(tokens, pos)?;
        let q = if at_kind(tokens, p, TokenKind::Comma) { p + 1 } else { p };
        let end = expect(tokens, q, TokenKind::RightParen)?;
        return Ok((Expression::Conversion { type_ref: TypeRef::Named(name), value: Box::new(value) }, end));
    }
    let (arguments, end) = parse_arguments_rest(tokens, Vec::new(), pos)?;
    Ok((Expression::Call { callee: Box::new(callee), arguments }, end))
}

/// The arguments of `make` after its type, up to and past `)`.
fn parse_make_rest(tokens: &Vec<Token>, type_ref: TypeRef, arguments: Vec<Expression>, p: usize) -> (r: Result<(Expression, usize), ParseError>)
    requires
        tokens_wf(tokens@),
        p < tokens@.len(),
    ensures
        expr_outcome(r, make_rest(tokens@, type_ref, expr_views(arguments@), p as int)),
        r is Ok ==> p < r->Ok_0.1 < tokens@.len(),
    decreases tokens@.len() - p, 9nat,
{
    if at_kind(tokens, p, TokenKind::Comma) && !at_kind(tokens, p + 1, TokenKind::RightParen) {
        let (argument, q) = parse_expression(tokens, p + 1)?;
        let mut arguments = arguments;
        let ghost before = arguments@;
        arguments.push(argument);
        assert(arguments@.drop_last() =~= before);
        return parse_make_rest(tokens, type_ref, arguments, q);
    }
    let q = if at_kind(tokens, p, TokenKind::Comma) { p + 1 } else { p };
    let end = expect(tokens, q, TokenKind::RightParen)?;
    Ok((Expression::Make { type_ref, arguments }, end))
}

/// Call arguments from `p` up to and past `)`; only the last may be a
/// spread `xs...`.
fn parse_arguments_rest(tokens: &Vec<Token>, arguments: Vec<CallArgument>, p: usize) -> (r: Result<(Vec<CallArgument>, usize), ParseError>)
    requires
        tokens_wf(tokens@),
        p < tokens@.len(),
    ensures
        match arguments_rest(tokens@, arg_views(arguments@), p as int) {
            Ok((v, end)) => r is Ok && arg_views(r->Ok_0.0@) == v && r->Ok_0.1 == end,
            Err(m) => r is Err && r->Err_0.text() == m,
        },
        r is Ok ==> p < r->Ok_0.1 < tokens@.len(),
    decreases tokens@.len() - p, 9nat,
{
    if at_kind(tokens, p, TokenKind::RightParen) {
        return Ok((arguments, p + 1));
    }
    let (value, q) = parse_expression(tokens, p)?;
    let spread = at_kind(tokens, q, TokenKind::Ellipsis);
    let next = if spread { q + 1 } else { q };
    let argument = if spread { CallArgument::Spread(value) } else { CallArgument::Expression(value) };
    let mut arguments = arguments;
    let ghost before = arguments@;
    arguments.push(argument);
    assert(arguments@.drop_last() =~= before);
    if at_kind(tokens, next, TokenKind::Comma) {
        if spread && !at_kind(tokens, next + 1, TokenKind::RightParen) {
            return Err(error_at(tokens, next + 1, "spread argument must be the final call argument"));
        }
        return parse_arguments_rest(tokens, arguments, next + 1);
    }
    let end = expect(tokens, next, TokenKind::RightParen)?;
    Ok((arguments, end))
}

/// A literal, a name, a parenthesized expression, a composite literal
/// `[]T{...}` or `map[K]V{...}`, or a conversion `T(x)` to a written type.
pub fn parse_operand(tokens: &Vec<Token>, pos: usize) -> (r: Result<(Expression, usize), ParseError>)
    requires
        tokens_wf(tokens@),
        pos < tokens@.len(),
    ensures
        expr_outcome(r, operand_at(tokens@, pos as int)),
        r is Ok ==> pos < r->Ok_0.1 < tokens@.len(),
    decreases tokens@.len() - pos, 0nat,
{
    match &tokens[pos].kind {
        TokenKind::Integer(value) => Ok((Expression::Integer(*value), pos + 1)),
        TokenKind::Bool(value) => Ok((Expression::Bool(*value), pos + 1)),
        TokenKind::String(value) => Ok((Expression::String(value.clone()), pos + 1)),
        TokenKind::Nil => Ok((Expression::Nil, pos + 1)),
        TokenKind::Identifier(name) => Ok((Expression::Identifier(name.clone()), pos + 1)),
        TokenKind::LeftParen => {
            let (inner, p) = parse_expression(tokens, pos + 1)?;
            let end = expect(tokens, p, TokenKind::RightParen)?;
            Ok((inner, end))
        },
        TokenKind::LeftBracket | TokenKind::MapKeyword | TokenKind::Interface => {
            let (type_ref, p) = parse_type(tokens, pos)?;
            if at_kind(tokens, p, TokenKind::LeftParen) {
                let (value, q) = parse_expression(tokens, p + 1)?;
                let r = if at_kind(tokens, q, TokenKind::Comma) { q + 1 } else { q };
                let end = expect(tokens, r, TokenKind::RightParen)?;
                return Ok((Expression::Conversion { type_ref, value: Box::new(value) }, end));
            }
            if !at_kind(tokens, p, TokenKind::LeftBrace) {
                return Err(error_at(tokens, p, "expected `{` or `(` after type"));
            }
            match type_ref {
                TypeRef::Mapping { .. } => {
                    let (entries, end) = parse_entries_rest(tokens, Vec::new(), p + 1)?;
                    Ok((Expression::MapLiteral { map_type: type_ref, entries }, end))
                },
                TypeRef::Slice(_) => {
                    let (elements, end) = parse_elements_rest(tokens, Vec::new(), p + 1)?;
                    Ok((Expression::SliceLiteral { element_type: type_ref, elements }, end))
                },
                _ => Err(error_at(tokens, p, "composite literal requires a slice or map type")),
            }
        },
        _ => Err(error_at(tokens, pos, "expected expression")),
    }
}

/// The elements of a slice literal from `p` up to and past `}`.
fn parse_elements_rest(tokens: &Vec<Token>, elements: Vec<Expression>, p: usize) -> (r: Result<(Vec<Expression>, usize), ParseError>)
    requires
        tokens_wf(tokens@),
        p < tokens@.len(),
    ensures
        exprs_outcome(r, elements_rest(tokens@, expr_views(elements@), p as int)),
        r is Ok ==> p < r->Ok_0.1 < tokens@.len(),
    decreases tokens@.len() - p, 9nat,
{
    if at_kind(tokens, p, TokenKind::RightBrace) {
        return Ok((elements, p + 1));
    }
    let (element, q) = parse_expression(tokens, p)?;
    let mut elements = elements;
    let ghost before = elements@;
    elements.push(element);
    assert(elements@.drop_last() =~= before);
    if at_kind(tokens, q, TokenKind::Comma) {
        return parse_elements_rest(tokens, elements, q + 1);
    }
    let end = expect(tokens, q, TokenKind::RightBrace)?;
    Ok((elements, end))
}

/// The `key: value` entries of a map literal from `p` up to and past `}`.
fn parse_entries_rest(tokens: &Vec<Token>, entries: Vec<MapLiteralEntry>, p: usize) -> (r: Result<(Vec<MapLiteralEntry>, usize), ParseError>)
    requires
        tokens_wf(tokens@),
        p < tokens@.len(),
    ensures
        match entries_rest(tokens@, entry_views(entries@), p as int) {
            Ok((v, end)) => r is Ok && entry_views(r->Ok_0.0@) == v && r->Ok_0.1 == end,
            Err(m) => r is Err && r->Err_0.text() == m,
        },
        r is Ok ==> p < r->Ok_0.1 < tokens@.len(),
    decreases tokens@.len() - p, 9nat,
{
    if at_kind(tokens, p, TokenKind::RightBrace) {
        return Ok((entries, p + 1));
    }
    let (key, q) = parse_expression(tokens, p)?;
    let r = expect(tokens, q, TokenKind::Colon)?;
    let (value, s) = parse_expression(tokens, r)?;
    let mut entries = entries;
    let ghost before = entries@;
    entries.push(MapLiteralEntry { key, value });
    assert(entries@.drop_last() =~= before);
    if at_kind(tokens, s, TokenKind::Comma) {
        return parse_entries_rest(tokens, entries, s + 1);
    }
    let end = expect(tokens, s, TokenKind::RightBrace)?;
    Ok((entries, end))
}

/// Expressions separated by commas, after those already read.
fn parse_list_rest(tokens: &Vec<Token>, values: Vec<Expression>, p: usize) -> (r: Result<(Vec<Expression>, usize), ParseError>)
    requires
        tokens_wf(tokens@),
        p < tokens@.len(),
    ensures
        exprs_outcome(r, list_rest(tokens@, expr_views(values@), p as int)),
        r is Ok ==> p <= r->Ok_0.1 < tokens@.len(),
        r is Ok ==> r->Ok_0.0@.len() >= values@.len(),
    decreases tokens@.len() - p,
{
    if at_kind(tokens, p, TokenKind::Comma) {
        let (value, q) = parse_expression(tokens, p + 1)?;
        let mut values = values;
        let ghost before = values@;
        values.push(value);
        assert(values@.drop_last() =~= before);
        return parse_list_rest(tokens, values, q);
    }
    Ok((values, p))
}

/// One or more expressions separated by commas.
pub fn parse_expression_list(tokens: &Vec<Token>, pos: usize) -> (r: Result<(Vec<Expression>, usize), ParseError>)
    requires
        tokens_wf(tokens@),
        pos < tokens@.len(),
    ensures
        exprs_outcome(r, expression_list_at(tokens@, pos as int)),
        r is Ok ==> pos < r->Ok_0.1 < tokens@.len(),
        r is Ok ==> r->Ok_0.0@.len() >= 1,
{
    let (first, p) = parse_expression(tokens, pos)?;
    let mut values: Vec<Expression> = Vec::new();
    values.push(first);
    assert(values@.drop_last() =~= Seq::<Expression>::empty());
    assert(values@.last() == first);
    assert(expr_views(Seq::<Expression>::empty()) =~= Seq::<ExprView>::empty());
    assert(expr_views(values@) =~= seq![expr_view(first)]);
    parse_list_rest(tokens, values, p)
}

} // verus!
