//! Type switches: `switch x := v.(type) { case T: ... }`.
//!
//! As for the other statements, each parsing function is stated by a spec
//! function of the grammar over the token sequence.

use vstd::prelude::*;

use crate::frontend::ast::{
    expr_view, opt_header_view, statement_renders, type_clause_views, type_clause_view, type_clauses_render,
    block_renders, ExprView, Expression, HeaderStatement, HeaderView, Statement, TypeSwitchCase, TypeSwitchClause,
    TypeSwitchGuard, TypeSwitchStatement,
};
use crate::frontend::parser::expressions::{
    call_at, expect_at, expr_outcome, index_or_slice_at, operand_at, parse_call, parse_index_or_slice,
    parse_operand, ExprResult,
};
use crate::frontend::parser::statements::{
    clause_body_at, for_init_at, parse_clause_body, parse_for_init, stmt_outcome, type_clause_at, type_clauses_rest,
    type_switch_at,
};
use crate::frontend::parser::{
    at_kind, at_type_start, error_at, error_text, expect, expect_identifier, parse_type, plain_error,
    skip_semicolons, tokens_wf, type_at, type_start, ParseError,
};
use crate::frontend::token::{Token, TokenKind};
use crate::text::text_is;

verus! {

broadcast use vstd::std_specs::control_flow::group_control_flow_axioms;

/// The message for a guard that binds `_`.
pub open spec fn blank_guard_message() -> Seq<char> {
    "type switch guard requires a named identifier before `:=`"@
}

/// The message for a guard that does not end in `.(type)`.
pub open spec fn guard_message() -> Seq<char> {
    "type switch guard requires `.(type)`"@
}

/// Whether the token at `i` is the name `name`.
pub open spec fn names(ts: Seq<Token>, i: int, name: Seq<char>) -> bool {
    0 <= i < ts.len() && ts[i].kind is Identifier && ts[i].kind->Identifier_0@ == name
}

/// Whether a `.(type)` comes at depth zero from `i` on, before a `{` or
/// the end at depth zero, with `paren` and `bracket` parentheses and
/// brackets open; the last three tokens are not looked at.
pub open spec fn guard_scan(ts: Seq<Token>, i: int, paren: nat, bracket: nat) -> bool
    decreases ts.len() - i,
{
    if i < 0 || i + 3 >= ts.len() {
        false
    } else {
        let top = paren == 0 && bracket == 0;
        match ts[i].kind {
            TokenKind::LeftParen => guard_scan(ts, i + 1, paren + 1, bracket),
            TokenKind::RightParen => guard_scan(ts, i + 1, if paren > 0 { (paren - 1) as nat } else { 0 }, bracket),
            TokenKind::LeftBracket => guard_scan(ts, i + 1, paren, bracket + 1),
            TokenKind::RightBracket => guard_scan(ts, i + 1, paren, if bracket > 0 { (bracket - 1) as nat } else { 0 }),
            TokenKind::LeftBrace => if top { false } else { guard_scan(ts, i + 1, paren, bracket) },
            TokenKind::Eof => if top { false } else { guard_scan(ts, i + 1, paren, bracket) },
            TokenKind::Dot => if top && ts[i + 1].kind is LeftParen && names(ts, i + 2, "type"@)
                && ts[i + 3].kind is RightParen {
                true
            } else {
                guard_scan(ts, i + 1, paren, bracket)
            },
            _ => guard_scan(ts, i + 1, paren, bracket),
        }
    }
}

/// Whether the switch header at `pos` holds a type switch guard.
pub open spec fn has_type_guard(ts: Seq<Token>, pos: int) -> bool {
    guard_scan(ts, pos, 0, 0)
}

/// The selectors, index and slice expressions and calls that follow `e`,
/// which ends at `p`, up to and past `.(type)`.
#[verifier::opaque]
pub open spec fn guard_rest(ts: Seq<Token>, e: ExprView, p: int) -> ExprResult
    decreases ts.len() - p,
{
    if p < 0 || p + 1 >= ts.len() {
        Err(if 0 <= p < ts.len() { error_text(ts, p, guard_message()) } else { seq![] })
    } else if ts[p].kind is Dot {
        if ts[p + 1].kind is LeftParen {
            if names(ts, p + 2, "type"@) && p + 4 < ts.len() && ts[p + 3].kind is RightParen {
                Ok((e, p + 4))
            } else {
                Err(error_text(ts, p + 2, guard_message()))
            }
        } else if ts[p + 1].kind is Identifier {
            guard_rest(ts, ExprView::Selector { target: Box::new(e), member: ts[p + 1].kind->Identifier_0 }, p + 2)
        } else {
            Err(error_text(ts, p + 1, "expected identifier"@))
        }
    } else if ts[p].kind is LeftBracket {
        match index_or_slice_at(ts, p + 1, e) {
            Ok((next, q)) => if p < q < ts.len() {
                guard_rest(ts, next, q)
            } else {
                Err(seq![])
            },
            Err(m) => Err(m),
        }
    } else if ts[p].kind is LeftParen {
        match call_at(ts, p + 1, e, false) {
            Ok((next, q)) => if p < q < ts.len() {
                guard_rest(ts, next, q)
            } else {
                Err(seq![])
            },
            Err(m) => Err(m),
        }
    } else {
        Err(error_text(ts, p, guard_message()))
    }
}

/// The expression of a guard: an operand and what follows it, up to and
/// past `.(type)`.
#[verifier::opaque]
pub open spec fn guard_expression_at(ts: Seq<Token>, pos: int) -> ExprResult {
    match operand_at(ts, pos) {
        Ok((e, p)) => if pos < p < ts.len() {
            guard_rest(ts, e, p)
        } else {
            Err(seq![])
        },
        Err(m) => Err(m),
    }
}

/// A guard `x := v.(type)` or `v.(type)`: the name it binds, its
/// expression, and the position after it.
#[verifier::opaque]
pub open spec fn guard_at(ts: Seq<Token>, pos: int) -> Result<(Option<String>, ExprView, int), Seq<char>> {
    if 0 <= pos && pos + 2 < ts.len() && ts[pos].kind is Identifier && ts[pos + 1].kind is Define {
        let name = ts[pos].kind->Identifier_0;
        if name@ == "_"@ {
            Err(blank_guard_message())
        } else {
            match guard_expression_at(ts, pos + 2) {
                Ok((e, end)) => Ok((Some(name), e, end)),
                Err(m) => Err(m),
            }
        }
    } else {
        match guard_expression_at(ts, pos) {
            Ok((e, end)) => Ok((None, e, end)),
            Err(m) => Err(m),
        }
    }
}

/// After `switch`: the guard alone, or a header statement, `;` and the
/// guard.
#[verifier::opaque]
pub open spec fn type_switch_header_at(ts: Seq<Token>, pos: int) -> Result<
    (Option<HeaderView>, Option<String>, ExprView, int),
    Seq<char>,
> {
    if 0 <= pos && pos + 1 < ts.len() && names(ts, pos, "_"@) && ts[pos + 1].kind is Define {
        Err(blank_guard_message())
    } else {
        match guard_at(ts, pos) {
            Ok((binding, guard, end)) => Ok((None, binding, guard, end)),
            Err(_) => match for_init_at(ts, pos) {
                Ok((header, p)) => if 0 <= p < ts.len() {
                    match expect_at(ts, p, TokenKind::Semicolon) {
                        Ok(q) => if q < ts.len() {
                            match guard_at(ts, q) {
                                Ok((binding, guard, end)) => Ok((Some(header), binding, guard, end)),
                                Err(m) => Err(m),
                            }
                        } else {
                            Err(seq![])
                        },
                        Err(m) => Err(m),
                    }
                } else {
                    Err(seq![])
                },
                Err(m) => Err(m),
            },
        }
    }
}

/// One entry of a case list: a type or `nil`.
#[verifier::opaque]
pub open spec fn type_case_at(ts: Seq<Token>, pos: int) -> Result<(TypeSwitchCase, int), Seq<char>> {
    if pos < 0 || pos >= ts.len() {
        Err(seq![])
    } else if ts[pos].kind is Nil {
        Ok((TypeSwitchCase::Nil, pos + 1))
    } else if !type_start(ts[pos].kind) {
        Err(error_text(ts, pos, "type switch case requires a type or `nil`"@))
    } else {
        match type_at(ts, pos) {
            Ok((t, p)) => Ok((TypeSwitchCase::Type(t), p)),
            Err(m) => Err(m),
        }
    }
}

/// The entries of a case list after those already read, each after a
/// comma.
#[verifier::opaque]
pub open spec fn cases_rest(ts: Seq<Token>, cases: Seq<TypeSwitchCase>, p: int) -> Result<
    (Seq<TypeSwitchCase>, int),
    Seq<char>,
>
    decreases ts.len() - p,
{
    if p < 0 || p >= ts.len() {
        Err(seq![])
    } else if ts[p].kind is Comma {
        if p + 1 < ts.len() {
            match type_case_at(ts, p + 1) {
                Ok((c, q)) => if p < q < ts.len() {
                    cases_rest(ts, cases.push(c), q)
                } else {
                    Err(seq![])
                },
                Err(m) => Err(m),
            }
        } else {
            Err(seq![])
        }
    } else {
        Ok((cases, p))
    }
}

/// The case list after `case`.
#[verifier::opaque]
pub open spec fn type_cases_at(ts: Seq<Token>, pos: int) -> Result<(Seq<TypeSwitchCase>, int), Seq<char>> {
    match type_case_at(ts, pos) {
        Ok((c, p)) => if pos < p < ts.len() {
            cases_rest(ts, seq![c], p)
        } else {
            Err(seq![])
        },
        Err(m) => Err(m),
    }
}

/// Whether the identifier at `pos` is `name`.
fn identifier_is(tokens: &Vec<Token>, pos: usize, name: &str) -> (r: bool)
    requires
        pos < tokens@.len(),
    ensures
        r == names(tokens@, pos as int, name@),
{
    match &tokens[pos].kind {
        TokenKind::Identifier(found) => text_is(found, name),
        _ => false,
    }
}

/// Whether a `.(type)` guard comes, outside parentheses and brackets,
/// before the `{` of a switch.
pub fn header_has_type_guard(tokens: &Vec<Token>, pos: usize) -> (r: bool)
    requires
        tokens_wf(tokens@),
        pos < tokens@.len(),
    ensures
        r == has_type_guard(tokens@, pos as int),
{
    let mut paren_depth: usize = 0;
    let mut bracket_depth: usize = 0;
    let end: usize = if tokens.len() >= 3 { tokens.len() - 3 } else { 0 };
    let mut i = pos;
    while i < end
        invariant
            tokens_wf(tokens@),
            pos <= i,
            end == (if tokens@.len() >= 3 { tokens@.len() - 3 } else { 0 }),
            paren_depth <= i - pos,
            bracket_depth <= i - pos,
            guard_scan(tokens@, pos as int, 0, 0) == guard_scan(
                tokens@,
                i as int,
                paren_depth as nat,
                bracket_depth as nat,
            ),
        decreases end - i,
    {
        let top = paren_depth == 0 && bracket_depth == 0;
        match tokens[i].kind {
            TokenKind::LeftParen => paren_depth = paren_depth + 1,
            TokenKind::RightParen => paren_depth = if paren_depth > 0 { paren_depth - 1 } else { 0 },
            TokenKind::LeftBracket => bracket_depth = bracket_depth + 1,
            TokenKind::RightBracket => bracket_depth = if bracket_depth > 0 { bracket_depth - 1 } else { 0 },
            TokenKind::LeftBrace | TokenKind::Eof => {
                if top {
                    return false;
                }
            },
            TokenKind::Dot => {
                if top && at_kind(tokens, i + 1, TokenKind::LeftParen) && identifier_is(tokens, i + 2, "type")
                    && at_kind(tokens, i + 3, TokenKind::RightParen) {
                    return true;
                }
            },
            _ => {},
        }
        i = i + 1;
    }
    false
}

/// After `switch`: a type switch with its clauses.
pub fn parse_type_switch(tokens: &Vec<Token>, pos: usize) -> (r: Result<(Statement, usize), ParseError>)
    requires
        tokens_wf(tokens@),
        pos < tokens@.len(),
    ensures
        stmt_outcome(r, type_switch_at(tokens@, pos as int)),
        r is Ok ==> pos < r->Ok_0.1 < tokens@.len(),
        r is Ok ==> statement_renders(r->Ok_0.0),
    decreases tokens@.len() - pos, 1nat,
{
    proof {
        reveal(type_switch_at);
        reveal(type_clauses_rest);
    }
    let (header, guard, p) = parse_type_switch_header(tokens, pos)?;
    let open = expect(tokens, p, TokenKind::LeftBrace)?;
    let q = skip_semicolons(tokens, open);
    let (clauses, end) = parse_type_clauses_rest(tokens, Vec::new(), q)?;
    Ok((Statement::TypeSwitch(TypeSwitchStatement { header, guard, clauses }), end))
}

/// The clauses of a type switch from `q` up to and past `}`.
#[verifier::spinoff_prover]
#[verifier::rlimit(50)]
fn parse_type_clauses_rest(tokens: &Vec<Token>, clauses: Vec<TypeSwitchClause>, q: usize) -> (r: Result<
    (Vec<TypeSwitchClause>, usize),
    ParseError,
>)
    requires
        tokens_wf(tokens@),
        q < tokens@.len(),
        type_clauses_render(clauses@),
    ensures
        match type_clauses_rest(tokens@, type_clause_views(clauses@), q as int) {
            Ok((v, end)) => r is Ok && type_clause_views(r->Ok_0.0@) == v && r->Ok_0.1 == end,
            Err(m) => r is Err && r->Err_0.text() == m,
        },
        r is Ok ==> q < r->Ok_0.1 < tokens@.len(),
        r is Ok ==> type_clauses_render(r->Ok_0.0@),
    decreases tokens@.len() - q, 6nat,
{
    proof {
        reveal(type_clauses_rest);
        reveal(type_clause_at);
    }
    if at_kind(tokens, q, TokenKind::RightBrace) {
        return Ok((clauses, q + 1));
    }
    let (clause, next) = parse_type_clause(tokens, q)?;
    let mut clauses = clauses;
    let ghost before = clauses@;
    clauses.push(clause);
    assert(clauses@.drop_last() =~= before);
    let r = skip_semicolons(tokens, next);
    parse_type_clauses_rest(tokens, clauses, r)
}

/// A `case` or `default` clause of a type switch.
#[verifier::spinoff_prover]
#[verifier::rlimit(50)]
fn parse_type_clause(tokens: &Vec<Token>, pos: usize) -> (r: Result<(TypeSwitchClause, usize), ParseError>)
    requires
        tokens_wf(tokens@),
        pos < tokens@.len(),
    ensures
        match type_clause_at(tokens@, pos as int) {
            Ok((v, end)) => r is Ok && type_clause_view(r->Ok_0.0) == v && r->Ok_0.1 == end,
            Err(m) => r is Err && r->Err_0.text() == m,
        },
        r is Ok ==> pos < r->Ok_0.1 < tokens@.len(),
        r is Ok ==> match r->Ok_0.0 {
            TypeSwitchClause::Case { body, .. } => block_renders(body.statements@),
            TypeSwitchClause::Default(body) => block_renders(body.statements@),
        },
    decreases tokens@.len() - pos, 5nat,
{
    proof {
        reveal(type_clause_at);
        reveal(clause_body_at);
    }
    if at_kind(tokens, pos, TokenKind::Case) {
        let (cases, p) = parse_type_cases(tokens, pos + 1)?;
        let q = expect(tokens, p, TokenKind::Colon)?;
        let (body, end) = parse_clause_body(tokens, q)?;
        let clause = TypeSwitchClause::Case { cases, body };
        return Ok((clause, end));
    }
    if at_kind(tokens, pos, TokenKind::Default) {
        let q = expect(tokens, pos + 1, TokenKind::Colon)?;
        let (body, end) = parse_clause_body(tokens, q)?;
        let clause = TypeSwitchClause::Default(body);
        return Ok((clause, end));
    }
    Err(error_at(tokens, pos, "expected `case` or `default` in type switch body"))
}

/// The case list after `case`.
fn parse_type_cases(tokens: &Vec<Token>, pos: usize) -> (r: Result<(Vec<TypeSwitchCase>, usize), ParseError>)
    requires
        tokens_wf(tokens@),
        pos < tokens@.len(),
    ensures
        match type_cases_at(tokens@, pos as int) {
            Ok((v, end)) => r is Ok && r->Ok_0.0@ == v && r->Ok_0.1 == end,
            Err(m) => r is Err && r->Err_0.text() == m,
        },
        r is Ok ==> pos < r->Ok_0.1 < tokens@.len(),
{
    proof {
        reveal(type_cases_at);
    }
    let (first, p) = parse_type_case(tokens, pos)?;
    let mut cases: Vec<TypeSwitchCase> = Vec::new();
    cases.push(first);
    assert(cases@ =~= seq![first]);
    parse_cases_rest(tokens, cases, p)
}

/// The entries of a case list after those already read.
fn parse_cases_rest(tokens: &Vec<Token>, cases: Vec<TypeSwitchCase>, p: usize) -> (r: Result<
    (Vec<TypeSwitchCase>, usize),
    ParseError,
>)
    requires
        tokens_wf(tokens@),
        p < tokens@.len(),
    ensures
        match cases_rest(tokens@, cases@, p as int) {
            Ok((v, end)) => r is Ok && r->Ok_0.0@ == v && r->Ok_0.1 == end,
            Err(m) => r is Err && r->Err_0.text() == m,
        },
        r is Ok ==> p <= r->Ok_0.1 < tokens@.len(),
    decreases tokens@.len() - p,
{
    proof {
        reveal(cases_rest);
    }
    if at_kind(tokens, p, TokenKind::Comma) {
        let (next, q) = parse_type_case(tokens, p + 1)?;
        let mut cases = cases;
        cases.push(next);
        return parse_cases_rest(tokens, cases, q);
    }
    Ok((cases, p))
}

/// One entry of a case list: a type or `nil`.
fn parse_type_case(tokens: &Vec<Token>, pos: usize) -> (r: Result<(TypeSwitchCase, usize), ParseError>)
    requires
        tokens_wf(tokens@),
        pos < tokens@.len(),
    ensures
        match type_case_at(tokens@, pos as int) {
            Ok((v, end)) => r is Ok && r->Ok_0.0 == v && r->Ok_0.1 == end,
            Err(m) => r is Err && r->Err_0.text() == m,
        },
        r is Ok ==> pos < r->Ok_0.1 < tokens@.len(),
{
    proof {
        reveal(type_case_at);
    }
    if at_kind(tokens, pos, TokenKind::Nil) {
        return Ok((TypeSwitchCase::Nil, pos + 1));
    }
    if !at_type_start(tokens, pos) {
        return Err(error_at(tokens, pos, "type switch case requires a type or `nil`"));
    }
    let (type_ref, p) = parse_type(tokens, pos)?;
    Ok((TypeSwitchCase::Type(type_ref), p))
}

/// After `switch`: an optional header statement and `;`, then the guard.
fn parse_type_switch_header(tokens: &Vec<Token>, pos: usize) -> (r: Result<
    (Option<HeaderStatement>, TypeSwitchGuard, usize),
    ParseError,
>)
    requires
        tokens_wf(tokens@),
        pos < tokens@.len(),
    ensures
        match type_switch_header_at(tokens@, pos as int) {
            Ok((h, b, g, end)) => r is Ok && opt_header_view(r->Ok_0.0) == h && r->Ok_0.1.binding == b && expr_view(
                r->Ok_0.1.expression,
            ) == g && r->Ok_0.2 == end,
            Err(m) => r is Err && r->Err_0.text() == m,
        },
        r is Ok ==> pos < r->Ok_0.2 < tokens@.len(),
{
    proof {
        reveal(type_switch_header_at);
    }
    if identifier_is(tokens, pos, "_") && at_kind(tokens, pos + 1, TokenKind::Define) {
        return Err(plain_error("type switch guard requires a named identifier before `:=`"));
    }
    match parse_guard(tokens, pos) {
        Ok((guard, p)) => {
            return Ok((None, guard, p));
        },
        Err(_) => {},
    }
    let (header, p) = parse_for_init(tokens, pos)?;
    let q = expect(tokens, p, TokenKind::Semicolon)?;
    let (guard, end) = parse_guard(tokens, q)?;
    Ok((Some(header), guard, end))
}

/// A guard `x := v.(type)` or `v.(type)`.
fn parse_guard(tokens: &Vec<Token>, pos: usize) -> (r: Result<(TypeSwitchGuard, usize), ParseError>)
    requires
        tokens_wf(tokens@),
        pos < tokens@.len(),
    ensures
        match guard_at(tokens@, pos as int) {
            Ok((b, g, end)) => r is Ok && r->Ok_0.0.binding == b && expr_view(r->Ok_0.0.expression) == g && r->Ok_0.1
                == end,
            Err(m) => r is Err && r->Err_0.text() == m,
        },
        r is Ok ==> pos < r->Ok_0.1 < tokens@.len(),
{
    proof {
        reveal(guard_at);
    }
    if matches!(tokens[pos].kind, TokenKind::Identifier(_)) && at_kind(tokens, pos + 1, TokenKind::Define) {
        let (name, q) = expect_identifier(tokens, pos)?;
        if text_is(&name, "_") {
            return Err(plain_error("type switch guard requires a named identifier before `:=`"));
        }
        let (expression, end) = parse_guard_expression(tokens, q + 1)?;
        return Ok((TypeSwitchGuard { binding: Some(name), expression }, end));
    }
    let (expression, end) = parse_guard_expression(tokens, pos)?;
    Ok((TypeSwitchGuard { binding: None, expression }, end))
}

/// The expression of a guard, up to and past its `.(type)`.
fn parse_guard_expression(tokens: &Vec<Token>, pos: usize) -> (r: Result<(Expression, usize), ParseError>)
    requires
        tokens_wf(tokens@),
        pos < tokens@.len(),
    ensures
        expr_outcome(r, guard_expression_at(tokens@, pos as int)),
        r is Ok ==> pos < r->Ok_0.1 < tokens@.len(),
{
    proof {
        reveal(guard_expression_at);
    }
    let (e, p) = parse_operand(tokens, pos)?;
    parse_guard_rest(tokens, e, p)
}

/// What follows the operand of a guard, up to and past `.(type)`.
fn parse_guard_rest(tokens: &Vec<Token>, e: Expression, p: usize) -> (r: Result<(Expression, usize), ParseError>)
    requires
        tokens_wf(tokens@),
        p < tokens@.len(),
    ensures
        expr_outcome(r, guard_rest(tokens@, expr_view(e), p as int)),
        r is Ok ==> p < r->Ok_0.1 < tokens@.len(),
    decreases tokens@.len() - p,
{
    proof {
        reveal(guard_rest);
    }
    if at_kind(tokens, p, TokenKind::Dot) {
        if at_kind(tokens, p + 1, TokenKind::LeftParen) {
            if identifier_is(tokens, p + 2, "type") && at_kind(tokens, p + 3, TokenKind::RightParen) {
                return Ok((e, p + 4));
            }
            return Err(error_at(tokens, p + 2, "type switch guard requires `.(type)`"));
        }
        let (member, q) = expect_identifier(tokens, p + 1)?;
        return parse_guard_rest(tokens, Expression::Selector { target: Box::new(e), member }, q);
    }
    if at_kind(tokens, p, TokenKind::LeftBracket) {
        let (next, q) = parse_index_or_slice(tokens, p + 1, e)?;
        return parse_guard_rest(tokens, next, q);
    }
    if at_kind(tokens, p, TokenKind::LeftParen) {
        let (next, q) = parse_call(tokens, p + 1, e, false)?;
        return parse_guard_rest(tokens, next, q);
    }
    Err(error_at(tokens, p, "type switch guard requires `.(type)`"))
}

} // verus!
