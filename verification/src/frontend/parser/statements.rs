//! Statements, blocks, and the headers of `if`, `switch` and `for`.
//!
//! As for expressions, each parsing function is stated by a spec function
//! of the grammar: what it reads from a position and where it stops, or
//! the message of the first error.

use vstd::prelude::*;

use crate::frontend::ast::{
    block_renders, clauses_render, expr_view, expr_views, header_view, lemma_expr_views, if_renders, if_view,
    opt_expr_view, opt_header_view, post_view, statement_renders, stmt_view, stmt_views, clause_views, clause_view,
    target_view, AssignmentTarget, Binding, BindingMode, Block, ClauseView, CompoundAssignOperator, ElseBranch,
    ElseView, ExprView, Expression, ForPostStatement, ForStatement, HeaderStatement, HeaderView, IfStatement,
    IfView, IncDecOperator, PostView, Statement, StmtView, SwitchClause, SwitchStatement, TargetView,
    TypeClauseView,
};
use crate::frontend::parser::expressions::{
    expression_at, expression_list_at, parse_expression, parse_expression_list, expect_at,
};
use crate::frontend::parser::type_switches::{
    has_type_guard, header_has_type_guard, parse_type_switch, type_cases_at, type_switch_header_at,
};
use crate::frontend::parser::{
    at_kind, at_type_start, error_at, error_text, expect, expect_identifier, expected_text, parse_type, plain_error,
    skip_at, skip_semicolons, tokens_wf, type_at, type_start, ParseError,
};
use crate::frontend::signature::TypeRef;
use crate::frontend::token::{Token, TokenKind};
use crate::text::text_is;

verus! {

broadcast use vstd::std_specs::control_flow::group_control_flow_axioms;

/// Where a simple statement stands; it decides which forms are allowed and
/// which message a malformed one gets.
#[derive(Clone, Copy, PartialEq, Eq, Structural)]
pub enum SimpleContext {
    Statement,
    IfHeader,
    SwitchHeader,
    ForInit,
    ForPost,
}

/// A simple statement, before it is placed in a statement, a header or a
/// `for` post statement.
pub enum Simple {
    ShortVarDecl { bindings: Vec<Binding>, values: Vec<Expression> },
    MultiAssign { bindings: Vec<Binding>, values: Vec<Expression> },
    MapLookup { bindings: Vec<Binding>, binding_mode: BindingMode, target: Expression, key: Expression },
    TypeAssert { bindings: Vec<Binding>, binding_mode: BindingMode, target: Expression, asserted_type: TypeRef },
    Assign { target: AssignmentTarget, value: Expression },
    CompoundAssign { target: AssignmentTarget, operator: CompoundAssignOperator, value: Expression },
    IncDec { target: AssignmentTarget, operator: IncDecOperator },
    Send { channel: Expression, value: Expression },
    Expr(Expression),
}

/// A simple statement as a mathematical value.
pub enum SimpleView {
    ShortVarDecl { bindings: Seq<Binding>, values: Seq<ExprView> },
    MultiAssign { bindings: Seq<Binding>, values: Seq<ExprView> },
    MapLookup { bindings: Seq<Binding>, binding_mode: BindingMode, target: ExprView, key: ExprView },
    TypeAssert { bindings: Seq<Binding>, binding_mode: BindingMode, target: ExprView, asserted_type: TypeRef },
    Assign { target: TargetView, value: ExprView },
    CompoundAssign { target: TargetView, operator: CompoundAssignOperator, value: ExprView },
    IncDec { target: TargetView, operator: IncDecOperator },
    Send { channel: ExprView, value: ExprView },
    Expr(ExprView),
}

pub open spec fn simple_view(s: Simple) -> SimpleView {
    match s {
        Simple::ShortVarDecl { bindings, values } => SimpleView::ShortVarDecl { bindings: bindings@, values: expr_views(values@) },
        Simple::MultiAssign { bindings, values } => SimpleView::MultiAssign { bindings: bindings@, values: expr_views(values@) },
        Simple::MapLookup { bindings, binding_mode, target, key } => SimpleView::MapLookup {
            bindings: bindings@,
            binding_mode,
            target: expr_view(target),
            key: expr_view(key),
        },
        Simple::TypeAssert { bindings, binding_mode, target, asserted_type } => SimpleView::TypeAssert {
            bindings: bindings@,
            binding_mode,
            target: expr_view(target),
            asserted_type,
        },
        Simple::Assign { target, value } => SimpleView::Assign { target: target_view(target), value: expr_view(value) },
        Simple::CompoundAssign { target, operator, value } => SimpleView::CompoundAssign {
            target: target_view(target),
            operator,
            value: expr_view(value),
        },
        Simple::IncDec { target, operator } => SimpleView::IncDec { target: target_view(target), operator },
        Simple::Send { channel, value } => SimpleView::Send { channel: expr_view(channel), value: expr_view(value) },
        Simple::Expr(e) => SimpleView::Expr(expr_view(e)),
    }
}

/// A simple statement standing as a statement.
pub open spec fn simple_statement(s: SimpleView) -> StmtView {
    match s {
        SimpleView::ShortVarDecl { bindings, values } => StmtView::ShortVarDecl { bindings, values },
        SimpleView::MultiAssign { bindings, values } => StmtView::MultiAssign { bindings, values },
        SimpleView::MapLookup { bindings, binding_mode, target, key } => StmtView::MapLookup { bindings, binding_mode, target, key },
        SimpleView::TypeAssert { bindings, binding_mode, target, asserted_type } => StmtView::TypeAssert {
            bindings,
            binding_mode,
            target,
            asserted_type,
        },
        SimpleView::Assign { target, value } => StmtView::Assign { target, value },
        SimpleView::CompoundAssign { target, operator, value } => StmtView::CompoundAssign { target, operator, value },
        SimpleView::IncDec { target, operator } => StmtView::IncDec { target, operator },
        SimpleView::Send { channel, value } => StmtView::Send { channel, value },
        SimpleView::Expr(e) => StmtView::Expr(e),
    }
}

/// A simple statement standing as a header; a send stands for its channel.
pub open spec fn simple_header(s: SimpleView) -> HeaderView {
    match s {
        SimpleView::ShortVarDecl { bindings, values } => HeaderView::ShortVarDecl { bindings, values },
        SimpleView::MultiAssign { bindings, values } => HeaderView::MultiAssign { bindings, values },
        SimpleView::MapLookup { bindings, binding_mode, target, key } => HeaderView::MapLookup { bindings, binding_mode, target, key },
        SimpleView::TypeAssert { bindings, binding_mode, target, asserted_type } => HeaderView::TypeAssert {
            bindings,
            binding_mode,
            target,
            asserted_type,
        },
        SimpleView::Assign { target, value } => HeaderView::Assign { target, value },
        SimpleView::CompoundAssign { target, operator, value } => HeaderView::CompoundAssign { target, operator, value },
        SimpleView::IncDec { target, operator } => HeaderView::IncDec { target, operator },
        SimpleView::Send { channel, .. } => HeaderView::Expr(channel),
        SimpleView::Expr(e) => HeaderView::Expr(e),
    }
}

/// A simple statement standing after a `for` clause.
pub open spec fn simple_post(s: SimpleView) -> PostView {
    match s {
        SimpleView::MultiAssign { bindings, values } => PostView::MultiAssign { bindings, values },
        SimpleView::MapLookup { bindings, target, key, .. } => PostView::MapLookup { bindings, target, key },
        SimpleView::TypeAssert { bindings, target, asserted_type, .. } => PostView::TypeAssert { bindings, target, asserted_type },
        SimpleView::Assign { target, value } => PostView::Assign { target, value },
        SimpleView::CompoundAssign { target, operator, value } => PostView::CompoundAssign { target, operator, value },
        SimpleView::IncDec { target, operator } => PostView::IncDec { target, operator },
        SimpleView::Expr(e) => PostView::Expr(e),
        SimpleView::ShortVarDecl { bindings, values } => PostView::MultiAssign { bindings, values },
        SimpleView::Send { channel, .. } => PostView::Expr(channel),
    }
}

/// Which simple statements each place allows: sends only as statements,
/// and no declarations after a `for` clause.
pub open spec fn simple_fits(s: SimpleView, context: SimpleContext) -> bool {
    &&& context != SimpleContext::Statement ==> !(s is Send)
    &&& context == SimpleContext::ForPost ==> {
        &&& !(s is ShortVarDecl)
        &&& s is MapLookup ==> s->MapLookup_binding_mode == BindingMode::Assign
        &&& s is TypeAssert ==> s->TypeAssert_binding_mode == BindingMode::Assign
    }
}

/// The binding a name stands for: `_` is the blank binding.
pub open spec fn binding_named(name: String) -> Binding {
    if name@ == "_"@ {
        Binding::Blank
    } else {
        Binding::Identifier(name)
    }
}

/// The binding an expression stands for, if it is a name.
pub open spec fn binding_of(e: ExprView) -> Option<Binding> {
    match e {
        ExprView::Identifier(name) => Some(binding_named(name)),
        _ => None,
    }
}

/// The assignment target an expression stands for, if it is a name or an
/// index expression.
pub open spec fn target_of(e: ExprView) -> Option<TargetView> {
    match e {
        ExprView::Identifier(name) => Some(TargetView::Identifier(name)),
        ExprView::Index { target, index } => Some(TargetView::Index { target: *target, index: *index }),
        _ => None,
    }
}

/// The message for a left side that is not a list of names.
pub open spec fn binding_message() -> Seq<char> {
    "multi-binding statement requires identifier or `_` bindings on the left side"@
}

/// The message for an assignment to something that is not a name or an
/// index expression.
pub open spec fn target_message() -> Seq<char> {
    "assignment requires an identifier or index expression on the left side"@
}

/// The message for a multi-binding statement without `:=` or `=`.
pub open spec fn multi_message(context: SimpleContext) -> Seq<char> {
    match context {
        SimpleContext::Statement => "multi-binding statement requires `:=` or `=` after the left side"@,
        SimpleContext::IfHeader => "multi-binding `if` header requires `:=` or `=` after the left side"@,
        SimpleContext::SwitchHeader => "multi-binding `switch` header requires `:=` or `=` after the left side"@,
        SimpleContext::ForInit => "multi-binding `for` init requires `:=` or `=` after the left side"@,
        SimpleContext::ForPost => "multi-binding `for` post statement requires `=` after the left side"@,
    }
}

pub open spec fn compound_of(kind: TokenKind) -> Option<CompoundAssignOperator> {
    match kind {
        TokenKind::PlusAssign => Some(CompoundAssignOperator::Add),
        TokenKind::MinusAssign => Some(CompoundAssignOperator::Subtract),
        TokenKind::StarAssign => Some(CompoundAssignOperator::Multiply),
        TokenKind::SlashAssign => Some(CompoundAssignOperator::Divide),
        _ => None,
    }
}

pub open spec fn inc_dec_of(kind: TokenKind) -> Option<IncDecOperator> {
    match kind {
        TokenKind::PlusPlus => Some(IncDecOperator::Increment),
        TokenKind::MinusMinus => Some(IncDecOperator::Decrement),
        _ => None,
    }
}

/// `a, b := m[k]` is a lookup and `v, ok := x.(T)` an assertion; other
/// multi-binding statements declare or assign their values in order.
pub open spec fn multi_binding_view(bindings: Seq<Binding>, values: Seq<ExprView>, mode: BindingMode) -> SimpleView {
    if bindings.len() == 2 && values.len() == 1 && values[0] is Index {
        SimpleView::MapLookup { bindings, binding_mode: mode, target: *values[0]->Index_target, key: *values[0]->Index_index }
    } else if bindings.len() == 2 && values.len() == 1 && values[0] is TypeAssertion {
        SimpleView::TypeAssert {
            bindings,
            binding_mode: mode,
            target: *values[0]->TypeAssertion_target,
            asserted_type: values[0]->TypeAssertion_asserted_type,
        }
    } else {
        match mode {
            BindingMode::Define => SimpleView::ShortVarDecl { bindings, values },
            BindingMode::Assign => SimpleView::MultiAssign { bindings, values },
        }
    }
}

/// The names after the first binding, each after a comma.
pub open spec fn binding_list_rest(ts: Seq<Token>, bindings: Seq<Binding>, p: int) -> Result<(Seq<Binding>, int), Seq<char>>
    decreases ts.len() - p,
{
    if p < 0 || p + 1 >= ts.len() {
        if 0 <= p < ts.len() && !(ts[p].kind is Comma) { Ok((bindings, p)) } else { Err(seq![]) }
    } else if ts[p].kind is Comma {
        if ts[p + 1].kind is Identifier {
            binding_list_rest(ts, bindings.push(binding_named(ts[p + 1].kind->Identifier_0)), p + 2)
        } else {
            Err(error_text(ts, p + 1, "expected identifier"@))
        }
    } else {
        Ok((bindings, p))
    }
}

/// A simple statement at `pos` in `context`.
#[verifier::opaque]
pub open spec fn simple_at(ts: Seq<Token>, pos: int, context: SimpleContext) -> Result<(SimpleView, int), Seq<char>> {
    match expression_at(ts, pos) {
        Err(m) => Err(m),
        Ok((e, p)) => if !(pos < p && p + 1 < ts.len()) {
            if pos < p < ts.len() { Ok((SimpleView::Expr(e), p)) } else { Err(seq![]) }
        } else if ts[p].kind is Comma {
            match binding_of(e) {
                None => Err(binding_message()),
                Some(first) => match binding_list_rest(ts, seq![first], p) {
                    Err(m) => Err(m),
                    Ok((bindings, q)) => if !(0 <= q < ts.len()) {
                        Err(seq![])
                    } else if ts[q].kind is Define {
                        if context == SimpleContext::ForPost {
                            Err(error_text(ts, q + 1, "for post statement does not support `:=`"@))
                        } else {
                            match expression_list_at(ts, q + 1) {
                                Ok((values, end)) => Ok((multi_binding_view(bindings, values, BindingMode::Define), end)),
                                Err(m) => Err(m),
                            }
                        }
                    } else if ts[q].kind is Assign {
                        match expression_list_at(ts, q + 1) {
                            Ok((values, end)) => Ok((multi_binding_view(bindings, values, BindingMode::Assign), end)),
                            Err(m) => Err(m),
                        }
                    } else {
                        Err(error_text(ts, q, multi_message(context)))
                    },
                },
            }
        } else if ts[p].kind is Define {
            if context == SimpleContext::ForPost {
                Err(error_text(ts, p + 1, "for post statement does not support `:=`"@))
            } else {
                match binding_of(e) {
                    None => Err(binding_message()),
                    Some(b) => match expression_list_at(ts, p + 1) {
                        Ok((values, end)) => Ok((SimpleView::ShortVarDecl { bindings: seq![b], values }, end)),
                        Err(m) => Err(m),
                    },
                }
            }
        } else if ts[p].kind is Assign {
            match target_of(e) {
                None => Err(target_message()),
                Some(target) => match expression_at(ts, p + 1) {
                    Ok((value, end)) => Ok((SimpleView::Assign { target, value }, end)),
                    Err(m) => Err(m),
                },
            }
        } else if context == SimpleContext::Statement && ts[p].kind is LeftArrow {
            match expression_at(ts, p + 1) {
                Ok((value, end)) => Ok((SimpleView::Send { channel: e, value }, end)),
                Err(m) => Err(m),
            }
        } else {
            match compound_of(ts[p].kind) {
                Some(operator) => match target_of(e) {
                    None => Err(target_message()),
                    Some(target) => match expression_at(ts, p + 1) {
                        Ok((value, end)) => Ok((SimpleView::CompoundAssign { target, operator, value }, end)),
                        Err(m) => Err(m),
                    },
                },
                None => match inc_dec_of(ts[p].kind) {
                    Some(operator) => match target_of(e) {
                        None => Err(target_message()),
                        Some(target) => Ok((SimpleView::IncDec { target, operator }, p + 1)),
                    },
                    None => Ok((SimpleView::Expr(e), p)),
                },
            }
        }
    }
}

/// After `var`: the name, then a type, an initializer, or both.
#[verifier::opaque]
pub open spec fn var_decl_at(ts: Seq<Token>, pos: int) -> Result<(HeaderView, int), Seq<char>> {
    if pos < 0 || pos + 1 >= ts.len() {
        Err(if 0 <= pos < ts.len() { error_text(ts, pos, "expected identifier"@) } else { seq![] })
    } else if !(ts[pos].kind is Identifier) {
        Err(error_text(ts, pos, "expected identifier"@))
    } else {
        let name = ts[pos].kind->Identifier_0;
        let p = pos + 1;
        if ts[p].kind is Assign && p + 1 < ts.len() {
            match expression_at(ts, p + 1) {
                Ok((value, end)) => Ok((HeaderView::VarDecl { name, type_ref: None, value: Some(value) }, end)),
                Err(m) => Err(m),
            }
        } else if !type_start(ts[p].kind) {
            Err(error_text(ts, p, "variable declaration requires a type or initializer"@))
        } else {
            match type_at(ts, p) {
                Ok((type_ref, q)) => if 0 <= q && q + 1 < ts.len() && ts[q].kind is Assign {
                    match expression_at(ts, q + 1) {
                        Ok((value, end)) => Ok((HeaderView::VarDecl { name, type_ref: Some(type_ref), value: Some(value) }, end)),
                        Err(m) => Err(m),
                    }
                } else {
                    Ok((HeaderView::VarDecl { name, type_ref: Some(type_ref), value: None }, q))
                },
                Err(m) => Err(m),
            }
        }
    }
}

/// The statement at `pos`.
#[verifier::opaque]
pub open spec fn statement_at(ts: Seq<Token>, pos: int) -> Result<(StmtView, int), Seq<char>>
    decreases ts.len() - pos, 3nat,
{
    if pos < 0 || pos + 1 >= ts.len() {
        match simple_at(ts, pos, SimpleContext::Statement) {
            Ok((s, end)) => Ok((simple_statement(s), end)),
            Err(m) => Err(m),
        }
    } else {
        match ts[pos].kind {
            TokenKind::Var => match var_decl_at(ts, pos + 1) {
                Ok((HeaderView::VarDecl { name, type_ref, value }, end)) => Ok((StmtView::VarDecl { name, type_ref, value }, end)),
                Ok(_) => Err(seq![]),
                Err(m) => Err(m),
            },
            TokenKind::Return => if ts[pos + 1].kind is Semicolon || ts[pos + 1].kind is RightBrace {
                Ok((StmtView::Return(seq![]), pos + 1))
            } else {
                match expression_list_at(ts, pos + 1) {
                    Ok((values, end)) => Ok((StmtView::Return(values), end)),
                    Err(m) => Err(m),
                }
            },
            TokenKind::If => match if_at(ts, pos + 1) {
                Ok((i, end)) => Ok((StmtView::If(i), end)),
                Err(m) => Err(m),
            },
            TokenKind::Switch => switch_at(ts, pos + 1),
            TokenKind::For => for_at(ts, pos + 1),
            TokenKind::Break => if ts[pos + 1].kind is Semicolon || ts[pos + 1].kind is RightBrace || ts[pos + 1].kind is Eof {
                Ok((StmtView::Break, pos + 1))
            } else {
                Err(error_text(ts, pos + 1, "labeled `break` statements are not supported"@))
            },
            TokenKind::Continue => if ts[pos + 1].kind is Semicolon || ts[pos + 1].kind is RightBrace || ts[pos + 1].kind is Eof {
                Ok((StmtView::Continue, pos + 1))
            } else {
                Err(error_text(ts, pos + 1, "labeled `continue` statements are not supported"@))
            },
            TokenKind::Defer => if ts[pos + 1].kind is LeftParen {
                Err(error_text(ts, pos + 1, "expression in defer must not be parenthesized"@))
            } else {
                match expression_at(ts, pos + 1) {
                    Ok((call, end)) => if call is Call {
                        Ok((StmtView::Defer(call), end))
                    } else {
                        Err(error_text(ts, pos + 1, "defer requires a function call"@))
                    },
                    Err(m) => Err(m),
                }
            },
            _ => match simple_at(ts, pos, SimpleContext::Statement) {
                Ok((s, end)) => Ok((simple_statement(s), end)),
                Err(m) => Err(m),
            },
        }
    }
}

/// A braced block at `pos`: its statements and the position after `}`.
#[verifier::opaque]
pub open spec fn block_at(ts: Seq<Token>, pos: int) -> Result<(Seq<StmtView>, int), Seq<char>>
    decreases ts.len() - pos, 0nat,
{
    if pos < 0 || pos + 1 >= ts.len() {
        Err(if 0 <= pos < ts.len() { error_text(ts, pos, expected_text(TokenKind::LeftBrace)) } else { seq![] })
    } else if ts[pos].kind is LeftBrace {
        let p = skip_at(ts, pos + 1);
        if pos < p < ts.len() {
            block_rest(ts, seq![], p)
        } else {
            Err(seq![])
        }
    } else {
        Err(error_text(ts, pos, expected_text(TokenKind::LeftBrace)))
    }
}

/// The statements of a block from `p` up to and past `}`, after those
/// already read.
#[verifier::opaque]
pub open spec fn block_rest(ts: Seq<Token>, statements: Seq<StmtView>, p: int) -> Result<(Seq<StmtView>, int), Seq<char>>
    decreases ts.len() - p, 4nat,
{
    if p < 0 || p >= ts.len() {
        Err(seq![])
    } else if ts[p].kind is RightBrace {
        Ok((statements, p + 1))
    } else if ts[p].kind is Eof {
        Err(error_text(ts, p, "unexpected end of file inside block"@))
    } else {
        match statement_at(ts, p) {
            Ok((s, q)) => {
                let next = skip_at(ts, q);
                if p < next < ts.len() {
                    block_rest(ts, statements.push(s), next)
                } else {
                    Err(seq![])
                }
            },
            Err(m) => Err(m),
        }
    }
}

/// After `if`: the header, the condition, the block and any `else`.
#[verifier::opaque]
pub open spec fn if_at(ts: Seq<Token>, pos: int) -> Result<(IfView, int), Seq<char>>
    decreases ts.len() - pos, 1nat,
{
    if pos < 0 || pos >= ts.len() {
        Err(seq![])
    } else {
        match if_header_at(ts, pos) {
            Ok((header, condition, p)) => if pos < p < ts.len() {
                match block_at(ts, p) {
                    Ok((then_block, q)) => if p < q && q + 1 < ts.len() {
                        if ts[q].kind is Else {
                            if ts[q + 1].kind is If {
                                match if_at(ts, q + 2) {
                                    Ok((nested, end)) => Ok((
                                        IfView::If { header, condition, then_block, else_branch: Some(ElseView::If(Box::new(nested))) },
                                        end,
                                    )),
                                    Err(m) => Err(m),
                                }
                            } else {
                                match block_at(ts, q + 1) {
                                    Ok((else_block, end)) => Ok((
                                        IfView::If { header, condition, then_block, else_branch: Some(ElseView::Block(else_block)) },
                                        end,
                                    )),
                                    Err(m) => Err(m),
                                }
                            }
                        } else {
                            Ok((IfView::If { header, condition, then_block, else_branch: None }, q))
                        }
                    } else if p < q < ts.len() {
                        Ok((IfView::If { header, condition, then_block, else_branch: None }, q))
                    } else {
                        Err(seq![])
                    },
                    Err(m) => Err(m),
                }
            } else {
                Err(seq![])
            },
            Err(m) => Err(m),
        }
    }
}

/// After `if`: an optional simple statement and `;`, then the condition.
#[verifier::opaque]
pub open spec fn if_header_at(ts: Seq<Token>, pos: int) -> Result<(Option<HeaderView>, ExprView, int), Seq<char>> {
    if 0 <= pos && pos + 1 < ts.len() && ts[pos].kind is Var {
        match var_decl_at(ts, pos + 1) {
            Ok((header, p)) => if 0 <= p < ts.len() {
                match expect_at(ts, p, TokenKind::Semicolon) {
                    Ok(q) => match expression_at(ts, q) {
                        Ok((condition, end)) => Ok((Some(header), condition, end)),
                        Err(m) => Err(m),
                    },
                    Err(m) => Err(m),
                }
            } else {
                Err(seq![])
            },
            Err(m) => Err(m),
        }
    } else {
        match simple_at(ts, pos, SimpleContext::IfHeader) {
            Ok((simple, p)) => if 0 <= p < ts.len() {
                if simple is Expr {
                    if ts[p].kind is Semicolon {
                        match expression_at(ts, p + 1) {
                            Ok((condition, end)) => Ok((Some(HeaderView::Expr(simple->Expr_0)), condition, end)),
                            Err(m) => Err(m),
                        }
                    } else {
                        Ok((None, simple->Expr_0, p))
                    }
                } else {
                    match expect_at(ts, p, TokenKind::Semicolon) {
                        Ok(q) => match expression_at(ts, q) {
                            Ok((condition, end)) => Ok((Some(simple_header(simple)), condition, end)),
                            Err(m) => Err(m),
                        },
                        Err(m) => Err(m),
                    }
                }
            } else {
                Err(seq![])
            },
            Err(m) => Err(m),
        }
    }
}

/// After `switch`: an expression switch or a type switch.
#[verifier::opaque]
pub open spec fn switch_at(ts: Seq<Token>, pos: int) -> Result<(StmtView, int), Seq<char>>
    decreases ts.len() - pos, 2nat,
{
    if pos < 0 || pos >= ts.len() {
        Err(seq![])
    } else if has_type_guard(ts, pos) {
        type_switch_at(ts, pos)
    } else {
        expression_switch_at(ts, pos)
    }
}

/// After `switch`: a type switch with its clauses.
#[verifier::opaque]
pub open spec fn type_switch_at(ts: Seq<Token>, pos: int) -> Result<(StmtView, int), Seq<char>>
    decreases ts.len() - pos, 1nat,
{
    match type_switch_header_at(ts, pos) {
        Ok((header, binding, guard, p)) => if pos < p < ts.len() {
            match expect_at(ts, p, TokenKind::LeftBrace) {
                Ok(open) => {
                    let q = skip_at(ts, open);
                    if pos < q < ts.len() {
                        match type_clauses_rest(ts, seq![], q) {
                            Ok((clauses, end)) => Ok((StmtView::TypeSwitch { header, binding, guard, clauses }, end)),
                            Err(m) => Err(m),
                        }
                    } else {
                        Err(seq![])
                    }
                },
                Err(m) => Err(m),
            }
        } else {
            Err(seq![])
        },
        Err(m) => Err(m),
    }
}

/// The clauses of a type switch from `q` up to and past `}`, after those
/// already read.
#[verifier::opaque]
pub open spec fn type_clauses_rest(ts: Seq<Token>, clauses: Seq<TypeClauseView>, q: int) -> Result<
    (Seq<TypeClauseView>, int),
    Seq<char>,
>
    decreases ts.len() - q, 6nat,
{
    if q < 0 || q >= ts.len() {
        Err(seq![])
    } else if ts[q].kind is RightBrace {
        Ok((clauses, q + 1))
    } else {
        match type_clause_at(ts, q) {
            Ok((clause, next)) => {
                let r = skip_at(ts, next);
                if q < r < ts.len() {
                    type_clauses_rest(ts, clauses.push(clause), r)
                } else {
                    Err(seq![])
                }
            },
            Err(m) => Err(m),
        }
    }
}

/// A `case` or `default` clause of a type switch.
#[verifier::opaque]
pub open spec fn type_clause_at(ts: Seq<Token>, pos: int) -> Result<(TypeClauseView, int), Seq<char>>
    decreases ts.len() - pos, 5nat,
{
    if pos < 0 || pos + 1 >= ts.len() {
        Err(
            if 0 <= pos < ts.len() {
                error_text(ts, pos, "expected `case` or `default` in type switch body"@)
            } else {
                seq![]
            },
        )
    } else if ts[pos].kind is Case {
        match type_cases_at(ts, pos + 1) {
            Ok((cases, p)) => if pos < p < ts.len() {
                match expect_at(ts, p, TokenKind::Colon) {
                    Ok(q) => if q < ts.len() {
                        match clause_body_at(ts, q) {
                            Ok((body, end)) => Ok((TypeClauseView::Case { cases, body }, end)),
                            Err(m) => Err(m),
                        }
                    } else {
                        Err(seq![])
                    },
                    Err(m) => Err(m),
                }
            } else {
                Err(seq![])
            },
            Err(m) => Err(m),
        }
    } else if ts[pos].kind is Default {
        match expect_at(ts, pos + 1, TokenKind::Colon) {
            Ok(q) => if q < ts.len() {
                match clause_body_at(ts, q) {
                    Ok((body, end)) => Ok((TypeClauseView::Default(body), end)),
                    Err(m) => Err(m),
                }
            } else {
                Err(seq![])
            },
            Err(m) => Err(m),
        }
    } else {
        Err(error_text(ts, pos, "expected `case` or `default` in type switch body"@))
    }
}

/// The expression that follows a switch header, unless the body begins.
#[verifier::opaque]
pub open spec fn switch_tag_at(ts: Seq<Token>, pos: int) -> Result<(Option<ExprView>, int), Seq<char>> {
    if 0 <= pos < ts.len() && ts[pos].kind is LeftBrace {
        Ok((None, pos))
    } else {
        match expression_at(ts, pos) {
            Ok((tag, end)) => Ok((Some(tag), end)),
            Err(m) => Err(m),
        }
    }
}

/// After `switch`: an optional simple statement and `;`, then an optional
/// tag expression.
#[verifier::opaque]
pub open spec fn switch_header_at(ts: Seq<Token>, pos: int) -> Result<(Option<HeaderView>, Option<ExprView>, int), Seq<char>> {
    if 0 <= pos < ts.len() && ts[pos].kind is LeftBrace {
        Ok((None, None, pos))
    } else if 0 <= pos && pos + 1 < ts.len() && ts[pos].kind is Var {
        match var_decl_at(ts, pos + 1) {
            Ok((header, p)) => if 0 <= p < ts.len() {
                match expect_at(ts, p, TokenKind::Semicolon) {
                    Ok(q) => match switch_tag_at(ts, q) {
                        Ok((tag, end)) => Ok((Some(header), tag, end)),
                        Err(m) => Err(m),
                    },
                    Err(m) => Err(m),
                }
            } else {
                Err(seq![])
            },
            Err(m) => Err(m),
        }
    } else {
        match simple_at(ts, pos, SimpleContext::SwitchHeader) {
            Ok((simple, p)) => if 0 <= p < ts.len() {
                if simple is Expr {
                    if ts[p].kind is Semicolon {
                        match switch_tag_at(ts, p + 1) {
                            Ok((tag, end)) => Ok((Some(HeaderView::Expr(simple->Expr_0)), tag, end)),
                            Err(m) => Err(m),
                        }
                    } else {
                        Ok((None, Some(simple->Expr_0), p))
                    }
                } else {
                    match expect_at(ts, p, TokenKind::Semicolon) {
                        Ok(q) => match switch_tag_at(ts, q) {
                            Ok((tag, end)) => Ok((Some(simple_header(simple)), tag, end)),
                            Err(m) => Err(m),
                        },
                        Err(m) => Err(m),
                    }
                }
            } else {
                Err(seq![])
            },
            Err(m) => Err(m),
        }
    }
}

/// After `switch`: an expression switch with its clauses.
#[verifier::opaque]
pub open spec fn expression_switch_at(ts: Seq<Token>, pos: int) -> Result<(StmtView, int), Seq<char>>
    decreases ts.len() - pos, 1nat,
{
    match switch_header_at(ts, pos) {
        Ok((header, expression, p)) => if pos <= p && p + 1 < ts.len() {
            match expect_at(ts, p, TokenKind::LeftBrace) {
                Ok(open) => {
                    let q = skip_at(ts, open);
                    if pos < q < ts.len() {
                        match clauses_rest(ts, seq![], q) {
                            Ok((clauses, end)) => Ok((StmtView::Switch { header, expression, clauses }, end)),
                            Err(m) => Err(m),
                        }
                    } else {
                        Err(seq![])
                    }
                },
                Err(m) => Err(m),
            }
        } else if pos <= p < ts.len() {
            match expect_at(ts, p, TokenKind::LeftBrace) {
                Ok(_) => Err(seq![]),
                Err(m) => Err(m),
            }
        } else {
            Err(seq![])
        },
        Err(m) => Err(m),
    }
}

/// The clauses of an expression switch from `q` up to and past `}`.
#[verifier::opaque]
pub open spec fn clauses_rest(ts: Seq<Token>, clauses: Seq<ClauseView>, q: int) -> Result<(Seq<ClauseView>, int), Seq<char>>
    decreases ts.len() - q, 6nat,
{
    if q < 0 || q >= ts.len() {
        Err(seq![])
    } else if ts[q].kind is RightBrace {
        Ok((clauses, q + 1))
    } else {
        match clause_at(ts, q) {
            Ok((clause, next)) => {
                let r = skip_at(ts, next);
                if q < r < ts.len() {
                    clauses_rest(ts, clauses.push(clause), r)
                } else {
                    Err(seq![])
                }
            },
            Err(m) => Err(m),
        }
    }
}

/// A `case` or `default` clause of an expression switch.
#[verifier::opaque]
pub open spec fn clause_at(ts: Seq<Token>, pos: int) -> Result<(ClauseView, int), Seq<char>>
    decreases ts.len() - pos, 5nat,
{
    if pos < 0 || pos + 1 >= ts.len() {
        Err(if 0 <= pos < ts.len() { error_text(ts, pos, "expected `case` or `default` in switch body"@) } else { seq![] })
    } else if ts[pos].kind is Case {
        match expression_list_at(ts, pos + 1) {
            Ok((expressions, p)) => if pos < p < ts.len() {
                match expect_at(ts, p, TokenKind::Colon) {
                    Ok(q) => if q < ts.len() {
                        match clause_body_at(ts, q) {
                            Ok((body, end)) => Ok((ClauseView::Case { expressions, body }, end)),
                            Err(m) => Err(m),
                        }
                    } else {
                        Err(seq![])
                    },
                    Err(m) => Err(m),
                }
            } else {
                Err(seq![])
            },
            Err(m) => Err(m),
        }
    } else if ts[pos].kind is Default {
        match expect_at(ts, pos + 1, TokenKind::Colon) {
            Ok(q) => if q < ts.len() {
                match clause_body_at(ts, q) {
                    Ok((body, end)) => Ok((ClauseView::Default(body), end)),
                    Err(m) => Err(m),
                }
            } else {
                Err(seq![])
            },
            Err(m) => Err(m),
        }
    } else {
        Err(error_text(ts, pos, "expected `case` or `default` in switch body"@))
    }
}

/// The statements of a switch clause, up to the next `case`, `default` or
/// the closing `}`.
#[verifier::opaque]
pub open spec fn clause_body_at(ts: Seq<Token>, pos: int) -> Result<(Seq<StmtView>, int), Seq<char>>
    decreases ts.len() - pos, 5nat,
{
    let p = skip_at(ts, pos);
    if 0 <= pos <= p < ts.len() {
        body_rest(ts, seq![], p)
    } else {
        Err(seq![])
    }
}

/// The statements of a switch clause from `p`, after those already read.
#[verifier::opaque]
pub open spec fn body_rest(ts: Seq<Token>, statements: Seq<StmtView>, p: int) -> Result<(Seq<StmtView>, int), Seq<char>>
    decreases ts.len() - p, 4nat,
{
    if p < 0 || p >= ts.len() {
        Err(seq![])
    } else if ts[p].kind is RightBrace || ts[p].kind is Case || ts[p].kind is Default {
        Ok((statements, p))
    } else {
        match statement_at(ts, p) {
            Ok((s, q)) => {
                let next = skip_at(ts, q);
                if p < next < ts.len() {
                    body_rest(ts, statements.push(s), next)
                } else {
                    Err(seq![])
                }
            },
            Err(m) => Err(m),
        }
    }
}

/// Whether `for` is followed by range bindings: `k :=`, `k =`, `k, v :=`
/// or `k, v =` before `range`.
pub open spec fn range_header_start(ts: Seq<Token>, pos: int) -> bool {
    &&& 0 <= pos && pos + 4 < ts.len()
    &&& ts[pos].kind is Identifier
    &&& {
        ||| (ts[pos + 1].kind is Define || ts[pos + 1].kind is Assign) && ts[pos + 2].kind is Range
        ||| ts[pos + 1].kind is Comma && ts[pos + 2].kind is Identifier && (ts[pos + 3].kind is Define || ts[pos + 3].kind
            is Assign) && ts[pos + 4].kind is Range
    }
}

/// Whether a `;` comes before the `{` of a `for` statement.
pub open spec fn clause_form_from(ts: Seq<Token>, i: int) -> bool
    decreases ts.len() - i,
{
    if i < 0 || i >= ts.len() {
        false
    } else if ts[i].kind is LeftBrace || ts[i].kind is Eof {
        false
    } else if ts[i].kind is Semicolon {
        true
    } else {
        clause_form_from(ts, i + 1)
    }
}

/// After `for`: a bare loop, a range loop, a clause loop or a condition
/// loop.
#[verifier::opaque]
pub open spec fn for_at(ts: Seq<Token>, pos: int) -> Result<(StmtView, int), Seq<char>>
    decreases ts.len() - pos, 1nat,
{
    if pos < 0 || pos + 1 >= ts.len() {
        match expression_at(ts, pos) {
            Ok(_) => Err(seq![]),
            Err(m) => Err(m),
        }
    } else if ts[pos].kind is LeftBrace {
        match block_at(ts, pos) {
            Ok((body, end)) => Ok((StmtView::For { init: None, condition: None, post: None, body }, end)),
            Err(m) => Err(m),
        }
    } else if ts[pos].kind is Range {
        match expression_at(ts, pos + 1) {
            Ok((target, p)) => if pos < p < ts.len() {
                match block_at(ts, p) {
                    Ok((body, end)) => Ok((StmtView::RangeFor { bindings: seq![], binding_mode: None, target, body }, end)),
                    Err(m) => Err(m),
                }
            } else {
                Err(seq![])
            },
            Err(m) => Err(m),
        }
    } else if range_header_start(ts, pos) {
        let first = binding_named(ts[pos].kind->Identifier_0);
        let two = ts[pos + 1].kind is Comma;
        let bindings = if two { seq![first, binding_named(ts[pos + 2].kind->Identifier_0)] } else { seq![first] };
        let p = if two { pos + 3 } else { pos + 1 };
        let mode = if ts[p].kind is Define { BindingMode::Define } else { BindingMode::Assign };
        match expression_at(ts, p + 2) {
            Ok((target, r)) => if pos < r < ts.len() {
                match block_at(ts, r) {
                    Ok((body, end)) => Ok((StmtView::RangeFor { bindings, binding_mode: Some(mode), target, body }, end)),
                    Err(m) => Err(m),
                }
            } else {
                Err(seq![])
            },
            Err(m) => Err(m),
        }
    } else if clause_form_from(ts, pos) {
        for_clause_at(ts, pos)
    } else {
        match expression_at(ts, pos) {
            Ok((condition, p)) => if pos < p < ts.len() {
                match block_at(ts, p) {
                    Ok((body, end)) => Ok((StmtView::For { init: None, condition: Some(condition), post: None, body }, end)),
                    Err(m) => Err(m),
                }
            } else {
                Err(seq![])
            },
            Err(m) => Err(m),
        }
    }
}

/// The initializer of a `for` clause, or the header of a type switch.
#[verifier::opaque]
pub open spec fn for_init_at(ts: Seq<Token>, pos: int) -> Result<(HeaderView, int), Seq<char>> {
    if 0 <= pos && pos + 1 < ts.len() && ts[pos].kind is Var {
        var_decl_at(ts, pos + 1)
    } else {
        match simple_at(ts, pos, SimpleContext::ForInit) {
            Ok((simple, end)) => Ok((simple_header(simple), end)),
            Err(m) => Err(m),
        }
    }
}

/// A `for` clause: `init; condition; post`, each part optional.
#[verifier::opaque]
pub open spec fn for_clause_at(ts: Seq<Token>, pos: int) -> Result<(StmtView, int), Seq<char>>
    decreases ts.len() - pos, 0nat,
{
    if pos < 0 || pos >= ts.len() {
        Err(seq![])
    } else {
        let init: Result<(Option<HeaderView>, int), Seq<char>> = if ts[pos].kind is Semicolon {
            Ok((None, pos))
        } else {
            match for_init_at(ts, pos) {
                Ok((h, p)) => Ok((Some(h), p)),
                Err(m) => Err(m),
            }
        };
        match init {
            Err(m) => Err(m),
            Ok((init, p)) => if !(pos <= p < ts.len()) {
                Err(seq![])
            } else {
                match expect_at(ts, p, TokenKind::Semicolon) {
                    Err(m) => Err(m),
                    Ok(p1) => if p1 >= ts.len() {
                        Err(seq![])
                    } else {
                        let condition: Result<(Option<ExprView>, int), Seq<char>> = if ts[p1].kind is Semicolon {
                            Ok((None, p1))
                        } else {
                            match expression_at(ts, p1) {
                                Ok((c, q)) => Ok((Some(c), q)),
                                Err(m) => Err(m),
                            }
                        };
                        match condition {
                            Err(m) => Err(m),
                            Ok((condition, q)) => if !(p1 <= q < ts.len()) {
                                Err(seq![])
                            } else {
                                match expect_at(ts, q, TokenKind::Semicolon) {
                                    Err(m) => Err(m),
                                    Ok(p2) => if p2 >= ts.len() {
                                        Err(seq![])
                                    } else {
                                        let post: Result<(Option<PostView>, int), Seq<char>> = if ts[p2].kind is LeftBrace {
                                            Ok((None, p2))
                                        } else {
                                            match simple_at(ts, p2, SimpleContext::ForPost) {
                                                Ok((s, r)) => Ok((Some(simple_post(s)), r)),
                                                Err(m) => Err(m),
                                            }
                                        };
                                        match post {
                                            Err(m) => Err(m),
                                            Ok((post, r)) => if pos < r < ts.len() {
                                                match block_at(ts, r) {
                                                    Ok((body, end)) => Ok((StmtView::For { init, condition, post, body }, end)),
                                                    Err(m) => Err(m),
                                                }
                                            } else {
                                                Err(seq![])
                                            },
                                        }
                                    },
                                }
                            },
                        }
                    },
                }
            },
        }
    }
}

/// Whether a statement parser's outcome is the statement the grammar states.
pub open spec fn stmt_outcome(r: Result<(Statement, usize), ParseError>, s: Result<(StmtView, int), Seq<char>>) -> bool {
    match s {
        Ok((v, end)) => r is Ok && stmt_view(r->Ok_0.0) == v && r->Ok_0.1 == end,
        Err(m) => r is Err && r->Err_0.text() == m,
    }
}

/// Whether a block parser's outcome is the statements the grammar states.
pub open spec fn block_outcome(r: Result<(Block, usize), ParseError>, s: Result<(Seq<StmtView>, int), Seq<char>>) -> bool {
    match s {
        Ok((v, end)) => r is Ok && stmt_views(r->Ok_0.0.statements@) == v && r->Ok_0.1 == end,
        Err(m) => r is Err && r->Err_0.text() == m,
    }
}

/// Whether a header parser's outcome is the header the grammar states.
pub open spec fn header_outcome(r: Result<(HeaderStatement, usize), ParseError>, s: Result<(HeaderView, int), Seq<char>>) -> bool {
    match s {
        Ok((v, end)) => r is Ok && header_view(r->Ok_0.0) == v && r->Ok_0.1 == end,
        Err(m) => r is Err && r->Err_0.text() == m,
    }
}

/// A name on the left of `:=` or `=`: an identifier, or `_`.
fn binding_from_expression(expression: Expression) -> (r: Result<Binding, ParseError>)
    ensures
        match binding_of(expr_view(expression)) {
            Some(b) => r is Ok && r->Ok_0 == b,
            None => r is Err && r->Err_0.text() == binding_message(),
        },
{
    match expression {
        Expression::Identifier(name) => if text_is(&name, "_") {
            Ok(Binding::Blank)
        } else {
            Ok(Binding::Identifier(name))
        },
        _ => Err(plain_error("multi-binding statement requires identifier or `_` bindings on the left side")),
    }
}

/// What an assignment writes: a name or an index expression.
fn assignment_target_from_expression(expression: Expression) -> (r: Result<AssignmentTarget, ParseError>)
    ensures
        match target_of(expr_view(expression)) {
            Some(t) => r is Ok && target_view(r->Ok_0) == t,
            None => r is Err && r->Err_0.text() == target_message(),
        },
{
    match expression {
        Expression::Identifier(name) => Ok(AssignmentTarget::Identifier(name)),
        Expression::Index { target, index } => Ok(AssignmentTarget::Index { target: *target, index: *index }),
        _ => Err(plain_error("assignment requires an identifier or index expression on the left side")),
    }
}

/// The names after the first binding, each after a comma.
fn parse_binding_list_rest(tokens: &Vec<Token>, bindings: Vec<Binding>, p: usize) -> (r: Result<(Vec<Binding>, usize), ParseError>)
    requires
        tokens_wf(tokens@),
        p < tokens@.len(),
    ensures
        match binding_list_rest(tokens@, bindings@, p as int) {
            Ok((v, end)) => r is Ok && r->Ok_0.0@ == v && r->Ok_0.1 == end,
            Err(m) => r is Err && r->Err_0.text() == m,
        },
        r is Ok ==> p <= r->Ok_0.1 < tokens@.len(),
    decreases tokens@.len() - p,
{
    if at_kind(tokens, p, TokenKind::Comma) {
        let (name, q) = expect_identifier(tokens, p + 1)?;
        let binding = if text_is(&name, "_") { Binding::Blank } else { Binding::Identifier(name) };
        let mut bindings = bindings;
        bindings.push(binding);
        return parse_binding_list_rest(tokens, bindings, q);
    }
    Ok((bindings, p))
}

/// `a, b := m[k]` is a lookup and `v, ok := x.(T)` an assertion; other
/// multi-binding statements declare or assign their values in order.
fn multi_binding(bindings: Vec<Binding>, values: Vec<Expression>, mode: BindingMode) -> (s: Simple)
    ensures
        simple_view(s) == multi_binding_view(bindings@, expr_views(values@), mode),
{
    proof {
        lemma_expr_views(values@);
    }
    let ghost orig = values@;
    let mut values = values;
    if bindings.len() == 2 && values.len() == 1 {
        match values.pop() {
            Some(Expression::Index { target, index }) => {
                return Simple::MapLookup { bindings, binding_mode: mode, target: *target, key: *index };
            },
            Some(Expression::TypeAssertion { target, asserted_type }) => {
                return Simple::TypeAssert { bindings, binding_mode: mode, target: *target, asserted_type };
            },
            Some(other) => {
                assert(!(expr_view(other) is Index) && !(expr_view(other) is TypeAssertion));
                values.push(other);
                assert(values@ =~= orig);
            },
            None => {},
        }
    }
    match mode {
        BindingMode::Define => Simple::ShortVarDecl { bindings, values },
        BindingMode::Assign => Simple::MultiAssign { bindings, values },
    }
}

/// The message for a multi-binding statement without `:=` or `=`.
fn multi_binding_message(context: SimpleContext) -> (m: &'static str)
    ensures
        m@ == multi_message(context),
{
    match context {
        SimpleContext::Statement => "multi-binding statement requires `:=` or `=` after the left side",
        SimpleContext::IfHeader => "multi-binding `if` header requires `:=` or `=` after the left side",
        SimpleContext::SwitchHeader => "multi-binding `switch` header requires `:=` or `=` after the left side",
        SimpleContext::ForInit => "multi-binding `for` init requires `:=` or `=` after the left side",
        SimpleContext::ForPost => "multi-binding `for` post statement requires `=` after the left side",
    }
}

/// The compound assignment operator at `pos`.
fn compound_at(tokens: &Vec<Token>, pos: usize) -> (r: Option<CompoundAssignOperator>)
    requires
        pos < tokens@.len(),
    ensures
        r == compound_of(tokens@[pos as int].kind),
{
    match &tokens[pos].kind {
        TokenKind::PlusAssign => Some(CompoundAssignOperator::Add),
        TokenKind::MinusAssign => Some(CompoundAssignOperator::Subtract),
        TokenKind::StarAssign => Some(CompoundAssignOperator::Multiply),
        TokenKind::SlashAssign => Some(CompoundAssignOperator::Divide),
        _ => None,
    }
}

/// The increment or decrement operator at `pos`.
fn inc_dec_at(tokens: &Vec<Token>, pos: usize) -> (r: Option<IncDecOperator>)
    requires
        pos < tokens@.len(),
    ensures
        r == inc_dec_of(tokens@[pos as int].kind),
{
    match &tokens[pos].kind {
        TokenKind::PlusPlus => Some(IncDecOperator::Increment),
        TokenKind::MinusMinus => Some(IncDecOperator::Decrement),
        _ => None,
    }
}

/// A simple statement: an expression, a send, an assignment, a
/// declaration, a lookup, an assertion, or an increment.
#[verifier::spinoff_prover]
#[verifier::rlimit(60)]
pub fn parse_simple(tokens: &Vec<Token>, pos: usize, context: SimpleContext) -> (r: Result<(Simple, usize), ParseError>)
    requires
        tokens_wf(tokens@),
        pos < tokens@.len(),
    ensures
        match simple_at(tokens@, pos as int, context) {
            Ok((v, end)) => r is Ok && simple_view(r->Ok_0.0) == v && r->Ok_0.1 == end,
            Err(m) => r is Err && r->Err_0.text() == m,
        },
        r is Ok ==> pos < r->Ok_0.1 < tokens@.len(),
        r is Ok ==> simple_fits(simple_view(r->Ok_0.0), context),
{
    proof {
        reveal(simple_at);
    }
    let (expression, p) = parse_expression(tokens, pos)?;
    if at_kind(tokens, p, TokenKind::Comma) {
        let first = binding_from_expression(expression)?;
        let mut bindings: Vec<Binding> = Vec::new();
        bindings.push(first);
        assert(bindings@ =~= seq![first]);
        let (bindings, q) = parse_binding_list_rest(tokens, bindings, p)?;
        if at_kind(tokens, q, TokenKind::Define) {
            if context == SimpleContext::ForPost {
                return Err(error_at(tokens, q + 1, "for post statement does not support `:=`"));
            }
            let (values, end) = parse_expression_list(tokens, q + 1)?;
            return Ok((multi_binding(bindings, values, BindingMode::Define), end));
        }
        if at_kind(tokens, q, TokenKind::Assign) {
            let (values, end) = parse_expression_list(tokens, q + 1)?;
            return Ok((multi_binding(bindings, values, BindingMode::Assign), end));
        }
        return Err(error_at(tokens, q, multi_binding_message(context)));
    }
    if at_kind(tokens, p, TokenKind::Define) {
        if context == SimpleContext::ForPost {
            return Err(error_at(tokens, p + 1, "for post statement does not support `:=`"));
        }
        let binding = binding_from_expression(expression)?;
        let (values, end) = parse_expression_list(tokens, p + 1)?;
        let mut bindings: Vec<Binding> = Vec::new();
        bindings.push(binding);
        assert(bindings@ =~= seq![binding]);
        return Ok((Simple::ShortVarDecl { bindings, values }, end));
    }
    if at_kind(tokens, p, TokenKind::Assign) {
        let target = assignment_target_from_expression(expression)?;
        let (value, end) = parse_expression(tokens, p + 1)?;
        return Ok((Simple::Assign { target, value }, end));
    }
    if context == SimpleContext::Statement && at_kind(tokens, p, TokenKind::LeftArrow) {
        let (value, end) = parse_expression(tokens, p + 1)?;
        return Ok((Simple::Send { channel: expression, value }, end));
    }
    match compound_at(tokens, p) {
        Some(operator) => {
            let target = assignment_target_from_expression(expression)?;
            let (value, end) = parse_expression(tokens, p + 1)?;
            return Ok((Simple::CompoundAssign { target, operator, value }, end));
        },
        None => {},
    }
    match inc_dec_at(tokens, p) {
        Some(operator) => {
            let target = assignment_target_from_expression(expression)?;
            return Ok((Simple::IncDec { target, operator }, p + 1));
        },
        None => {},
    }
    Ok((Simple::Expr(expression), p))
}

/// A simple statement standing as a statement.
fn into_statement(s: Simple) -> (r: Statement)
    ensures
        statement_renders(r),
        stmt_view(r) == simple_statement(simple_view(s)),
{
    match s {
        Simple::ShortVarDecl { bindings, values } => Statement::ShortVarDecl { bindings, values },
        Simple::MultiAssign { bindings, values } => Statement::MultiAssign { bindings, values },
        Simple::MapLookup { bindings, binding_mode, target, key } => Statement::MapLookup { bindings, binding_mode, target, key },
        Simple::TypeAssert { bindings, binding_mode, target, asserted_type } => Statement::TypeAssert {
            bindings,
            binding_mode,
            target,
            asserted_type,
        },
        Simple::Assign { target, value } => Statement::Assign { target, value },
        Simple::CompoundAssign { target, operator, value } => Statement::CompoundAssign { target, operator, value },
        Simple::IncDec { target, operator } => Statement::IncDec { target, operator },
        Simple::Send { channel, value } => Statement::Send { channel, value },
        Simple::Expr(e) => Statement::Expr(e),
    }
}

/// A simple statement standing as a header.
pub fn into_header(s: Simple) -> (r: HeaderStatement)
    ensures
        header_view(r) == simple_header(simple_view(s)),
{
    match s {
        Simple::ShortVarDecl { bindings, values } => HeaderStatement::ShortVarDecl { bindings, values },
        Simple::MultiAssign { bindings, values } => HeaderStatement::MultiAssign { bindings, values },
        Simple::MapLookup { bindings, binding_mode, target, key } => HeaderStatement::MapLookup {
            bindings,
            binding_mode,
            target,
            key,
        },
        Simple::TypeAssert { bindings, binding_mode, target, asserted_type } => HeaderStatement::TypeAssert {
            bindings,
            binding_mode,
            target,
            asserted_type,
        },
        Simple::Assign { target, value } => HeaderStatement::Assign { target, value },
        Simple::CompoundAssign { target, operator, value } => HeaderStatement::CompoundAssign { target, operator, value },
        Simple::IncDec { target, operator } => HeaderStatement::IncDec { target, operator },
        Simple::Expr(e) => HeaderStatement::Expr(e),
        Simple::Send { channel, .. } => HeaderStatement::Expr(channel),
    }
}

/// A simple statement standing after a `for` clause.
fn into_post(s: Simple) -> (r: ForPostStatement)
    ensures
        post_view(r) == simple_post(simple_view(s)),
{
    match s {
        Simple::MultiAssign { bindings, values } => ForPostStatement::MultiAssign { bindings, values },
        Simple::MapLookup { bindings, target, key, .. } => ForPostStatement::MapLookup { bindings, target, key },
        Simple::TypeAssert { bindings, target, asserted_type, .. } => ForPostStatement::TypeAssert {
            bindings,
            target,
            asserted_type,
        },
        Simple::Assign { target, value } => ForPostStatement::Assign { target, value },
        Simple::CompoundAssign { target, operator, value } => ForPostStatement::CompoundAssign { target, operator, value },
        Simple::IncDec { target, operator } => ForPostStatement::IncDec { target, operator },
        Simple::Expr(e) => ForPostStatement::Expr(e),
        Simple::ShortVarDecl { bindings, values } => ForPostStatement::MultiAssign { bindings, values },
        Simple::Send { channel, .. } => ForPostStatement::Expr(channel),
    }
}

/// After `var`: the name, then a type, an initializer, or both.
pub fn parse_var_decl(tokens: &Vec<Token>, pos: usize) -> (r: Result<(HeaderStatement, usize), ParseError>)
    requires
        tokens_wf(tokens@),
        pos < tokens@.len(),
    ensures
        header_outcome(r, var_decl_at(tokens@, pos as int)),
        r is Ok ==> pos < r->Ok_0.1 < tokens@.len(),
        r is Ok ==> r->Ok_0.0 is VarDecl,
{
    proof {
        reveal(var_decl_at);
    }
    let (name, p) = expect_identifier(tokens, pos)?;
    if at_kind(tokens, p, TokenKind::Assign) {
        let (value, end) = parse_expression(tokens, p + 1)?;
        return Ok((HeaderStatement::VarDecl { name, type_ref: None, value: Some(value) }, end));
    }
    if !at_type_start(tokens, p) {
        return Err(error_at(tokens, p, "variable declaration requires a type or initializer"));
    }
    let (type_ref, q) = parse_type(tokens, p)?;
    if at_kind(tokens, q, TokenKind::Assign) {
        let (value, end) = parse_expression(tokens, q + 1)?;
        return Ok((HeaderStatement::VarDecl { name, type_ref: Some(type_ref), value: Some(value) }, end));
    }
    Ok((HeaderStatement::VarDecl { name, type_ref: Some(type_ref), value: None }, q))
}

/// The statement at `pos`.
#[verifier::spinoff_prover]
#[verifier::rlimit(100)]
pub fn parse_statement(tokens: &Vec<Token>, pos: usize) -> (r: Result<(Statement, usize), ParseError>)
    requires
        tokens_wf(tokens@),
        pos < tokens@.len(),
    ensures
        stmt_outcome(r, statement_at(tokens@, pos as int)),
        r is Ok ==> pos < r->Ok_0.1 < tokens@.len(),
        r is Ok ==> statement_renders(r->Ok_0.0),
    decreases tokens@.len() - pos, 3nat,
{
    proof {
        reveal(statement_at);
    }
    match &tokens[pos].kind {
        TokenKind::Var => {
            let (header, p) = parse_var_decl(tokens, pos + 1)?;
            match header {
                HeaderStatement::VarDecl { name, type_ref, value } => Ok((Statement::VarDecl { name, type_ref, value }, p)),
                _ => Err(error_at(tokens, pos, "expected variable declaration")),
            }
        },
        TokenKind::Return => {
            if at_kind(tokens, pos + 1, TokenKind::Semicolon) || at_kind(tokens, pos + 1, TokenKind::RightBrace) {
                return Ok((Statement::Return(Vec::new()), pos + 1));
            }
            let (values, p) = parse_expression_list(tokens, pos + 1)?;
            Ok((Statement::Return(values), p))
        },
        TokenKind::If => {
            let (statement, p) = parse_if(tokens, pos + 1)?;
            Ok((Statement::If(statement), p))
        },
        TokenKind::Switch => parse_switch(tokens, pos + 1),
        TokenKind::For => parse_for(tokens, pos + 1),
        TokenKind::Break => {
            reject_label(tokens, pos + 1, "labeled `break` statements are not supported")?;
            Ok((Statement::Break, pos + 1))
        },
        TokenKind::Continue => {
            reject_label(tokens, pos + 1, "labeled `continue` statements are not supported")?;
            Ok((Statement::Continue, pos + 1))
        },
        TokenKind::Defer => {
            if at_kind(tokens, pos + 1, TokenKind::LeftParen) {
                return Err(error_at(tokens, pos + 1, "expression in defer must not be parenthesized"));
            }
            let (call, p) = parse_expression(tokens, pos + 1)?;
            match call {
                Expression::Call { .. } => Ok((Statement::Defer(call), p)),
                _ => Err(error_at(tokens, pos + 1, "defer requires a function call")),
            }
        },
        _ => {
            let (simple, p) = parse_simple(tokens, pos, SimpleContext::Statement)?;
            Ok((into_statement(simple), p))
        },
    }
}

/// After `break` or `continue`: nothing may follow on the line.
fn reject_label(tokens: &Vec<Token>, pos: usize, message: &str) -> (r: Result<(), ParseError>)
    requires
        pos < tokens@.len(),
    ensures
        r is Ok <==> (tokens@[pos as int].kind is Semicolon || tokens@[pos as int].kind is RightBrace
            || tokens@[pos as int].kind is Eof),
        r is Err ==> r->Err_0.text() == error_text(tokens@, pos as int, message@),
{
    if matches!(tokens[pos].kind, TokenKind::Semicolon | TokenKind::RightBrace | TokenKind::Eof) {
        return Ok(());
    }
    Err(error_at(tokens, pos, message))
}

/// A braced block of statements, and the position after its `}`.
#[verifier::spinoff_prover]
#[verifier::rlimit(60)]
pub fn parse_block(tokens: &Vec<Token>, pos: usize) -> (r: Result<(Block, usize), ParseError>)
    requires
        tokens_wf(tokens@),
        pos < tokens@.len(),
    ensures
        block_outcome(r, block_at(tokens@, pos as int)),
        r is Ok ==> pos < r->Ok_0.1 < tokens@.len(),
        r is Ok ==> block_renders(r->Ok_0.0.statements@),
    decreases tokens@.len() - pos, 0nat,
{
    proof {
        reveal(block_at);
        reveal(block_rest);
    }
    let open = expect(tokens, pos, TokenKind::LeftBrace)?;
    let p = skip_semicolons(tokens, open);
    let (statements, end) = parse_block_rest(tokens, Vec::new(), p)?;
    Ok((Block { statements }, end))
}

/// The statements of a block from `p` up to and past `}`.
fn parse_block_rest(tokens: &Vec<Token>, statements: Vec<Statement>, p: usize) -> (r: Result<(Vec<Statement>, usize), ParseError>)
    requires
        tokens_wf(tokens@),
        p < tokens@.len(),
        block_renders(statements@),
    ensures
        match block_rest(tokens@, stmt_views(statements@), p as int) {
            Ok((v, end)) => r is Ok && stmt_views(r->Ok_0.0@) == v && r->Ok_0.1 == end,
            Err(m) => r is Err && r->Err_0.text() == m,
        },
        r is Ok ==> p < r->Ok_0.1 < tokens@.len(),
        r is Ok ==> block_renders(r->Ok_0.0@),
    decreases tokens@.len() - p, 4nat,
{
    proof {
        reveal(block_rest);
        reveal(statement_at);
    }
    if at_kind(tokens, p, TokenKind::RightBrace) {
        return Ok((statements, p + 1));
    }
    if at_kind(tokens, p, TokenKind::Eof) {
        return Err(error_at(tokens, p, "unexpected end of file inside block"));
    }
    let (statement, q) = parse_statement(tokens, p)?;
    let mut statements = statements;
    let ghost before = statements@;
    statements.push(statement);
    assert(statements@.drop_last() =~= before);
    let next = skip_semicolons(tokens, q);
    parse_block_rest(tokens, statements, next)
}

/// After `if`: the header, the condition, the block and any `else`.
pub fn parse_if(tokens: &Vec<Token>, pos: usize) -> (r: Result<(IfStatement, usize), ParseError>)
    requires
        tokens_wf(tokens@),
        pos < tokens@.len(),
    ensures
        match if_at(tokens@, pos as int) {
            Ok((v, end)) => r is Ok && if_view(r->Ok_0.0) == v && r->Ok_0.1 == end,
            Err(m) => r is Err && r->Err_0.text() == m,
        },
        r is Ok ==> pos < r->Ok_0.1 < tokens@.len(),
        r is Ok ==> if_renders(r->Ok_0.0),
    decreases tokens@.len() - pos, 1nat,
{
    proof {
        reveal(if_at);
        reveal(block_at);
    }
    let (header, condition, p) = parse_if_header(tokens, pos)?;
    let (then_block, q) = parse_block(tokens, p)?;
    if at_kind(tokens, q, TokenKind::Else) {
        if at_kind(tokens, q + 1, TokenKind::If) {
            let (nested, end) = parse_if(tokens, q + 2)?;
            return Ok((IfStatement { header, condition, then_block, else_branch: Some(ElseBranch::If(Box::new(nested))) }, end));
        }
        let (else_block, end) = parse_block(tokens, q + 1)?;
        return Ok((IfStatement { header, condition, then_block, else_branch: Some(ElseBranch::Block(else_block)) }, end));
    }
    Ok((IfStatement { header, condition, then_block, else_branch: None }, q))
}

/// After `if`: an optional simple statement and `;`, then the condition.
fn parse_if_header(tokens: &Vec<Token>, pos: usize) -> (r: Result<(Option<HeaderStatement>, Expression, usize), ParseError>)
    requires
        tokens_wf(tokens@),
        pos < tokens@.len(),
    ensures
        match if_header_at(tokens@, pos as int) {
            Ok((h, c, end)) => r is Ok && opt_header_view(r->Ok_0.0) == h && expr_view(r->Ok_0.1) == c && r->Ok_0.2 == end,
            Err(m) => r is Err && r->Err_0.text() == m,
        },
        r is Ok ==> pos < r->Ok_0.2 < tokens@.len(),
{
    proof {
        reveal(if_header_at);
    }
    if at_kind(tokens, pos, TokenKind::Var) {
        let (header, p) = parse_var_decl(tokens, pos + 1)?;
        let q = expect(tokens, p, TokenKind::Semicolon)?;
        let (condition, end) = parse_expression(tokens, q)?;
        return Ok((Some(header), condition, end));
    }
    let (simple, p) = parse_simple(tokens, pos, SimpleContext::IfHeader)?;
    match simple {
        Simple::Expr(e) => {
            if at_kind(tokens, p, TokenKind::Semicolon) {
                let (condition, end) = parse_expression(tokens, p + 1)?;
                Ok((Some(HeaderStatement::Expr(e)), condition, end))
            } else {
                Ok((None, e, p))
            }
        },
        other => {
            let q = expect(tokens, p, TokenKind::Semicolon)?;
            let (condition, end) = parse_expression(tokens, q)?;
            Ok((Some(into_header(other)), condition, end))
        },
    }
}

/// After `switch`: an expression switch or a type switch.
fn parse_switch(tokens: &Vec<Token>, pos: usize) -> (r: Result<(Statement, usize), ParseError>)
    requires
        tokens_wf(tokens@),
        pos < tokens@.len(),
    ensures
        stmt_outcome(r, switch_at(tokens@, pos as int)),
        r is Ok ==> pos < r->Ok_0.1 < tokens@.len(),
        r is Ok ==> statement_renders(r->Ok_0.0),
    decreases tokens@.len() - pos, 2nat,
{
    proof {
        reveal(switch_at);
        reveal(type_switch_at);
        reveal(expression_switch_at);
    }
    if header_has_type_guard(tokens, pos) {
        parse_type_switch(tokens, pos)
    } else {
        parse_expression_switch(tokens, pos)
    }
}

/// The expression that follows a switch header, unless the body begins.
fn parse_switch_tag(tokens: &Vec<Token>, pos: usize) -> (r: Result<(Option<Expression>, usize), ParseError>)
    requires
        tokens_wf(tokens@),
        pos < tokens@.len(),
    ensures
        match switch_tag_at(tokens@, pos as int) {
            Ok((t, end)) => r is Ok && opt_expr_view(r->Ok_0.0) == t && r->Ok_0.1 == end,
            Err(m) => r is Err && r->Err_0.text() == m,
        },
        r is Ok ==> pos <= r->Ok_0.1 < tokens@.len(),
{
    proof {
        reveal(switch_tag_at);
    }
    if at_kind(tokens, pos, TokenKind::LeftBrace) {
        Ok((None, pos))
    } else {
        let (tag, p) = parse_expression(tokens, pos)?;
        Ok((Some(tag), p))
    }
}

/// After `switch`: an optional simple statement and `;`, then an optional
/// tag expression.
fn parse_switch_header(tokens: &Vec<Token>, pos: usize) -> (r: Result<(Option<HeaderStatement>, Option<Expression>, usize), ParseError>)
    requires
        tokens_wf(tokens@),
        pos < tokens@.len(),
    ensures
        match switch_header_at(tokens@, pos as int) {
            Ok((h, t, end)) => r is Ok && opt_header_view(r->Ok_0.0) == h && opt_expr_view(r->Ok_0.1) == t && r->Ok_0.2 == end,
            Err(m) => r is Err && r->Err_0.text() == m,
        },
        r is Ok ==> pos <= r->Ok_0.2 < tokens@.len(),
{
    proof {
        reveal(switch_header_at);
    }
    if at_kind(tokens, pos, TokenKind::LeftBrace) {
        return Ok((None, None, pos));
    }
    if at_kind(tokens, pos, TokenKind::Var) {
        let (header, p) = parse_var_decl(tokens, pos + 1)?;
        let q = expect(tokens, p, TokenKind::Semicolon)?;
        let (tag, end) = parse_switch_tag(tokens, q)?;
        return Ok((Some(header), tag, end));
    }
    let (simple, p) = parse_simple(tokens, pos, SimpleContext::SwitchHeader)?;
    match simple {
        Simple::Expr(e) => {
            if at_kind(tokens, p, TokenKind::Semicolon) {
                let (tag, end) = parse_switch_tag(tokens, p + 1)?;
                Ok((Some(HeaderStatement::Expr(e)), tag, end))
            } else {
                Ok((None, Some(e), p))
            }
        },
        other => {
            let q = expect(tokens, p, TokenKind::Semicolon)?;
            let (tag, end) = parse_switch_tag(tokens, q)?;
            Ok((Some(into_header(other)), tag, end))
        },
    }
}

/// After `switch`: an expression switch with its clauses.
fn parse_expression_switch(tokens: &Vec<Token>, pos: usize) -> (r: Result<(Statement, usize), ParseError>)
    requires
        tokens_wf(tokens@),
        pos < tokens@.len(),
    ensures
        stmt_outcome(r, expression_switch_at(tokens@, pos as int)),
        r is Ok ==> pos < r->Ok_0.1 < tokens@.len(),
        r is Ok ==> statement_renders(r->Ok_0.0),
    decreases tokens@.len() - pos, 1nat,
{
    proof {
        reveal(expression_switch_at);
        reveal(clauses_rest);
    }
    let (header, expression, p) = parse_switch_header(tokens, pos)?;
    let open = expect(tokens, p, TokenKind::LeftBrace)?;
    let q = skip_semicolons(tokens, open);
    let (clauses, end) = parse_clauses_rest(tokens, Vec::new(), q)?;
    Ok((Statement::Switch(SwitchStatement { header, expression, clauses }), end))
}

/// The clauses of an expression switch from `q` up to and past `}`.
#[verifier::spinoff_prover]
#[verifier::rlimit(60)]
fn parse_clauses_rest(tokens: &Vec<Token>, clauses: Vec<SwitchClause>, q: usize) -> (r: Result<(Vec<SwitchClause>, usize), ParseError>)
    requires
        tokens_wf(tokens@),
        q < tokens@.len(),
        clauses_render(clauses@),
    ensures
        match clauses_rest(tokens@, clause_views(clauses@), q as int) {
            Ok((v, end)) => r is Ok && clause_views(r->Ok_0.0@) == v && r->Ok_0.1 == end,
            Err(m) => r is Err && r->Err_0.text() == m,
        },
        r is Ok ==> q < r->Ok_0.1 < tokens@.len(),
        r is Ok ==> clauses_render(r->Ok_0.0@),
    decreases tokens@.len() - q, 6nat,
{
    proof {
        reveal(clauses_rest);
        reveal(clause_at);
    }
    if at_kind(tokens, q, TokenKind::RightBrace) {
        return Ok((clauses, q + 1));
    }
    let (clause, next) = parse_switch_clause(tokens, q)?;
    let mut clauses = clauses;
    let ghost before = clauses@;
    clauses.push(clause);
    assert(clauses@.drop_last() =~= before);
    let r = skip_semicolons(tokens, next);
    parse_clauses_rest(tokens, clauses, r)
}

/// A `case` or `default` clause of an expression switch.
#[verifier::spinoff_prover]
#[verifier::rlimit(60)]
fn parse_switch_clause(tokens: &Vec<Token>, pos: usize) -> (r: Result<(SwitchClause, usize), ParseError>)
    requires
        tokens_wf(tokens@),
        pos < tokens@.len(),
    ensures
        match clause_at(tokens@, pos as int) {
            Ok((v, end)) => r is Ok && clause_view(r->Ok_0.0) == v && r->Ok_0.1 == end,
            Err(m) => r is Err && r->Err_0.text() == m,
        },
        r is Ok ==> pos < r->Ok_0.1 < tokens@.len(),
        r is Ok ==> match r->Ok_0.0 {
            SwitchClause::Case { body, .. } => block_renders(body.statements@),
            SwitchClause::Default(body) => block_renders(body.statements@),
        },
    decreases tokens@.len() - pos, 5nat,
{
    proof {
        reveal(clause_at);
        reveal(clause_body_at);
    }
    if at_kind(tokens, pos, TokenKind::Case) {
        let (expressions, p) = parse_expression_list(tokens, pos + 1)?;
        let q = expect(tokens, p, TokenKind::Colon)?;
        let (body, end) = parse_clause_body(tokens, q)?;
        let clause = SwitchClause::Case { expressions, body };
        return Ok((clause, end));
    }
    if at_kind(tokens, pos, TokenKind::Default) {
        let q = expect(tokens, pos + 1, TokenKind::Colon)?;
        let (body, end) = parse_clause_body(tokens, q)?;
        let clause = SwitchClause::Default(body);
        return Ok((clause, end));
    }
    Err(error_at(tokens, pos, "expected `case` or `default` in switch body"))
}

/// The statements of a switch clause, up to the next `case`, `default` or
/// the closing `}`.
pub fn parse_clause_body(tokens: &Vec<Token>, pos: usize) -> (r: Result<(Block, usize), ParseError>)
    requires
        tokens_wf(tokens@),
        pos < tokens@.len(),
    ensures
        block_outcome(r, clause_body_at(tokens@, pos as int)),
        r is Ok ==> pos <= r->Ok_0.1 < tokens@.len(),
        r is Ok ==> block_renders(r->Ok_0.0.statements@),
    decreases tokens@.len() - pos, 5nat,
{
    proof {
        reveal(clause_body_at);
        reveal(body_rest);
    }
    let p = skip_semicolons(tokens, pos);
    let (statements, end) = parse_body_rest(tokens, Vec::new(), p)?;
    Ok((Block { statements }, end))
}

/// The statements of a switch clause from `p`.
fn parse_body_rest(tokens: &Vec<Token>, statements: Vec<Statement>, p: usize) -> (r: Result<(Vec<Statement>, usize), ParseError>)
    requires
        tokens_wf(tokens@),
        p < tokens@.len(),
        block_renders(statements@),
    ensures
        match body_rest(tokens@, stmt_views(statements@), p as int) {
            Ok((v, end)) => r is Ok && stmt_views(r->Ok_0.0@) == v && r->Ok_0.1 == end,
            Err(m) => r is Err && r->Err_0.text() == m,
        },
        r is Ok ==> p <= r->Ok_0.1 < tokens@.len(),
        r is Ok ==> block_renders(r->Ok_0.0@),
    decreases tokens@.len() - p, 4nat,
{
    proof {
        reveal(body_rest);
        reveal(statement_at);
    }
    if matches!(tokens[p].kind, TokenKind::RightBrace | TokenKind::Case | TokenKind::Default) {
        return Ok((statements, p));
    }
    let ghost before = statements@;
    let (statement, q) = parse_statement(tokens, p)?;
    let mut statements = statements;
    statements.push(statement);
    assert(statements@.drop_last() =~= before);
    let next = skip_semicolons(tokens, q);
    parse_body_rest(tokens, statements, next)
}

/// Whether `for` is followed by range bindings: `k :=`, `k =`, `k, v :=`
/// or `k, v =` before `range`.
fn is_range_header_start(tokens: &Vec<Token>, pos: usize) -> (r: bool)
    requires
        tokens_wf(tokens@),
        pos < tokens@.len(),
    ensures
        r == range_header_start(tokens@, pos as int),
{
    if tokens.len() - pos <= 4 || !matches!(tokens[pos].kind, TokenKind::Identifier(_)) {
        return false;
    }
    if matches!(tokens[pos + 1].kind, TokenKind::Define | TokenKind::Assign) && at_kind(tokens, pos + 2, TokenKind::Range) {
        return true;
    }
    at_kind(tokens, pos + 1, TokenKind::Comma) && matches!(tokens[pos + 2].kind, TokenKind::Identifier(_))
        && matches!(tokens[pos + 3].kind, TokenKind::Define | TokenKind::Assign) && at_kind(tokens, pos + 4, TokenKind::Range)
}

/// Whether a `;` comes before the `{` of a `for` statement.
fn uses_clause_form(tokens: &Vec<Token>, pos: usize) -> (r: bool)
    requires
        pos < tokens@.len(),
    ensures
        r == clause_form_from(tokens@, pos as int),
{
    let mut i = pos;
    while i < tokens.len()
        invariant
            pos <= i <= tokens@.len(),
            clause_form_from(tokens@, pos as int) == clause_form_from(tokens@, i as int),
        decreases tokens@.len() - i,
    {
        match tokens[i].kind {
            TokenKind::LeftBrace | TokenKind::Eof => return false,
            TokenKind::Semicolon => return true,
            _ => {},
        }
        i = i + 1;
    }
    false
}

/// After `for`: a bare loop, a range loop, a clause loop or a condition
/// loop.
#[verifier::spinoff_prover]
#[verifier::rlimit(60)]
fn parse_for(tokens: &Vec<Token>, pos: usize) -> (r: Result<(Statement, usize), ParseError>)
    requires
        tokens_wf(tokens@),
        pos < tokens@.len(),
    ensures
        stmt_outcome(r, for_at(tokens@, pos as int)),
        r is Ok ==> pos < r->Ok_0.1 < tokens@.len(),
        r is Ok ==> statement_renders(r->Ok_0.0),
    decreases tokens@.len() - pos, 1nat,
{
    proof {
        reveal(for_at);
        reveal(block_at);
        reveal(for_clause_at);
    }
    if at_kind(tokens, pos, TokenKind::LeftBrace) {
        let (body, end) = parse_block(tokens, pos)?;
        return Ok((Statement::For(ForStatement { init: None, condition: None, post: None, body }), end));
    }
    if at_kind(tokens, pos, TokenKind::Range) {
        let (target, p) = parse_expression(tokens, pos + 1)?;
        let (body, end) = parse_block(tokens, p)?;
        return Ok((Statement::RangeFor { bindings: Vec::new(), binding_mode: None, target, body }, end));
    }
    if is_range_header_start(tokens, pos) {
        let mut bindings: Vec<Binding> = Vec::new();
        let first = match &tokens[pos].kind {
            TokenKind::Identifier(name) => if text_is(name, "_") { Binding::Blank } else { Binding::Identifier(name.clone()) },
            _ => Binding::Blank,
        };
        bindings.push(first);
        let mut p = pos + 1;
        if at_kind(tokens, p, TokenKind::Comma) {
            let second = match &tokens[pos + 2].kind {
                TokenKind::Identifier(name) => if text_is(name, "_") { Binding::Blank } else { Binding::Identifier(name.clone()) },
                _ => Binding::Blank,
            };
            bindings.push(second);
            p = pos + 3;
        }
        let binding_mode = if at_kind(tokens, p, TokenKind::Define) { BindingMode::Define } else { BindingMode::Assign };
        let (target, r) = parse_expression(tokens, p + 2)?;
        let (body, end) = parse_block(tokens, r)?;
        proof {
            if bindings@.len() == 1 {
                assert(bindings@ =~= seq![first]);
            } else {
                assert(bindings@ =~= seq![first, bindings@[1]]);
            }
        }
        return Ok((Statement::RangeFor { bindings, binding_mode: Some(binding_mode), target, body }, end));
    }
    if uses_clause_form(tokens, pos) {
        return parse_for_clause(tokens, pos);
    }
    let (condition, p) = parse_expression(tokens, pos)?;
    let (body, end) = parse_block(tokens, p)?;
    Ok((Statement::For(ForStatement { init: None, condition: Some(condition), post: None, body }), end))
}

/// A `for` clause: `init; condition; post`, each part optional.
fn parse_for_clause(tokens: &Vec<Token>, pos: usize) -> (r: Result<(Statement, usize), ParseError>)
    requires
        tokens_wf(tokens@),
        pos < tokens@.len(),
    ensures
        stmt_outcome(r, for_clause_at(tokens@, pos as int)),
        r is Ok ==> pos < r->Ok_0.1 < tokens@.len(),
        r is Ok ==> statement_renders(r->Ok_0.0),
    decreases tokens@.len() - pos, 0nat,
{
    proof {
        reveal(for_clause_at);
        reveal(block_at);
    }
    let mut p = pos;
    let mut init: Option<HeaderStatement> = None;
    if !at_kind(tokens, p, TokenKind::Semicolon) {
        let (header, q) = parse_for_init(tokens, p)?;
        init = Some(header);
        p = q;
    }
    let p1 = expect(tokens, p, TokenKind::Semicolon)?;
    let mut q = p1;
    let mut condition: Option<Expression> = None;
    if !at_kind(tokens, p1, TokenKind::Semicolon) {
        let (c, after) = parse_expression(tokens, p1)?;
        condition = Some(c);
        q = after;
    }
    let p2 = expect(tokens, q, TokenKind::Semicolon)?;
    let mut r = p2;
    let mut post: Option<ForPostStatement> = None;
    if !at_kind(tokens, p2, TokenKind::LeftBrace) {
        let (simple, after) = parse_simple(tokens, p2, SimpleContext::ForPost)?;
        post = Some(into_post(simple));
        r = after;
    }
    let (body, end) = parse_block(tokens, r)?;
    Ok((Statement::For(ForStatement { init, condition, post, body }), end))
}

/// The initializer of a `for` clause, or the header of a type switch.
pub fn parse_for_init(tokens: &Vec<Token>, pos: usize) -> (r: Result<(HeaderStatement, usize), ParseError>)
    requires
        tokens_wf(tokens@),
        pos < tokens@.len(),
    ensures
        header_outcome(r, for_init_at(tokens@, pos as int)),
        r is Ok ==> pos < r->Ok_0.1 < tokens@.len(),
{
    proof {
        reveal(for_init_at);
    }
    if at_kind(tokens, pos, TokenKind::Var) {
        return parse_var_decl(tokens, pos + 1);
    }
    let (simple, p) = parse_simple(tokens, pos, SimpleContext::ForInit)?;
    Ok((into_header(simple), p))
}

} // verus!
