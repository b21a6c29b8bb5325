//! Rendering the syntax tree as text.

use vstd::prelude::*;

use crate::frontend::ast::{
    argument_texts, assert_text, binding_mode_text, binding_text, bindings_text, block_renders, block_text,
    case_text, clauses_render, clauses_text, compound_text, entry_texts, expression_text, expression_texts,
    for_header_text, function_text, if_condition_text, functions_text, header_text, if_renders, if_text,
    imports_text, import_spec_text, import_specs_text, import_text, inc_dec_text, indent_text, lookup_text,
    post_text, range_header_text, source_renders, source_text, statement_renders, statement_text,
    switch_header_text, target_text, type_clauses_render, type_clauses_text, type_switch_header_text, var_decl_text,
    binary_operator_text, AssignmentTarget, Binding, BindingMode, BinaryOperator, Block, CallArgument,
    CompoundAssignOperator, ElseBranch, Expression, ForPostStatement, ForStatement, FunctionDecl, HeaderStatement,
    IfStatement, ImportDecl, ImportSpec, IncDecOperator, MapLiteralEntry, SourceFileAst, Statement, SwitchClause,
    TypeSwitchCase, TypeSwitchClause, TypeSwitchGuard,
};
use crate::frontend::signature::{type_text, push_results, parameter_texts, TypeRef};
use crate::text::{join_with, push_str, push_int, push_bool, push_quoted};

verus! {

impl BinaryOperator {
    /// The operator as written, such as `<=`.
    pub fn render(&self) -> (s: &'static str)
        ensures
            s == binary_operator_text(*self),
    {
        match self {
            BinaryOperator::Add => "+",
            BinaryOperator::Subtract => "-",
            BinaryOperator::Multiply => "*",
            BinaryOperator::Divide => "/",
            BinaryOperator::Equal => "==",
            BinaryOperator::NotEqual => "!=",
            BinaryOperator::Less => "<",
            BinaryOperator::LessEqual => "<=",
            BinaryOperator::Greater => ">",
            BinaryOperator::GreaterEqual => ">=",
        }
    }
}

impl IncDecOperator {
    fn render(&self) -> (s: &'static str)
        ensures
            s == inc_dec_text(*self),
    {
        match self {
            IncDecOperator::Increment => "++",
            IncDecOperator::Decrement => "--",
        }
    }
}

impl CompoundAssignOperator {
    fn render(&self) -> (s: &'static str)
        ensures
            s == compound_text(*self),
    {
        match self {
            CompoundAssignOperator::Add => "+=",
            CompoundAssignOperator::Subtract => "-=",
            CompoundAssignOperator::Multiply => "*=",
            CompoundAssignOperator::Divide => "/=",
        }
    }
}

impl BindingMode {
    fn render(&self) -> (s: &'static str)
        ensures
            s == binding_mode_text(*self),
    {
        match self {
            BindingMode::Assign => "=",
            BindingMode::Define => ":=",
        }
    }
}

/// Appends bindings joined with `, `.
fn push_bindings(text: &mut String, bindings: &Vec<Binding>)
    ensures
        final(text)@ == old(text)@ + bindings_text(bindings@),
{
    let ghost texts = bindings@.map_values(|b: Binding| binding_text(b));
    let mut i: usize = 0;
    while i < bindings.len()
        invariant
            i <= bindings@.len(),
            texts == bindings@.map_values(|b: Binding| binding_text(b)),
            text@ == old(text)@ + join_with(texts.take(i as int), ", "@),
        decreases bindings@.len() - i,
    {
        if i > 0 {
            push_str(text, ", ");
        }
        match &bindings[i] {
            Binding::Identifier(name) => push_str(text, name.as_str()),
            Binding::Blank => push_str(text, "_"),
        }
        proof {
            assert(texts.take(i + 1).drop_last() =~= texts.take(i as int));
            assert(texts.take(i + 1).last() == binding_text(bindings@[i as int]));
        }
        i = i + 1;
        assert(text@ =~= old(text)@ + join_with(texts.take(i as int), ", "@));
    }
    assert(texts.take(i as int) =~= texts);
}

/// Appends the text of an expression.
pub fn push_expression(text: &mut String, e: &Expression)
    ensures
        final(text)@ == old(text)@ + expression_text(*e),
    decreases e, 0nat,
{
    match e {
        Expression::Integer(value) => push_int(text, *value),
        Expression::Bool(value) => push_bool(text, *value),
        Expression::String(value) => push_quoted(text, value.as_str()),
        Expression::Nil => push_str(text, "nil"),
        Expression::Identifier(name) => push_str(text, name.as_str()),
        Expression::SliceLiteral { element_type, elements } => {
            element_type.push_text(text);
            push_str(text, "{");
            proof {
                assert(decreases_to!(*e => (*e)->elements));
            }
            push_expressions(text, elements);
            push_str(text, "}");
        },
        Expression::MapLiteral { map_type, entries } => {
            map_type.push_text(text);
            push_str(text, "{");
            proof {
                assert(decreases_to!(*e => (*e)->entries));
            }
            push_entries(text, entries);
            push_str(text, "}");
        },
        Expression::Binary { left, operator, right } => {
            push_str(text, "(");
            push_expression(text, left);
            push_str(text, " ");
            push_str(text, operator.render());
            push_str(text, " ");
            push_expression(text, right);
            push_str(text, ")");
        },
        Expression::Index { target, index } => {
            push_expression(text, target);
            push_str(text, "[");
            push_expression(text, index);
            push_str(text, "]");
        },
        Expression::Slice { target, low, high } => {
            push_expression(text, target);
            push_str(text, "[");
            match low {
                Some(l) => push_expression(text, l),
                None => {},
            }
            push_str(text, ":");
            match high {
                Some(h) => push_expression(text, h),
                None => {},
            }
            push_str(text, "]");
        },
        Expression::Selector { target, member } => {
            push_expression(text, target);
            push_str(text, ".");
            push_str(text, member.as_str());
        },
        Expression::Receive { channel } => {
            push_str(text, "<-");
            push_expression(text, channel);
        },
        Expression::Make { type_ref, arguments } => {
            push_str(text, "make(");
            let ghost start = text@;
            type_ref.push_text(text);
            let ghost head = seq![type_text(*type_ref)];
            assert(head + expression_texts(arguments@.take(0)) =~= head);
            let mut i: usize = 0;
            while i < arguments.len()
                invariant
                    i <= arguments@.len(),
                    *e == (Expression::Make { type_ref: *type_ref, arguments: *arguments }),
                    head == seq![type_text(*type_ref)],
                    text@ == start + join_with(head + expression_texts(arguments@.take(i as int)), ", "@),
                decreases arguments@.len() - i,
            {
                push_str(text, ", ");
                proof {
                    assert(decreases_to!(*e => (*e)->Make_arguments));
                    assert(decreases_to!(*e => arguments@[i as int]));
                }
                push_expression(text, &arguments[i]);
                proof {
                    let taken = arguments@.take(i + 1);
                    assert(taken.drop_last() =~= arguments@.take(i as int));
                    assert(taken.last() == arguments@[i as int]);
                    assert(expression_texts(taken) == expression_texts(arguments@.take(i as int)).push(expression_text(arguments@[i as int])));
                    let parts = head + expression_texts(taken);
                    assert(parts.drop_last() =~= head + expression_texts(arguments@.take(i as int)));
                    assert(parts.last() == expression_text(arguments@[i as int]));
                    assert(parts.len() >= 2);
                }
                i = i + 1;
                assert(text@ =~= start + join_with(head + expression_texts(arguments@.take(i as int)), ", "@));
            }
            assert(arguments@.take(i as int) =~= arguments@);
            push_str(text, ")");
        },
        Expression::Conversion { type_ref, value } => {
            type_ref.push_text(text);
            push_str(text, "(");
            push_expression(text, value);
            push_str(text, ")");
        },
        Expression::TypeAssertion { target, asserted_type } => {
            push_expression(text, target);
            push_str(text, ".(");
            asserted_type.push_text(text);
            push_str(text, ")");
        },
        Expression::Call { callee, arguments } => {
            push_expression(text, callee);
            push_str(text, "(");
            proof {
                assert(decreases_to!(*e => (*e)->Call_arguments));
            }
            push_arguments(text, arguments);
            push_str(text, ")");
        },
    }
    assert(final(text)@ =~= old(text)@ + expression_text(*e));
}

/// Appends expressions joined with `, `.
pub fn push_expressions(text: &mut String, es: &Vec<Expression>)
    ensures
        final(text)@ == old(text)@ + join_with(expression_texts(es@), ", "@),
    decreases es, 1nat,
{
    let mut i: usize = 0;
    while i < es.len()
        invariant
            i <= es@.len(),
            text@ == old(text)@ + join_with(expression_texts(es@.take(i as int)), ", "@),
        decreases es@.len() - i,
    {
        if i > 0 {
            push_str(text, ", ");
        }
        proof {
            assert(decreases_to!(*es => es@));
            assert(decreases_to!(*es => es@[i as int]));
        }
        push_expression(text, &es[i]);
        proof {
            let taken = es@.take(i + 1);
            assert(taken.drop_last() =~= es@.take(i as int));
            assert(taken.last() == es@[i as int]);
            let parts = expression_texts(taken);
            assert(parts.drop_last() =~= expression_texts(es@.take(i as int)));
            assert(parts.last() == expression_text(es@[i as int]));
        }
        i = i + 1;
        assert(text@ =~= old(text)@ + join_with(expression_texts(es@.take(i as int)), ", "@));
    }
    assert(es@.take(i as int) =~= es@);
}

/// Appends the entries of a map literal, each `key: value`.
fn push_entries(text: &mut String, es: &Vec<MapLiteralEntry>)
    ensures
        final(text)@ == old(text)@ + join_with(entry_texts(es@), ", "@),
    decreases es, 1nat,
{
    let mut i: usize = 0;
    while i < es.len()
        invariant
            i <= es@.len(),
            text@ == old(text)@ + join_with(entry_texts(es@.take(i as int)), ", "@),
        decreases es@.len() - i,
    {
        if i > 0 {
            push_str(text, ", ");
        }
        proof {
            assert(decreases_to!(*es => es@));
            assert(decreases_to!(*es => es@[i as int]));
            assert(decreases_to!(*es => es@[i as int].key));
            assert(decreases_to!(*es => es@[i as int].value));
        }
        push_expression(text, &es[i].key);
        push_str(text, ": ");
        push_expression(text, &es[i].value);
        proof {
            let taken = es@.take(i + 1);
            assert(taken.drop_last() =~= es@.take(i as int));
            assert(taken.last() == es@[i as int]);
            let parts = entry_texts(taken);
            assert(parts.drop_last() =~= entry_texts(es@.take(i as int)));
            assert(parts.last() == expression_text(es@[i as int].key) + ": "@ + expression_text(es@[i as int].value));
        }
        i = i + 1;
        assert(text@ =~= old(text)@ + join_with(entry_texts(es@.take(i as int)), ", "@));
    }
    assert(es@.take(i as int) =~= es@);
}

/// Appends call arguments joined with `, `.
fn push_arguments(text: &mut String, args: &Vec<CallArgument>)
    ensures
        final(text)@ == old(text)@ + join_with(argument_texts(args@), ", "@),
    decreases args, 1nat,
{
    let mut i: usize = 0;
    while i < args.len()
        invariant
            i <= args@.len(),
            text@ == old(text)@ + join_with(argument_texts(args@.take(i as int)), ", "@),
        decreases args@.len() - i,
    {
        if i > 0 {
            push_str(text, ", ");
        }
        proof {
            assert(decreases_to!(*args => args@));
            assert(decreases_to!(*args => args@[i as int]));
        }
        match &args[i] {
            CallArgument::Expression(x) => {
                proof {
                    assert(decreases_to!(*args => args@[i as int]->Expression_0));
                }
                push_expression(text, x);
            },
            CallArgument::Spread(x) => {
                proof {
                    assert(decreases_to!(*args => args@[i as int]->Spread_0));
                }
                push_expression(text, x);
                push_str(text, "...");
            },
        }
        proof {
            let taken = args@.take(i + 1);
            assert(taken.drop_last() =~= args@.take(i as int));
            assert(taken.last() == args@[i as int]);
            let parts = argument_texts(taken);
            assert(parts.drop_last() =~= argument_texts(args@.take(i as int)));
        }
        i = i + 1;
        assert(text@ =~= old(text)@ + join_with(argument_texts(args@.take(i as int)), ", "@));
    }
    assert(args@.take(i as int) =~= args@);
}

impl Expression {
    /// The text of this expression, with binary expressions parenthesized.
    pub fn render(&self) -> (text: String)
        ensures
            text@ == expression_text(*self),
    {
        let mut text = String::new();
        push_expression(&mut text, self);
        assert(text@ =~= expression_text(*self));
        text
    }
}

/// Appends the text of an assignment target.
fn push_target(text: &mut String, t: &AssignmentTarget)
    ensures
        final(text)@ == old(text)@ + target_text(*t),
{
    match t {
        AssignmentTarget::Identifier(name) => push_str(text, name.as_str()),
        AssignmentTarget::Index { target, index } => {
            push_expression(text, target);
            push_str(text, "[");
            push_expression(text, index);
            push_str(text, "]");
        },
    }
    assert(final(text)@ =~= old(text)@ + target_text(*t));
}

fn push_var_decl(text: &mut String, name: &String, type_ref: &Option<TypeRef>, value: &Option<Expression>)
    ensures
        final(text)@ == old(text)@ + var_decl_text(*name, *type_ref, *value),
{
    push_str(text, "var ");
    push_str(text, name.as_str());
    match type_ref {
        Some(t) => {
            push_str(text, " ");
            t.push_text(text);
        },
        None => {},
    }
    match value {
        Some(v) => {
            push_str(text, " = ");
            push_expression(text, v);
        },
        None => {},
    }
    assert(final(text)@ =~= old(text)@ + var_decl_text(*name, *type_ref, *value));
}

fn push_lookup(text: &mut String, bindings: &Vec<Binding>, mode: BindingMode, target: &Expression, key: &Expression)
    ensures
        final(text)@ == old(text)@ + lookup_text(bindings@, mode, *target, *key),
{
    push_bindings(text, bindings);
    push_str(text, " ");
    push_str(text, mode.render());
    push_str(text, " ");
    push_expression(text, target);
    push_str(text, "[");
    push_expression(text, key);
    push_str(text, "]");
    assert(final(text)@ =~= old(text)@ + lookup_text(bindings@, mode, *target, *key));
}

fn push_assert(text: &mut String, bindings: &Vec<Binding>, mode: BindingMode, target: &Expression, asserted: &TypeRef)
    ensures
        final(text)@ == old(text)@ + assert_text(bindings@, mode, *target, *asserted),
{
    push_bindings(text, bindings);
    push_str(text, " ");
    push_str(text, mode.render());
    push_str(text, " ");
    push_expression(text, target);
    push_str(text, ".(");
    asserted.push_text(text);
    push_str(text, ")");
    assert(final(text)@ =~= old(text)@ + assert_text(bindings@, mode, *target, *asserted));
}

/// Appends the text of a header statement.
fn push_header(text: &mut String, h: &HeaderStatement)
    ensures
        final(text)@ == old(text)@ + header_text(*h),
{
    match h {
        HeaderStatement::ShortVarDecl { bindings, values } => {
            push_bindings(text, bindings);
            push_str(text, " := ");
            push_expressions(text, values);
        },
        HeaderStatement::MultiAssign { bindings, values } => {
            push_bindings(text, bindings);
            push_str(text, " = ");
            push_expressions(text, values);
        },
        HeaderStatement::VarDecl { name, type_ref, value } => push_var_decl(text, name, type_ref, value),
        HeaderStatement::Assign { target, value } => {
            push_target(text, target);
            push_str(text, " = ");
            push_expression(text, value);
        },
        HeaderStatement::CompoundAssign { target, operator, value } => {
            push_target(text, target);
            push_str(text, " ");
            push_str(text, operator.render());
            push_str(text, " ");
            push_expression(text, value);
        },
        HeaderStatement::Expr(e) => push_expression(text, e),
        HeaderStatement::MapLookup { bindings, binding_mode, target, key } => push_lookup(
            text,
            bindings,
            *binding_mode,
            target,
            key,
        ),
        HeaderStatement::TypeAssert { bindings, binding_mode, target, asserted_type } => push_assert(
            text,
            bindings,
            *binding_mode,
            target,
            asserted_type,
        ),
        HeaderStatement::IncDec { target, operator } => {
            push_target(text, target);
            push_str(text, operator.render());
        },
    }
    assert(final(text)@ =~= old(text)@ + header_text(*h));
}

/// Appends the text of a `for` post statement.
fn push_post(text: &mut String, p: &ForPostStatement)
    ensures
        final(text)@ == old(text)@ + post_text(*p),
{
    match p {
        ForPostStatement::Assign { target, value } => {
            push_target(text, target);
            push_str(text, " = ");
            push_expression(text, value);
        },
        ForPostStatement::MultiAssign { bindings, values } => {
            push_bindings(text, bindings);
            push_str(text, " = ");
            push_expressions(text, values);
        },
        ForPostStatement::CompoundAssign { target, operator, value } => {
            push_target(text, target);
            push_str(text, " ");
            push_str(text, operator.render());
            push_str(text, " ");
            push_expression(text, value);
        },
        ForPostStatement::Expr(e) => push_expression(text, e),
        ForPostStatement::MapLookup { bindings, target, key } => push_lookup(text, bindings, BindingMode::Assign, target, key),
        ForPostStatement::TypeAssert { bindings, target, asserted_type } => push_assert(
            text,
            bindings,
            BindingMode::Assign,
            target,
            asserted_type,
        ),
        ForPostStatement::IncDec { target, operator } => {
            push_target(text, target);
            push_str(text, operator.render());
        },
    }
    assert(final(text)@ =~= old(text)@ + post_text(*p));
}

fn push_switch_header(text: &mut String, header: &Option<HeaderStatement>, expression: &Option<Expression>)
    ensures
        final(text)@ == old(text)@ + switch_header_text(*header, *expression),
{
    match header {
        Some(h) => {
            push_header(text, h);
            push_str(text, "; ");
        },
        None => {},
    }
    match expression {
        Some(e) => {
            push_expression(text, e);
            push_str(text, " ");
        },
        None => {},
    }
    assert(final(text)@ =~= old(text)@ + switch_header_text(*header, *expression));
}

fn push_type_switch_header(text: &mut String, header: &Option<HeaderStatement>, guard: &TypeSwitchGuard)
    ensures
        final(text)@ == old(text)@ + type_switch_header_text(*header, *guard),
{
    match header {
        Some(h) => {
            push_header(text, h);
            push_str(text, "; ");
        },
        None => {},
    }
    match &guard.binding {
        Some(b) => {
            push_str(text, b.as_str());
            push_str(text, " := ");
        },
        None => {},
    }
    push_expression(text, &guard.expression);
    push_str(text, ".(type)");
    push_str(text, " ");
    assert(final(text)@ =~= old(text)@ + type_switch_header_text(*header, *guard));
}

fn push_for_header(text: &mut String, f: &ForStatement)
    ensures
        final(text)@ == old(text)@ + for_header_text(f.init, f.condition, f.post),
{
    if f.init.is_none() && f.post.is_none() {
        match &f.condition {
            Some(c) => {
                push_expression(text, c);
                push_str(text, " ");
            },
            None => {},
        }
    } else {
        match &f.init {
            Some(h) => push_header(text, h),
            None => {},
        }
        push_str(text, "; ");
        match &f.condition {
            Some(c) => push_expression(text, c),
            None => {},
        }
        push_str(text, "; ");
        match &f.post {
            Some(p) => push_post(text, p),
            None => {},
        }
        push_str(text, " ");
    }
    assert(final(text)@ =~= old(text)@ + for_header_text(f.init, f.condition, f.post));
}

fn push_range_header(text: &mut String, bindings: &Vec<Binding>, mode: &Option<BindingMode>, target: &Expression)
    requires
        bindings@.len() == 0 || mode is Some,
    ensures
        final(text)@ == old(text)@ + range_header_text(bindings@, *mode, *target),
{
    if bindings.len() > 0 {
        push_bindings(text, bindings);
        push_str(text, " ");
        match mode {
            Some(m) => push_str(text, m.render()),
            None => {},
        }
        push_str(text, " range ");
    } else {
        push_str(text, "range ");
    }
    push_expression(text, target);
    assert(final(text)@ =~= old(text)@ + range_header_text(bindings@, *mode, *target));
}

/// One level deeper than `pad`.
fn deeper(pad: &String, Ghost(indent): Ghost<nat>) -> (inner: String)
    requires
        pad@ == indent_text(indent),
    ensures
        inner@ == indent_text(indent + 1),
{
    let mut inner = pad.clone();
    push_str(&mut inner, "    ");
    inner
}

proof fn lemma_block_renders(ss: Seq<Statement>, k: int)
    requires
        block_renders(ss),
        0 <= k < ss.len(),
    ensures
        statement_renders(ss[k]),
    decreases ss.len(),
{
    if k < ss.len() - 1 {
        assert(ss.drop_last()[k] == ss[k]);
        lemma_block_renders(ss.drop_last(), k);
    }
}

proof fn lemma_clauses_render(cs: Seq<SwitchClause>, k: int)
    requires
        clauses_render(cs),
        0 <= k < cs.len(),
    ensures
        match cs[k] {
            SwitchClause::Case { body, .. } => block_renders(body.statements@),
            SwitchClause::Default(body) => block_renders(body.statements@),
        },
    decreases cs.len(),
{
    if k < cs.len() - 1 {
        assert(cs.drop_last()[k] == cs[k]);
        lemma_clauses_render(cs.drop_last(), k);
    }
}

proof fn lemma_type_clauses_render(cs: Seq<TypeSwitchClause>, k: int)
    requires
        type_clauses_render(cs),
        0 <= k < cs.len(),
    ensures
        match cs[k] {
            TypeSwitchClause::Case { body, .. } => block_renders(body.statements@),
            TypeSwitchClause::Default(body) => block_renders(body.statements@),
        },
    decreases cs.len(),
{
    if k < cs.len() - 1 {
        assert(cs.drop_last()[k] == cs[k]);
        lemma_type_clauses_render(cs.drop_last(), k);
    }
}

/// Appends the statements of a block, each on a new line at `pad`.
fn push_block(text: &mut String, ss: &Vec<Statement>, pad: &String, Ghost(indent): Ghost<nat>)
    requires
        pad@ == indent_text(indent),
        block_renders(ss@),
    ensures
        final(text)@ == old(text)@ + block_text(ss@, indent),
    decreases ss, 1nat,
{
    let mut k: usize = 0;
    while k < ss.len()
        invariant
            k <= ss@.len(),
            pad@ == indent_text(indent),
            block_renders(ss@),
            text@ == old(text)@ + block_text(ss@.take(k as int), indent),
        decreases ss@.len() - k,
    {
        push_str(text, "\n");
        proof {
            lemma_block_renders(ss@, k as int);
            assert(decreases_to!(*ss => ss@));
            assert(decreases_to!(*ss => ss@[k as int]));
        }
        push_statement(text, &ss[k], pad, Ghost(indent));
        proof {
            let taken = ss@.take(k + 1);
            assert(taken.drop_last() =~= ss@.take(k as int));
            assert(taken.last() == ss@[k as int]);
        }
        k = k + 1;
        assert(text@ =~= old(text)@ + block_text(ss@.take(k as int), indent));
    }
    assert(ss@.take(k as int) =~= ss@);
}

/// Appends the clauses of an expression switch at `pad`.
fn push_clauses(text: &mut String, cs: &Vec<SwitchClause>, pad: &String, Ghost(indent): Ghost<nat>)
    requires
        pad@ == indent_text(indent),
        clauses_render(cs@),
    ensures
        final(text)@ == old(text)@ + clauses_text(cs@, indent),
    decreases cs, 1nat,
{
    let inner = deeper(pad, Ghost(indent));
    let mut k: usize = 0;
    while k < cs.len()
        invariant
            k <= cs@.len(),
            pad@ == indent_text(indent),
            inner@ == indent_text(indent + 1),
            clauses_render(cs@),
            text@ == old(text)@ + clauses_text(cs@.take(k as int), indent),
        decreases cs@.len() - k,
    {
        push_str(text, "\n");
        push_str(text, pad.as_str());
        proof {
            lemma_clauses_render(cs@, k as int);
            assert(decreases_to!(*cs => cs@));
            assert(decreases_to!(*cs => cs@[k as int]));
        }
        match &cs[k] {
            SwitchClause::Case { expressions, body } => {
                push_str(text, "case ");
                push_expressions(text, expressions);
                push_str(text, ":");
                proof {
                    assert(decreases_to!(*cs => cs@[k as int]->Case_body));
                    assert(decreases_to!(*cs => body.statements));
                }
                push_block(text, &body.statements, &inner, Ghost(indent + 1));
            },
            SwitchClause::Default(body) => {
                push_str(text, "default:");
                proof {
                    assert(decreases_to!(*cs => cs@[k as int]->Default_0));
                    assert(decreases_to!(*cs => body.statements));
                }
                push_block(text, &body.statements, &inner, Ghost(indent + 1));
            },
        }
        proof {
            let taken = cs@.take(k + 1);
            assert(taken.drop_last() =~= cs@.take(k as int));
            assert(taken.last() == cs@[k as int]);
        }
        k = k + 1;
        assert(text@ =~= old(text)@ + clauses_text(cs@.take(k as int), indent));
    }
    assert(cs@.take(k as int) =~= cs@);
}

/// Appends types joined with `, ` for a type switch case.
fn push_cases(text: &mut String, cases: &Vec<TypeSwitchCase>)
    ensures
        final(text)@ == old(text)@ + join_with(cases@.map_values(|c: TypeSwitchCase| case_text(c)), ", "@),
{
    let ghost texts = cases@.map_values(|c: TypeSwitchCase| case_text(c));
    let mut i: usize = 0;
    while i < cases.len()
        invariant
            i <= cases@.len(),
            texts == cases@.map_values(|c: TypeSwitchCase| case_text(c)),
            text@ == old(text)@ + join_with(texts.take(i as int), ", "@),
        decreases cases@.len() - i,
    {
        if i > 0 {
            push_str(text, ", ");
        }
        match &cases[i] {
            TypeSwitchCase::Type(t) => t.push_text(text),
            TypeSwitchCase::Nil => push_str(text, "nil"),
        }
        proof {
            assert(texts.take(i + 1).drop_last() =~= texts.take(i as int));
            assert(texts.take(i + 1).last() == case_text(cases@[i as int]));
        }
        i = i + 1;
        assert(text@ =~= old(text)@ + join_with(texts.take(i as int), ", "@));
    }
    assert(texts.take(i as int) =~= texts);
}

/// Appends the clauses of a type switch at `pad`.
fn push_type_clauses(text: &mut String, cs: &Vec<TypeSwitchClause>, pad: &String, Ghost(indent): Ghost<nat>)
    requires
        pad@ == indent_text(indent),
        type_clauses_render(cs@),
    ensures
        final(text)@ == old(text)@ + type_clauses_text(cs@, indent),
    decreases cs, 1nat,
{
    let inner = deeper(pad, Ghost(indent));
    let mut k: usize = 0;
    while k < cs.len()
        invariant
            k <= cs@.len(),
            pad@ == indent_text(indent),
            inner@ == indent_text(indent + 1),
            type_clauses_render(cs@),
            text@ == old(text)@ + type_clauses_text(cs@.take(k as int), indent),
        decreases cs@.len() - k,
    {
        push_str(text, "\n");
        push_str(text, pad.as_str());
        proof {
            lemma_type_clauses_render(cs@, k as int);
            assert(decreases_to!(*cs => cs@));
            assert(decreases_to!(*cs => cs@[k as int]));
        }
        match &cs[k] {
            TypeSwitchClause::Case { cases, body } => {
                push_str(text, "case ");
                push_cases(text, cases);
                push_str(text, ":");
                proof {
                    assert(decreases_to!(*cs => cs@[k as int]->Case_body));
                    assert(decreases_to!(*cs => body.statements));
                }
                push_block(text, &body.statements, &inner, Ghost(indent + 1));
            },
            TypeSwitchClause::Default(body) => {
                push_str(text, "default:");
                proof {
                    assert(decreases_to!(*cs => cs@[k as int]->Default_0));
                    assert(decreases_to!(*cs => body.statements));
                }
                push_block(text, &body.statements, &inner, Ghost(indent + 1));
            },
        }
        proof {
            let taken = cs@.take(k + 1);
            assert(taken.drop_last() =~= cs@.take(k as int));
            assert(taken.last() == cs@[k as int]);
        }
        k = k + 1;
        assert(text@ =~= old(text)@ + type_clauses_text(cs@.take(k as int), indent));
    }
    assert(cs@.take(k as int) =~= cs@);
}

/// Appends an `if` statement from the keyword on.
#[verifier::spinoff_prover]
#[verifier::rlimit(100)]
fn push_if(text: &mut String, i: &IfStatement, pad: &String, Ghost(indent): Ghost<nat>)
    requires
        pad@ == indent_text(indent),
        if_renders(*i),
    ensures
        final(text)@ == old(text)@ + if_text(*i, indent),
    decreases i, 0nat,
{
    let inner = deeper(pad, Ghost(indent));
    push_str(text, "if ");
    match &i.header {
        Some(h) => {
            push_header(text, h);
            push_str(text, "; ");
        },
        None => {},
    }
    push_expression(text, &i.condition);
    let ghost condition_part = if_condition_text(*i);
    assert(text@ =~= old(text)@ + "if "@ + condition_part);
    push_str(text, " {");
    push_block(text, &i.then_block.statements, &inner, Ghost(indent + 1));
    push_str(text, "\n");
    push_str(text, pad.as_str());
    push_str(text, "}");
    let ghost head = text@;
    assert(head =~= old(text)@ + "if "@ + condition_part + " {"@ + block_text(i.then_block.statements@, indent + 1) + "\n"@
        + pad@ + "}"@);
    match &i.else_branch {
        Some(ElseBranch::Block(b)) => {
            push_str(text, "\n");
            push_str(text, pad.as_str());
            push_str(text, "else {");
            push_block(text, &b.statements, &inner, Ghost(indent + 1));
            push_str(text, "\n");
            push_str(text, pad.as_str());
            push_str(text, "}");
            assert(text@ =~= head + ("\n"@ + pad@ + "else {"@ + block_text(b.statements@, indent + 1) + "\n"@ + pad@ + "}"@));
        },
        Some(ElseBranch::If(e)) => {
            push_str(text, "\n");
            push_str(text, pad.as_str());
            push_str(text, "else ");
            push_if(text, e, pad, Ghost(indent));
            assert(text@ =~= head + ("\n"@ + pad@ + "else "@ + if_text(**e, indent)));
        },
        None => {
            assert(text@ =~= head + Seq::<char>::empty());
        },
    }
    assert(final(text)@ =~= old(text)@ + if_text(*i, indent));
}

/// Appends a statement at `pad`.
#[verifier::spinoff_prover]
#[verifier::rlimit(100)]
fn push_statement(text: &mut String, s: &Statement, pad: &String, Ghost(indent): Ghost<nat>)
    requires
        pad@ == indent_text(indent),
        statement_renders(*s),
    ensures
        final(text)@ == old(text)@ + statement_text(*s, indent),
    decreases s, 0nat,
{
    push_str(text, pad.as_str());
    match s {
        Statement::ShortVarDecl { bindings, values } => {
            push_bindings(text, bindings);
            push_str(text, " := ");
            push_expressions(text, values);
        },
        Statement::MultiAssign { bindings, values } => {
            push_bindings(text, bindings);
            push_str(text, " = ");
            push_expressions(text, values);
        },
        Statement::VarDecl { name, type_ref, value } => push_var_decl(text, name, type_ref, value),
        Statement::Assign { target, value } => {
            push_target(text, target);
            push_str(text, " = ");
            push_expression(text, value);
        },
        Statement::Send { channel, value } => {
            push_expression(text, channel);
            push_str(text, " <- ");
            push_expression(text, value);
        },
        Statement::CompoundAssign { target, operator, value } => {
            push_target(text, target);
            push_str(text, " ");
            push_str(text, operator.render());
            push_str(text, " ");
            push_expression(text, value);
        },
        Statement::Expr(e) => push_expression(text, e),
        Statement::If(i) => push_if(text, i, pad, Ghost(indent)),
        Statement::Switch(sw) => {
            push_str(text, "switch ");
            push_switch_header(text, &sw.header, &sw.expression);
            push_str(text, "{");
            let inner = deeper(pad, Ghost(indent));
            push_clauses(text, &sw.clauses, &inner, Ghost(indent + 1));
            push_str(text, "\n");
            push_str(text, pad.as_str());
            push_str(text, "}");
        },
        Statement::TypeSwitch(ts) => {
            push_str(text, "switch ");
            push_type_switch_header(text, &ts.header, &ts.guard);
            push_str(text, "{");
            let inner = deeper(pad, Ghost(indent));
            push_type_clauses(text, &ts.clauses, &inner, Ghost(indent + 1));
            push_str(text, "\n");
            push_str(text, pad.as_str());
            push_str(text, "}");
        },
        Statement::For(f) => {
            push_str(text, "for ");
            push_for_header(text, f);
            push_str(text, "{");
            let inner = deeper(pad, Ghost(indent));
            push_block(text, &f.body.statements, &inner, Ghost(indent + 1));
            push_str(text, "\n");
            push_str(text, pad.as_str());
            push_str(text, "}");
        },
        Statement::RangeFor { bindings, binding_mode, target, body } => {
            push_str(text, "for ");
            push_range_header(text, bindings, binding_mode, target);
            push_str(text, " {");
            let inner = deeper(pad, Ghost(indent));
            push_block(text, &body.statements, &inner, Ghost(indent + 1));
            push_str(text, "\n");
            push_str(text, pad.as_str());
            push_str(text, "}");
        },
        Statement::MapLookup { bindings, binding_mode, target, key } => push_lookup(
            text,
            bindings,
            *binding_mode,
            target,
            key,
        ),
        Statement::TypeAssert { bindings, binding_mode, target, asserted_type } => push_assert(
            text,
            bindings,
            *binding_mode,
            target,
            asserted_type,
        ),
        Statement::IncDec { target, operator } => {
            push_target(text, target);
            push_str(text, operator.render());
        },
        Statement::Defer(e) => {
            push_str(text, "defer ");
            push_expression(text, e);
        },
        Statement::Break => push_str(text, "break"),
        Statement::Continue => push_str(text, "continue"),
        Statement::Return(values) => {
            if values.len() == 0 {
                push_str(text, "return");
            } else {
                push_str(text, "return ");
                push_expressions(text, values);
            }
        },
    }
    assert(final(text)@ =~= old(text)@ + statement_text(*s, indent));
}

fn push_import_spec(text: &mut String, s: &ImportSpec)
    ensures
        final(text)@ == old(text)@ + import_spec_text(*s),
{
    match &s.binding {
        Some(b) => {
            push_str(text, b.as_str());
            push_str(text, " ");
        },
        None => {},
    }
    push_quoted(text, s.path.as_str());
    assert(final(text)@ =~= old(text)@ + import_spec_text(*s));
}

fn push_import(text: &mut String, d: &ImportDecl)
    ensures
        final(text)@ == old(text)@ + import_text(*d),
{
    match d {
        ImportDecl::Single(s) => {
            push_str(text, "import ");
            push_import_spec(text, s);
        },
        ImportDecl::Group(specs) => {
            push_str(text, "import (");
            let ghost start = text@;
            let mut k: usize = 0;
            while k < specs.len()
                invariant
                    k <= specs@.len(),
                    text@ == start + import_specs_text(specs@.take(k as int)),
                decreases specs@.len() - k,
            {
                push_str(text, "\n    ");
                push_import_spec(text, &specs[k]);
                proof {
                    let taken = specs@.take(k + 1);
                    assert(taken.drop_last() =~= specs@.take(k as int));
                    assert(taken.last() == specs@[k as int]);
                }
                k = k + 1;
                assert(text@ =~= start + import_specs_text(specs@.take(k as int)));
            }
            assert(specs@.take(k as int) =~= specs@);
            push_str(text, "\n)");
        },
    }
    assert(final(text)@ =~= old(text)@ + import_text(*d));
}

fn push_function(text: &mut String, f: &FunctionDecl)
    requires
        block_renders(f.body.statements@),
    ensures
        final(text)@ == old(text)@ + function_text(*f),
{
    push_str(text, "func ");
    push_str(text, f.name.as_str());
    push_str(text, "(");
    let ghost start = text@;
    let mut k: usize = 0;
    while k < f.parameters.len()
        invariant
            k <= f.parameters@.len(),
            text@ == start + join_with(parameter_texts(f.parameters@.take(k as int)), ", "@),
        decreases f.parameters@.len() - k,
    {
        if k > 0 {
            push_str(text, ", ");
        }
        f.parameters[k].push_text(text);
        proof {
            let parts = parameter_texts(f.parameters@.take(k + 1));
            assert(parts.drop_last() =~= parameter_texts(f.parameters@.take(k as int)));
        }
        k = k + 1;
        assert(text@ =~= start + join_with(parameter_texts(f.parameters@.take(k as int)), ", "@));
    }
    assert(f.parameters@.take(k as int) =~= f.parameters@);
    push_str(text, ")");
    push_results(text, &f.results);
    push_str(text, " {");
    let mut pad = String::new();
    push_str(&mut pad, "    ");
    assert(indent_text(0) =~= Seq::<char>::empty());
    assert(indent_text(1) == indent_text(0) + "    "@);
    assert(pad@ =~= indent_text(1));
    push_block(text, &f.body.statements, &pad, Ghost(1));
    push_str(text, "\n}");
    assert(final(text)@ =~= old(text)@ + function_text(*f));
}

impl SourceFileAst {
    /// The text of the file: the package clause, then each import and each
    /// function on lines of their own, four spaces per level of nesting.
    pub fn render(&self) -> (text: String)
        requires
            source_renders(*self),
        ensures
            text@ == source_text(*self),
    {
        let mut text = String::new();
        push_str(&mut text, "package ");
        push_str(&mut text, self.package_name.as_str());
        let ghost start = text@;
        let mut k: usize = 0;
        while k < self.imports.len()
            invariant
                k <= self.imports@.len(),
                text@ == start + imports_text(self.imports@.take(k as int)),
            decreases self.imports@.len() - k,
        {
            push_str(&mut text, "\n");
            push_import(&mut text, &self.imports[k]);
            proof {
                let taken = self.imports@.take(k + 1);
                assert(taken.drop_last() =~= self.imports@.take(k as int));
                assert(taken.last() == self.imports@[k as int]);
            }
            k = k + 1;
            assert(text@ =~= start + imports_text(self.imports@.take(k as int)));
        }
        assert(self.imports@.take(k as int) =~= self.imports@);
        let ghost middle = text@;
        let mut k: usize = 0;
        while k < self.functions.len()
            invariant
                k <= self.functions@.len(),
                source_renders(*self),
                text@ == middle + functions_text(self.functions@.take(k as int)),
            decreases self.functions@.len() - k,
        {
            push_str(&mut text, "\n");
            assert(block_renders(self.functions@[k as int].body.statements@));
            push_function(&mut text, &self.functions[k]);
            proof {
                let taken = self.functions@.take(k + 1);
                assert(taken.drop_last() =~= self.functions@.take(k as int));
                assert(taken.last() == self.functions@[k as int]);
            }
            k = k + 1;
            assert(text@ =~= middle + functions_text(self.functions@.take(k as int)));
        }
        assert(self.functions@.take(k as int) =~= self.functions@);
        push_str(&mut text, "\n");
        assert(text@ =~= source_text(*self));
        text
    }
}

} // verus!
