//! The syntax tree of a source file, and the text it renders to.

use vstd::prelude::*;

pub use crate::frontend::signature::{ParameterDecl, ResultDecl, TypeRef};
use crate::frontend::signature::{type_text, parameter_texts, results_text};
use crate::text::{join_with, int_text, bool_text, quoted_text};

pub mod render;

verus! {

/// A parsed source file.
#[derive(Debug, PartialEq, Eq)]
pub struct SourceFileAst {
    pub package_name: String,
    pub imports: Vec<ImportDecl>,
    pub functions: Vec<FunctionDecl>,
}

/// An `import` declaration: one path, or a parenthesized group.
#[derive(Clone, Debug, PartialEq, Eq)]
pub enum ImportDecl {
    Single(ImportSpec),
    Group(Vec<ImportSpec>),
}

/// One imported path, with the name it is bound to where one is given.
#[derive(Clone, Debug, PartialEq, Eq)]
pub struct ImportSpec {
    pub binding: Option<String>,
    pub path: String,
}

/// A function declaration.
#[derive(Debug, PartialEq, Eq)]
pub struct FunctionDecl {
    pub name: String,
    pub parameters: Vec<ParameterDecl>,
    pub results: Vec<ResultDecl>,
    pub body: Block,
}

/// A braced list of statements.
#[derive(Debug, PartialEq, Eq)]
pub struct Block {
    pub statements: Vec<Statement>,
}

/// A statement.
#[derive(Debug, PartialEq, Eq)]
pub enum Statement {
    ShortVarDecl { bindings: Vec<Binding>, values: Vec<Expression> },
    MultiAssign { bindings: Vec<Binding>, values: Vec<Expression> },
    VarDecl { name: String, type_ref: Option<TypeRef>, value: Option<Expression> },
    Assign { target: AssignmentTarget, value: Expression },
    Send { channel: Expression, value: Expression },
    CompoundAssign { target: AssignmentTarget, operator: CompoundAssignOperator, value: Expression },
    Expr(Expression),
    If(IfStatement),
    Switch(SwitchStatement),
    TypeSwitch(TypeSwitchStatement),
    For(ForStatement),
    RangeFor { bindings: Vec<Binding>, binding_mode: Option<BindingMode>, target: Expression, body: Block },
    MapLookup { bindings: Vec<Binding>, binding_mode: BindingMode, target: Expression, key: Expression },
    TypeAssert { bindings: Vec<Binding>, binding_mode: BindingMode, target: Expression, asserted_type: TypeRef },
    IncDec { target: AssignmentTarget, operator: IncDecOperator },
    Defer(Expression),
    Break,
    Continue,
    Return(Vec<Expression>),
}

/// An `if` statement, with its optional initializer.
#[derive(Debug, PartialEq, Eq)]
pub struct IfStatement {
    pub header: Option<HeaderStatement>,
    pub condition: Expression,
    pub then_block: Block,
    pub else_branch: Option<ElseBranch>,
}

/// The simple statement that may precede the condition of `if`, the tag of
/// `switch`, or stand as the initializer of a `for` clause.
#[derive(Debug, PartialEq, Eq)]
pub enum HeaderStatement {
    ShortVarDecl { bindings: Vec<Binding>, values: Vec<Expression> },
    MultiAssign { bindings: Vec<Binding>, values: Vec<Expression> },
    VarDecl { name: String, type_ref: Option<TypeRef>, value: Option<Expression> },
    Assign { target: AssignmentTarget, value: Expression },
    CompoundAssign { target: AssignmentTarget, operator: CompoundAssignOperator, value: Expression },
    Expr(Expression),
    MapLookup { bindings: Vec<Binding>, binding_mode: BindingMode, target: Expression, key: Expression },
    TypeAssert { bindings: Vec<Binding>, binding_mode: BindingMode, target: Expression, asserted_type: TypeRef },
    IncDec { target: AssignmentTarget, operator: IncDecOperator },
}

/// What follows `else`.
#[derive(Debug, PartialEq, Eq)]
pub enum ElseBranch {
    Block(Block),
    If(Box<IfStatement>),
}

/// An expression `switch`.
#[derive(Debug, PartialEq, Eq)]
pub struct SwitchStatement {
    pub header: Option<HeaderStatement>,
    pub expression: Option<Expression>,
    pub clauses: Vec<SwitchClause>,
}

/// A `case` or `default` clause of an expression switch.
#[derive(Debug, PartialEq, Eq)]
pub enum SwitchClause {
    Case { expressions: Vec<Expression>, body: Block },
    Default(Block),
}

/// A type switch: `switch x := v.(type) { ... }`.
#[derive(Debug, PartialEq, Eq)]
pub struct TypeSwitchStatement {
    pub header: Option<HeaderStatement>,
    pub guard: TypeSwitchGuard,
    pub clauses: Vec<TypeSwitchClause>,
}

/// The `v.(type)` guard of a type switch and the name it binds, if any.
#[derive(Debug, PartialEq, Eq)]
pub struct TypeSwitchGuard {
    pub binding: Option<String>,
    pub expression: Expression,
}

/// A clause of a type switch.
#[derive(Debug, PartialEq, Eq)]
pub enum TypeSwitchClause {
    Case { cases: Vec<TypeSwitchCase>, body: Block },
    Default(Block),
}

/// One type listed after `case` in a type switch, or `nil`.
#[derive(Debug, PartialEq, Eq)]
pub enum TypeSwitchCase {
    Type(TypeRef),
    Nil,
}

/// A `for` statement: bare, with a condition, or with a three-part clause.
#[derive(Debug, PartialEq, Eq)]
pub struct ForStatement {
    pub init: Option<HeaderStatement>,
    pub condition: Option<Expression>,
    pub post: Option<ForPostStatement>,
    pub body: Block,
}

/// The post statement of a `for` clause.
#[derive(Debug, PartialEq, Eq)]
pub enum ForPostStatement {
    Assign { target: AssignmentTarget, value: Expression },
    MultiAssign { bindings: Vec<Binding>, values: Vec<Expression> },
    CompoundAssign { target: AssignmentTarget, operator: CompoundAssignOperator, value: Expression },
    Expr(Expression),
    MapLookup { bindings: Vec<Binding>, target: Expression, key: Expression },
    TypeAssert { bindings: Vec<Binding>, target: Expression, asserted_type: TypeRef },
    IncDec { target: AssignmentTarget, operator: IncDecOperator },
}

#[derive(Clone, Copy, Debug, PartialEq, Eq, Structural)]
pub enum IncDecOperator {
    Increment,
    Decrement,
}

#[derive(Clone, Copy, Debug, PartialEq, Eq, Structural)]
pub enum CompoundAssignOperator {
    Add,
    Subtract,
    Multiply,
    Divide,
}

/// Whether bindings are declared (`:=`) or assigned (`=`).
#[derive(Clone, Copy, Debug, PartialEq, Eq, Structural)]
pub enum BindingMode {
    Assign,
    Define,
}

/// A name on the left of `:=` or `=`, or the blank `_`.
#[derive(Clone, Debug, PartialEq, Eq)]
pub enum Binding {
    Identifier(String),
    Blank,
}

/// What an assignment writes: a variable or an indexed element.
#[derive(Debug, PartialEq, Eq)]
pub enum AssignmentTarget {
    Identifier(String),
    Index { target: Expression, index: Expression },
}

/// An expression.
#[derive(Debug, PartialEq, Eq)]
pub enum Expression {
    Integer(i64),
    Bool(bool),
    String(String),
    Nil,
    Identifier(String),
    SliceLiteral { element_type: TypeRef, elements: Vec<Expression> },
    MapLiteral { map_type: TypeRef, entries: Vec<MapLiteralEntry> },
    Binary { left: Box<Expression>, operator: BinaryOperator, right: Box<Expression> },
    Index { target: Box<Expression>, index: Box<Expression> },
    Slice { target: Box<Expression>, low: Option<Box<Expression>>, high: Option<Box<Expression>> },
    Selector { target: Box<Expression>, member: String },
    Receive { channel: Box<Expression> },
    Make { type_ref: TypeRef, arguments: Vec<Expression> },
    Conversion { type_ref: TypeRef, value: Box<Expression> },
    TypeAssertion { target: Box<Expression>, asserted_type: TypeRef },
    Call { callee: Box<Expression>, arguments: Vec<CallArgument> },
}

/// A call argument: an expression, or a final `xs...` spread.
#[derive(Debug, PartialEq, Eq)]
pub enum CallArgument {
    Expression(Expression),
    Spread(Expression),
}

/// A `key: value` entry of a map literal.
#[derive(Debug, PartialEq, Eq)]
pub struct MapLiteralEntry {
    pub key: Expression,
    pub value: Expression,
}

#[derive(Clone, Copy, Debug, PartialEq, Eq, Structural)]
pub enum BinaryOperator {
    Add,
    Subtract,
    Multiply,
    Divide,
    Equal,
    NotEqual,
    Less,
    LessEqual,
    Greater,
    GreaterEqual,
}

pub open spec fn binary_operator_text(op: BinaryOperator) -> &'static str {
    match op {
        BinaryOperator::Add => "+",
        BinaryOperator::Subtract => "-",
        BinaryOperator::Multiply => "*",
        BinaryOperator::Divide => "/",
        BinaryOperator::Equal => "==",
        BinaryOperator::NotEqual => "!=",
        BinaryOperator::Less => "<",
        BinaryOperator::LessEqual => "<=",
        BinaryOperator::Greater => ">",
        BinaryOperator::GreaterEqual => ">=",
    }
}

pub open spec fn inc_dec_text(op: IncDecOperator) -> &'static str {
    match op {
        IncDecOperator::Increment => "++",
        IncDecOperator::Decrement => "--",
    }
}

pub open spec fn compound_text(op: CompoundAssignOperator) -> &'static str {
    match op {
        CompoundAssignOperator::Add => "+=",
        CompoundAssignOperator::Subtract => "-=",
        CompoundAssignOperator::Multiply => "*=",
        CompoundAssignOperator::Divide => "/=",
    }
}

pub open spec fn binding_mode_text(mode: BindingMode) -> &'static str {
    match mode {
        BindingMode::Assign => "=",
        BindingMode::Define => ":=",
    }
}

pub open spec fn binding_text(b: Binding) -> Seq<char> {
    match b {
        Binding::Identifier(name) => name@,
        Binding::Blank => "_"@,
    }
}

/// Bindings joined with `, `.
pub open spec fn bindings_text(bs: Seq<Binding>) -> Seq<char> {
    join_with(bs.map_values(|b: Binding| binding_text(b)), ", "@)
}

/// The text of an expression. Binary expressions are parenthesized.
pub open spec fn expression_text(e: Expression) -> Seq<char>
    decreases e, 0nat,
{
    match e {
        Expression::Integer(value) => int_text(value as int),
        Expression::Bool(value) => bool_text(value),
        Expression::String(value) => quoted_text(value@),
        Expression::Nil => "nil"@,
        Expression::Identifier(name) => name@,
        Expression::SliceLiteral { element_type, elements } => type_text(element_type) + "{"@
            + join_with(expression_texts(elements@), ", "@) + "}"@,
        Expression::MapLiteral { map_type, entries } => type_text(map_type) + "{"@ + join_with(entry_texts(entries@), ", "@)
            + "}"@,
        Expression::Binary { left, operator, right } => "("@ + expression_text(*left) + " "@
            + binary_operator_text(operator)@ + " "@ + expression_text(*right) + ")"@,
        Expression::Index { target, index } => expression_text(*target) + "["@ + expression_text(*index) + "]"@,
        Expression::Slice { target, low, high } => expression_text(*target) + "["@ + (match low {
            Some(l) => expression_text(*l),
            None => Seq::empty(),
        }) + ":"@ + (match high {
            Some(h) => expression_text(*h),
            None => Seq::empty(),
        }) + "]"@,
        Expression::Selector { target, member } => expression_text(*target) + "."@ + member@,
        Expression::Receive { channel } => "<-"@ + expression_text(*channel),
        Expression::Make { type_ref, arguments } => "make("@ + join_with(
            seq![type_text(type_ref)] + expression_texts(arguments@),
            ", "@,
        ) + ")"@,
        Expression::Conversion { type_ref, value } => type_text(type_ref) + "("@ + expression_text(*value) + ")"@,
        Expression::TypeAssertion { target, asserted_type } => expression_text(*target) + ".("@ + type_text(asserted_type)
            + ")"@,
        Expression::Call { callee, arguments } => expression_text(*callee) + "("@ + join_with(argument_texts(arguments@), ", "@)
            + ")"@,
    }
}

/// The texts of a list of expressions.
pub open spec fn expression_texts(es: Seq<Expression>) -> Seq<Seq<char>>
    decreases es, 1nat,
{
    if es.len() == 0 {
        Seq::empty()
    } else {
        expression_texts(es.drop_last()).push(expression_text(es.last()))
    }
}

/// The texts of the entries of a map literal, each `key: value`.
pub open spec fn entry_texts(es: Seq<MapLiteralEntry>) -> Seq<Seq<char>>
    decreases es, 1nat,
{
    if es.len() == 0 {
        Seq::empty()
    } else {
        entry_texts(es.drop_last()).push(expression_text(es.last().key) + ": "@ + expression_text(es.last().value))
    }
}

/// The texts of call arguments; a spread argument ends with `...`.
pub open spec fn argument_texts(args: Seq<CallArgument>) -> Seq<Seq<char>>
    decreases args, 1nat,
{
    if args.len() == 0 {
        Seq::empty()
    } else {
        argument_texts(args.drop_last()).push(
            match args.last() {
                CallArgument::Expression(e) => expression_text(e),
                CallArgument::Spread(e) => expression_text(e) + "..."@,
            },
        )
    }
}

/// Expressions joined with `, `.
pub open spec fn expressions_text(es: Seq<Expression>) -> Seq<char> {
    join_with(expression_texts(es), ", "@)
}

pub open spec fn target_text(t: AssignmentTarget) -> Seq<char> {
    match t {
        AssignmentTarget::Identifier(name) => name@,
        AssignmentTarget::Index { target, index } => expression_text(target) + "["@ + expression_text(index) + "]"@,
    }
}

/// `var name`, then ` T` and ` = v` where present.
pub open spec fn var_decl_text(name: String, type_ref: Option<TypeRef>, value: Option<Expression>) -> Seq<char> {
    "var "@ + name@ + (match type_ref {
        Some(t) => " "@ + type_text(t),
        None => Seq::empty(),
    }) + (match value {
        Some(v) => " = "@ + expression_text(v),
        None => Seq::empty(),
    })
}

/// `a, b := m[k]` and its `=` form.
pub open spec fn lookup_text(bindings: Seq<Binding>, mode: BindingMode, target: Expression, key: Expression) -> Seq<char> {
    bindings_text(bindings) + " "@ + binding_mode_text(mode)@ + " "@ + expression_text(target) + "["@ + expression_text(key) + "]"@
}

/// `v, ok := x.(T)` and its `=` form.
pub open spec fn assert_text(bindings: Seq<Binding>, mode: BindingMode, target: Expression, asserted: TypeRef) -> Seq<char> {
    bindings_text(bindings) + " "@ + binding_mode_text(mode)@ + " "@ + expression_text(target) + ".("@ + type_text(asserted) + ")"@
}

/// The text of a header statement.
pub open spec fn header_text(h: HeaderStatement) -> Seq<char> {
    match h {
        HeaderStatement::ShortVarDecl { bindings, values } => bindings_text(bindings@) + " := "@ + expressions_text(values@),
        HeaderStatement::MultiAssign { bindings, values } => bindings_text(bindings@) + " = "@ + expressions_text(values@),
        HeaderStatement::VarDecl { name, type_ref, value } => var_decl_text(name, type_ref, value),
        HeaderStatement::Assign { target, value } => target_text(target) + " = "@ + expression_text(value),
        HeaderStatement::CompoundAssign { target, operator, value } => target_text(target) + " "@ + compound_text(operator)@
            + " "@ + expression_text(value),
        HeaderStatement::Expr(e) => expression_text(e),
        HeaderStatement::MapLookup { bindings, binding_mode, target, key } => lookup_text(bindings@, binding_mode, target, key),
        HeaderStatement::TypeAssert { bindings, binding_mode, target, asserted_type } => assert_text(
            bindings@,
            binding_mode,
            target,
            asserted_type,
        ),
        HeaderStatement::IncDec { target, operator } => target_text(target) + inc_dec_text(operator)@,
    }
}

/// The text of a `for` post statement; its lookups and assertions assign.
pub open spec fn post_text(p: ForPostStatement) -> Seq<char> {
    match p {
        ForPostStatement::Assign { target, value } => target_text(target) + " = "@ + expression_text(value),
        ForPostStatement::MultiAssign { bindings, values } => bindings_text(bindings@) + " = "@ + expressions_text(values@),
        ForPostStatement::CompoundAssign { target, operator, value } => target_text(target) + " "@ + compound_text(operator)@
            + " "@ + expression_text(value),
        ForPostStatement::Expr(e) => expression_text(e),
        ForPostStatement::MapLookup { bindings, target, key } => lookup_text(bindings@, BindingMode::Assign, target, key),
        ForPostStatement::TypeAssert { bindings, target, asserted_type } => assert_text(
            bindings@,
            BindingMode::Assign,
            target,
            asserted_type,
        ),
        ForPostStatement::IncDec { target, operator } => target_text(target) + inc_dec_text(operator)@,
    }
}

/// Four spaces per level.
pub open spec fn indent_text(indent: nat) -> Seq<char>
    decreases indent,
{
    if indent == 0 {
        Seq::empty()
    } else {
        indent_text((indent - 1) as nat) + "    "@
    }
}

/// What comes between `switch ` and `{`.
pub open spec fn switch_header_text(header: Option<HeaderStatement>, expression: Option<Expression>) -> Seq<char> {
    match header {
        Some(h) => match expression {
            Some(e) => header_text(h) + "; "@ + expression_text(e) + " "@,
            None => header_text(h) + "; "@,
        },
        None => match expression {
            Some(e) => expression_text(e) + " "@,
            None => Seq::empty(),
        },
    }
}

pub open spec fn guard_text(g: TypeSwitchGuard) -> Seq<char> {
    match g.binding {
        Some(b) => b@ + " := "@ + expression_text(g.expression) + ".(type)"@,
        None => expression_text(g.expression) + ".(type)"@,
    }
}

pub open spec fn type_switch_header_text(header: Option<HeaderStatement>, guard: TypeSwitchGuard) -> Seq<char> {
    match header {
        Some(h) => header_text(h) + "; "@ + guard_text(guard) + " "@,
        None => guard_text(guard) + " "@,
    }
}

pub open spec fn case_text(c: TypeSwitchCase) -> Seq<char> {
    match c {
        TypeSwitchCase::Type(t) => type_text(t),
        TypeSwitchCase::Nil => "nil"@,
    }
}

/// What comes between `for ` and `{`.
pub open spec fn for_header_text(init: Option<HeaderStatement>, condition: Option<Expression>, post: Option<ForPostStatement>) -> Seq<char> {
    if init is None && post is None {
        match condition {
            Some(c) => expression_text(c) + " "@,
            None => Seq::empty(),
        }
    } else {
        (match init {
            Some(h) => header_text(h),
            None => Seq::empty(),
        }) + "; "@ + (match condition {
            Some(c) => expression_text(c),
            None => Seq::empty(),
        }) + "; "@ + (match post {
            Some(p) => post_text(p),
            None => Seq::empty(),
        }) + " "@
    }
}

/// What comes between `for ` and ` {` in a range loop.
pub open spec fn range_header_text(bindings: Seq<Binding>, mode: Option<BindingMode>, target: Expression) -> Seq<char> {
    if bindings.len() == 0 {
        "range "@ + expression_text(target)
    } else {
        bindings_text(bindings) + " "@ + binding_mode_text(mode->0)@ + " range "@ + expression_text(target)
    }
}

/// The text of a statement at an indentation level; statements with
/// bodies take several lines.
pub open spec fn statement_text(s: Statement, indent: nat) -> Seq<char>
    decreases s, 0nat,
{
    let pad = indent_text(indent);
    match s {
        Statement::ShortVarDecl { bindings, values } => pad + bindings_text(bindings@) + " := "@ + expressions_text(values@),
        Statement::MultiAssign { bindings, values } => pad + bindings_text(bindings@) + " = "@ + expressions_text(values@),
        Statement::VarDecl { name, type_ref, value } => pad + var_decl_text(name, type_ref, value),
        Statement::Assign { target, value } => pad + target_text(target) + " = "@ + expression_text(value),
        Statement::Send { channel, value } => pad + expression_text(channel) + " <- "@ + expression_text(value),
        Statement::CompoundAssign { target, operator, value } => pad + target_text(target) + " "@ + compound_text(operator)@
            + " "@ + expression_text(value),
        Statement::Expr(e) => pad + expression_text(e),
        Statement::If(i) => pad + if_text(i, indent),
        Statement::Switch(sw) => pad + "switch "@ + switch_header_text(sw.header, sw.expression) + "{"@ + clauses_text(
            sw.clauses@,
            indent + 1,
        ) + "\n"@ + pad + "}"@,
        Statement::TypeSwitch(ts) => pad + "switch "@ + type_switch_header_text(ts.header, ts.guard) + "{"@
            + type_clauses_text(ts.clauses@, indent + 1) + "\n"@ + pad + "}"@,
        Statement::For(f) => pad + "for "@ + for_header_text(f.init, f.condition, f.post) + "{"@ + block_text(
            f.body.statements@,
            indent + 1,
        ) + "\n"@ + pad + "}"@,
        Statement::RangeFor { bindings, binding_mode, target, body } => pad + "for "@ + range_header_text(
            bindings@,
            binding_mode,
            target,
        ) + " {"@ + block_text(body.statements@, indent + 1) + "\n"@ + pad + "}"@,
        Statement::MapLookup { bindings, binding_mode, target, key } => pad + lookup_text(bindings@, binding_mode, target, key),
        Statement::TypeAssert { bindings, binding_mode, target, asserted_type } => pad + assert_text(
            bindings@,
            binding_mode,
            target,
            asserted_type,
        ),
        Statement::IncDec { target, operator } => pad + target_text(target) + inc_dec_text(operator)@,
        Statement::Defer(e) => pad + "defer "@ + expression_text(e),
        Statement::Break => pad + "break"@,
        Statement::Continue => pad + "continue"@,
        Statement::Return(values) => if values@.len() == 0 {
            pad + "return"@
        } else {
            pad + "return "@ + expressions_text(values@)
        },
    }
}

/// What comes between `if ` and ` {`.
pub open spec fn if_condition_text(i: IfStatement) -> Seq<char> {
    match i.header {
        Some(h) => header_text(h) + "; "@ + expression_text(i.condition),
        None => expression_text(i.condition),
    }
}

/// An `if` statement from the keyword on, its lines after the first
/// indented at `indent`; an `else if` continues on the `else` line.
pub open spec fn if_text(i: IfStatement, indent: nat) -> Seq<char>
    decreases i, 0nat,
{
    let pad = indent_text(indent);
    "if "@ + if_condition_text(i) + " {"@ + block_text(i.then_block.statements@, indent + 1) + "\n"@ + pad + "}"@ + (match i.else_branch {
        Some(ElseBranch::Block(b)) => "\n"@ + pad + "else {"@ + block_text(b.statements@, indent + 1) + "\n"@ + pad + "}"@,
        Some(ElseBranch::If(e)) => "\n"@ + pad + "else "@ + if_text(*e, indent),
        None => Seq::empty(),
    })
}

/// The statements of a block, each on a new line.
pub open spec fn block_text(ss: Seq<Statement>, indent: nat) -> Seq<char>
    decreases ss, 1nat,
{
    if ss.len() == 0 {
        Seq::empty()
    } else {
        block_text(ss.drop_last(), indent) + "\n"@ + statement_text(ss.last(), indent)
    }
}

/// The clauses of an expression switch, each `case` or `default` line at
/// `indent` and its statements one level deeper.
pub open spec fn clauses_text(cs: Seq<SwitchClause>, indent: nat) -> Seq<char>
    decreases cs, 1nat,
{
    if cs.len() == 0 {
        Seq::empty()
    } else {
        clauses_text(cs.drop_last(), indent) + "\n"@ + indent_text(indent) + match cs.last() {
            SwitchClause::Case { expressions, body } => "case "@ + expressions_text(expressions@) + ":"@ + block_text(
                body.statements@,
                indent + 1,
            ),
            SwitchClause::Default(body) => "default:"@ + block_text(body.statements@, indent + 1),
        }
    }
}

/// The clauses of a type switch.
pub open spec fn type_clauses_text(cs: Seq<TypeSwitchClause>, indent: nat) -> Seq<char>
    decreases cs, 1nat,
{
    if cs.len() == 0 {
        Seq::empty()
    } else {
        type_clauses_text(cs.drop_last(), indent) + "\n"@ + indent_text(indent) + match cs.last() {
            TypeSwitchClause::Case { cases, body } => "case "@ + join_with(cases@.map_values(|c: TypeSwitchCase| case_text(c)), ", "@)
                + ":"@ + block_text(body.statements@, indent + 1),
            TypeSwitchClause::Default(body) => "default:"@ + block_text(body.statements@, indent + 1),
        }
    }
}

/// Whether every range loop that binds names says how it binds them, at
/// every depth; rendering asks it.
pub open spec fn statement_renders(s: Statement) -> bool
    decreases s, 0nat,
{
    match s {
        Statement::If(i) => if_renders(i),
        Statement::Switch(sw) => clauses_render(sw.clauses@),
        Statement::TypeSwitch(ts) => type_clauses_render(ts.clauses@),
        Statement::For(f) => block_renders(f.body.statements@),
        Statement::RangeFor { bindings, binding_mode, target, body } => (bindings@.len() == 0 || binding_mode is Some)
            && block_renders(body.statements@),
        _ => true,
    }
}

pub open spec fn if_renders(i: IfStatement) -> bool
    decreases i, 0nat,
{
    block_renders(i.then_block.statements@) && match i.else_branch {
        Some(ElseBranch::Block(b)) => block_renders(b.statements@),
        Some(ElseBranch::If(e)) => if_renders(*e),
        None => true,
    }
}

pub open spec fn block_renders(ss: Seq<Statement>) -> bool
    decreases ss, 1nat,
{
    if ss.len() == 0 {
        true
    } else {
        block_renders(ss.drop_last()) && statement_renders(ss.last())
    }
}

pub open spec fn clauses_render(cs: Seq<SwitchClause>) -> bool
    decreases cs, 1nat,
{
    if cs.len() == 0 {
        true
    } else {
        clauses_render(cs.drop_last()) && match cs.last() {
            SwitchClause::Case { body, .. } => block_renders(body.statements@),
            SwitchClause::Default(body) => block_renders(body.statements@),
        }
    }
}

pub open spec fn type_clauses_render(cs: Seq<TypeSwitchClause>) -> bool
    decreases cs, 1nat,
{
    if cs.len() == 0 {
        true
    } else {
        type_clauses_render(cs.drop_last()) && match cs.last() {
            TypeSwitchClause::Case { body, .. } => block_renders(body.statements@),
            TypeSwitchClause::Default(body) => block_renders(body.statements@),
        }
    }
}

pub open spec fn import_spec_text(s: ImportSpec) -> Seq<char> {
    match s.binding {
        Some(b) => b@ + " "@ + quoted_text(s.path@),
        None => quoted_text(s.path@),
    }
}

pub open spec fn import_specs_text(specs: Seq<ImportSpec>) -> Seq<char>
    decreases specs.len(),
{
    if specs.len() == 0 {
        Seq::empty()
    } else {
        import_specs_text(specs.drop_last()) + "\n    "@ + import_spec_text(specs.last())
    }
}

/// The text of an import declaration; a group takes one line per path.
pub open spec fn import_text(d: ImportDecl) -> Seq<char> {
    match d {
        ImportDecl::Single(s) => "import "@ + import_spec_text(s),
        ImportDecl::Group(specs) => "import ("@ + import_specs_text(specs@) + "\n)"@,
    }
}

/// The text of a function declaration.
pub open spec fn function_text(f: FunctionDecl) -> Seq<char> {
    "func "@ + f.name@ + "("@ + join_with(parameter_texts(f.parameters@), ", "@) + ")"@ + results_text(f.results@) + " {"@
        + block_text(f.body.statements@, 1) + "\n}"@
}

pub open spec fn imports_text(ds: Seq<ImportDecl>) -> Seq<char>
    decreases ds.len(),
{
    if ds.len() == 0 {
        Seq::empty()
    } else {
        imports_text(ds.drop_last()) + "\n"@ + import_text(ds.last())
    }
}

pub open spec fn functions_text(fs: Seq<FunctionDecl>) -> Seq<char>
    decreases fs.len(),
{
    if fs.len() == 0 {
        Seq::empty()
    } else {
        functions_text(fs.drop_last()) + "\n"@ + function_text(fs.last())
    }
}

/// Whether a source file renders: no range loop binds names without saying
/// how.
pub open spec fn source_renders(ast: SourceFileAst) -> bool {
    forall|i: int| 0 <= i < ast.functions@.len() ==> #[trigger] block_renders(ast.functions@[i].body.statements@)
}

/// The text of a source file: the package clause, the imports and the
/// functions, one per line group, with a final line break.
pub open spec fn source_text(ast: SourceFileAst) -> Seq<char> {
    "package "@ + ast.package_name@ + imports_text(ast.imports@) + functions_text(ast.functions@) + "\n"@
}

/// An expression as a mathematical value: the same tree, with its lists as
/// sequences.
pub enum ExprView {
    Integer(i64),
    Bool(bool),
    String(String),
    Nil,
    Identifier(String),
    SliceLiteral { element_type: TypeRef, elements: Seq<ExprView> },
    MapLiteral { map_type: TypeRef, entries: Seq<(ExprView, ExprView)> },
    Binary { left: Box<ExprView>, operator: BinaryOperator, right: Box<ExprView> },
    Index { target: Box<ExprView>, index: Box<ExprView> },
    Slice { target: Box<ExprView>, low: Option<Box<ExprView>>, high: Option<Box<ExprView>> },
    Selector { target: Box<ExprView>, member: String },
    Receive { channel: Box<ExprView> },
    Make { type_ref: TypeRef, arguments: Seq<ExprView> },
    Conversion { type_ref: TypeRef, value: Box<ExprView> },
    TypeAssertion { target: Box<ExprView>, asserted_type: TypeRef },
    Call { callee: Box<ExprView>, arguments: Seq<ArgView> },
}

/// A call argument as a mathematical value.
pub enum ArgView {
    Plain(ExprView),
    Spread(ExprView),
}

/// The value of an expression.
pub open spec fn expr_view(e: Expression) -> ExprView
    decreases e, 0nat,
{
    match e {
        Expression::Integer(v) => ExprView::Integer(v),
        Expression::Bool(v) => ExprView::Bool(v),
        Expression::String(v) => ExprView::String(v),
        Expression::Nil => ExprView::Nil,
        Expression::Identifier(n) => ExprView::Identifier(n),
        Expression::SliceLiteral { element_type, elements } => ExprView::SliceLiteral {
            element_type,
            elements: expr_views(elements@),
        },
        Expression::MapLiteral { map_type, entries } => ExprView::MapLiteral { map_type, entries: entry_views(entries@) },
        Expression::Binary { left, operator, right } => ExprView::Binary {
            left: Box::new(expr_view(*left)),
            operator,
            right: Box::new(expr_view(*right)),
        },
        Expression::Index { target, index } => ExprView::Index {
            target: Box::new(expr_view(*target)),
            index: Box::new(expr_view(*index)),
        },
        Expression::Slice { target, low, high } => ExprView::Slice {
            target: Box::new(expr_view(*target)),
            low: match low {
                Some(l) => Some(Box::new(expr_view(*l))),
                None => None,
            },
            high: match high {
                Some(h) => Some(Box::new(expr_view(*h))),
                None => None,
            },
        },
        Expression::Selector { target, member } => ExprView::Selector { target: Box::new(expr_view(*target)), member },
        Expression::Receive { channel } => ExprView::Receive { channel: Box::new(expr_view(*channel)) },
        Expression::Make { type_ref, arguments } => ExprView::Make { type_ref, arguments: expr_views(arguments@) },
        Expression::Conversion { type_ref, value } => ExprView::Conversion { type_ref, value: Box::new(expr_view(*value)) },
        Expression::TypeAssertion { target, asserted_type } => ExprView::TypeAssertion {
            target: Box::new(expr_view(*target)),
            asserted_type,
        },
        Expression::Call { callee, arguments } => ExprView::Call {
            callee: Box::new(expr_view(*callee)),
            arguments: arg_views(arguments@),
        },
    }
}

/// The values of a list of expressions.
pub open spec fn expr_views(es: Seq<Expression>) -> Seq<ExprView>
    decreases es, 1nat,
{
    if es.len() == 0 {
        Seq::empty()
    } else {
        expr_views(es.drop_last()).push(expr_view(es.last()))
    }
}

/// The values of a list of expressions are as many as the expressions,
/// each the value of the expression at its place.
pub proof fn lemma_expr_views(es: Seq<Expression>)
    ensures
        expr_views(es).len() == es.len(),
        forall|i: int| 0 <= i < es.len() ==> #[trigger] expr_views(es)[i] == expr_view(es[i]),
    decreases es.len(),
{
    if es.len() > 0 {
        lemma_expr_views(es.drop_last());
    }
}

/// The values of the entries of a map literal.
pub open spec fn entry_views(es: Seq<MapLiteralEntry>) -> Seq<(ExprView, ExprView)>
    decreases es, 1nat,
{
    if es.len() == 0 {
        Seq::empty()
    } else {
        entry_views(es.drop_last()).push((expr_view(es.last().key), expr_view(es.last().value)))
    }
}

/// The values of call arguments.
pub open spec fn arg_views(args: Seq<CallArgument>) -> Seq<ArgView>
    decreases args, 1nat,
{
    if args.len() == 0 {
        Seq::empty()
    } else {
        arg_views(args.drop_last()).push(
            match args.last() {
                CallArgument::Expression(e) => ArgView::Plain(expr_view(e)),
                CallArgument::Spread(e) => ArgView::Spread(expr_view(e)),
            },
        )
    }
}

/// An assignment target as a mathematical value.
pub enum TargetView {
    Identifier(String),
    Index { target: ExprView, index: ExprView },
}

/// A header statement as a mathematical value.
pub enum HeaderView {
    ShortVarDecl { bindings: Seq<Binding>, values: Seq<ExprView> },
    MultiAssign { bindings: Seq<Binding>, values: Seq<ExprView> },
    VarDecl { name: String, type_ref: Option<TypeRef>, value: Option<ExprView> },
    Assign { target: TargetView, value: ExprView },
    CompoundAssign { target: TargetView, operator: CompoundAssignOperator, value: ExprView },
    Expr(ExprView),
    MapLookup { bindings: Seq<Binding>, binding_mode: BindingMode, target: ExprView, key: ExprView },
    TypeAssert { bindings: Seq<Binding>, binding_mode: BindingMode, target: ExprView, asserted_type: TypeRef },
    IncDec { target: TargetView, operator: IncDecOperator },
}

/// A `for` post statement as a mathematical value.
pub enum PostView {
    Assign { target: TargetView, value: ExprView },
    MultiAssign { bindings: Seq<Binding>, values: Seq<ExprView> },
    CompoundAssign { target: TargetView, operator: CompoundAssignOperator, value: ExprView },
    Expr(ExprView),
    MapLookup { bindings: Seq<Binding>, target: ExprView, key: ExprView },
    TypeAssert { bindings: Seq<Binding>, target: ExprView, asserted_type: TypeRef },
    IncDec { target: TargetView, operator: IncDecOperator },
}

/// A statement as a mathematical value: blocks as sequences of statements.
pub enum StmtView {
    ShortVarDecl { bindings: Seq<Binding>, values: Seq<ExprView> },
    MultiAssign { bindings: Seq<Binding>, values: Seq<ExprView> },
    VarDecl { name: String, type_ref: Option<TypeRef>, value: Option<ExprView> },
    Assign { target: TargetView, value: ExprView },
    Send { channel: ExprView, value: ExprView },
    CompoundAssign { target: TargetView, operator: CompoundAssignOperator, value: ExprView },
    Expr(ExprView),
    If(IfView),
    Switch { header: Option<HeaderView>, expression: Option<ExprView>, clauses: Seq<ClauseView> },
    TypeSwitch { header: Option<HeaderView>, binding: Option<String>, guard: ExprView, clauses: Seq<TypeClauseView> },
    For { init: Option<HeaderView>, condition: Option<ExprView>, post: Option<PostView>, body: Seq<StmtView> },
    RangeFor { bindings: Seq<Binding>, binding_mode: Option<BindingMode>, target: ExprView, body: Seq<StmtView> },
    MapLookup { bindings: Seq<Binding>, binding_mode: BindingMode, target: ExprView, key: ExprView },
    TypeAssert { bindings: Seq<Binding>, binding_mode: BindingMode, target: ExprView, asserted_type: TypeRef },
    IncDec { target: TargetView, operator: IncDecOperator },
    Defer(ExprView),
    Break,
    Continue,
    Return(Seq<ExprView>),
}

/// An `if` statement as a mathematical value.
pub enum IfView {
    If { header: Option<HeaderView>, condition: ExprView, then_block: Seq<StmtView>, else_branch: Option<ElseView> },
}

/// What follows `else`, as a mathematical value.
pub enum ElseView {
    Block(Seq<StmtView>),
    If(Box<IfView>),
}

/// A clause of an expression switch as a mathematical value.
pub enum ClauseView {
    Case { expressions: Seq<ExprView>, body: Seq<StmtView> },
    Default(Seq<StmtView>),
}

/// A clause of a type switch as a mathematical value.
pub enum TypeClauseView {
    Case { cases: Seq<TypeSwitchCase>, body: Seq<StmtView> },
    Default(Seq<StmtView>),
}

pub open spec fn target_view(t: AssignmentTarget) -> TargetView {
    match t {
        AssignmentTarget::Identifier(n) => TargetView::Identifier(n),
        AssignmentTarget::Index { target, index } => TargetView::Index { target: expr_view(target), index: expr_view(index) },
    }
}

pub open spec fn opt_expr_view(e: Option<Expression>) -> Option<ExprView> {
    match e {
        Some(x) => Some(expr_view(x)),
        None => None,
    }
}

pub open spec fn header_view(h: HeaderStatement) -> HeaderView {
    match h {
        HeaderStatement::ShortVarDecl { bindings, values } => HeaderView::ShortVarDecl {
            bindings: bindings@,
            values: expr_views(values@),
        },
        HeaderStatement::MultiAssign { bindings, values } => HeaderView::MultiAssign {
            bindings: bindings@,
            values: expr_views(values@),
        },
        HeaderStatement::VarDecl { name, type_ref, value } => HeaderView::VarDecl { name, type_ref, value: opt_expr_view(value) },
        HeaderStatement::Assign { target, value } => HeaderView::Assign { target: target_view(target), value: expr_view(value) },
        HeaderStatement::CompoundAssign { target, operator, value } => HeaderView::CompoundAssign {
            target: target_view(target),
            operator,
            value: expr_view(value),
        },
        HeaderStatement::Expr(e) => HeaderView::Expr(expr_view(e)),
        HeaderStatement::MapLookup { bindings, binding_mode, target, key } => HeaderView::MapLookup {
            bindings: bindings@,
            binding_mode,
            target: expr_view(target),
            key: expr_view(key),
        },
        HeaderStatement::TypeAssert { bindings, binding_mode, target, asserted_type } => HeaderView::TypeAssert {
            bindings: bindings@,
            binding_mode,
            target: expr_view(target),
            asserted_type,
        },
        HeaderStatement::IncDec { target, operator } => HeaderView::IncDec { target: target_view(target), operator },
    }
}

pub open spec fn opt_header_view(h: Option<HeaderStatement>) -> Option<HeaderView> {
    match h {
        Some(x) => Some(header_view(x)),
        None => None,
    }
}

pub open spec fn post_view(p: ForPostStatement) -> PostView {
    match p {
        ForPostStatement::Assign { target, value } => PostView::Assign { target: target_view(target), value: expr_view(value) },
        ForPostStatement::MultiAssign { bindings, values } => PostView::MultiAssign {
            bindings: bindings@,
            values: expr_views(values@),
        },
        ForPostStatement::CompoundAssign { target, operator, value } => PostView::CompoundAssign {
            target: target_view(target),
            operator,
            value: expr_view(value),
        },
        ForPostStatement::Expr(e) => PostView::Expr(expr_view(e)),
        ForPostStatement::MapLookup { bindings, target, key } => PostView::MapLookup {
            bindings: bindings@,
            target: expr_view(target),
            key: expr_view(key),
        },
        ForPostStatement::TypeAssert { bindings, target, asserted_type } => PostView::TypeAssert {
            bindings: bindings@,
            target: expr_view(target),
            asserted_type,
        },
        ForPostStatement::IncDec { target, operator } => PostView::IncDec { target: target_view(target), operator },
    }
}

/// The value of a statement.
pub open spec fn stmt_view(s: Statement) -> StmtView
    decreases s, 0nat,
{
    match s {
        Statement::ShortVarDecl { bindings, values } => StmtView::ShortVarDecl {
            bindings: bindings@,
            values: expr_views(values@),
        },
        Statement::MultiAssign { bindings, values } => StmtView::MultiAssign { bindings: bindings@, values: expr_views(values@) },
        Statement::VarDecl { name, type_ref, value } => StmtView::VarDecl { name, type_ref, value: opt_expr_view(value) },
        Statement::Assign { target, value } => StmtView::Assign { target: target_view(target), value: expr_view(value) },
        Statement::Send { channel, value } => StmtView::Send { channel: expr_view(channel), value: expr_view(value) },
        Statement::CompoundAssign { target, operator, value } => StmtView::CompoundAssign {
            target: target_view(target),
            operator,
            value: expr_view(value),
        },
        Statement::Expr(e) => StmtView::Expr(expr_view(e)),
        Statement::If(i) => StmtView::If(if_view(i)),
        Statement::Switch(sw) => StmtView::Switch {
            header: opt_header_view(sw.header),
            expression: opt_expr_view(sw.expression),
            clauses: clause_views(sw.clauses@),
        },
        Statement::TypeSwitch(ts) => StmtView::TypeSwitch {
            header: opt_header_view(ts.header),
            binding: ts.guard.binding,
            guard: expr_view(ts.guard.expression),
            clauses: type_clause_views(ts.clauses@),
        },
        Statement::For(f) => StmtView::For {
            init: opt_header_view(f.init),
            condition: opt_expr_view(f.condition),
            post: match f.post {
                Some(p) => Some(post_view(p)),
                None => None,
            },
            body: stmt_views(f.body.statements@),
        },
        Statement::RangeFor { bindings, binding_mode, target, body } => StmtView::RangeFor {
            bindings: bindings@,
            binding_mode,
            target: expr_view(target),
            body: stmt_views(body.statements@),
        },
        Statement::MapLookup { bindings, binding_mode, target, key } => StmtView::MapLookup {
            bindings: bindings@,
            binding_mode,
            target: expr_view(target),
            key: expr_view(key),
        },
        Statement::TypeAssert { bindings, binding_mode, target, asserted_type } => StmtView::TypeAssert {
            bindings: bindings@,
            binding_mode,
            target: expr_view(target),
            asserted_type,
        },
        Statement::IncDec { target, operator } => StmtView::IncDec { target: target_view(target), operator },
        Statement::Defer(e) => StmtView::Defer(expr_view(e)),
        Statement::Break => StmtView::Break,
        Statement::Continue => StmtView::Continue,
        Statement::Return(values) => StmtView::Return(expr_views(values@)),
    }
}

/// The value of an `if` statement.
pub open spec fn if_view(i: IfStatement) -> IfView
    decreases i, 0nat,
{
    IfView::If {
        header: opt_header_view(i.header),
        condition: expr_view(i.condition),
        then_block: stmt_views(i.then_block.statements@),
        else_branch: match i.else_branch {
            Some(ElseBranch::Block(b)) => Some(ElseView::Block(stmt_views(b.statements@))),
            Some(ElseBranch::If(e)) => Some(ElseView::If(Box::new(if_view(*e)))),
            None => None,
        },
    }
}

/// The values of a list of statements.
pub open spec fn stmt_views(ss: Seq<Statement>) -> Seq<StmtView>
    decreases ss, 1nat,
{
    if ss.len() == 0 {
        Seq::empty()
    } else {
        stmt_views(ss.drop_last()).push(stmt_view(ss.last()))
    }
}

/// The values of the clauses of an expression switch.
pub open spec fn clause_views(cs: Seq<SwitchClause>) -> Seq<ClauseView>
    decreases cs, 1nat,
{
    if cs.len() == 0 {
        Seq::empty()
    } else {
        clause_views(cs.drop_last()).push(clause_view(cs.last()))
    }
}

/// The value of a clause of an expression switch.
pub open spec fn clause_view(c: SwitchClause) -> ClauseView
    decreases c, 0nat,
{
    match c {
        SwitchClause::Case { expressions, body } => ClauseView::Case {
            expressions: expr_views(expressions@),
            body: stmt_views(body.statements@),
        },
        SwitchClause::Default(body) => ClauseView::Default(stmt_views(body.statements@)),
    }
}

/// The values of the clauses of a type switch.
pub open spec fn type_clause_views(cs: Seq<TypeSwitchClause>) -> Seq<TypeClauseView>
    decreases cs, 1nat,
{
    if cs.len() == 0 {
        Seq::empty()
    } else {
        type_clause_views(cs.drop_last()).push(type_clause_view(cs.last()))
    }
}

/// The value of a clause of a type switch.
pub open spec fn type_clause_view(c: TypeSwitchClause) -> TypeClauseView
    decreases c, 0nat,
{
    match c {
        TypeSwitchClause::Case { cases, body } => TypeClauseView::Case { cases: cases@, body: stmt_views(body.statements@) },
        TypeSwitchClause::Default(body) => TypeClauseView::Default(stmt_views(body.statements@)),
    }
}

} // verus!
