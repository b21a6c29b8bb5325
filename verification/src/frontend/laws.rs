//! Laws that tie the lexer, the parser and the renderer together: what
//! each operator lexeme spells, how tightly each binary operator binds,
//! and that a rendered operator lexes and parses back to itself.

use vstd::prelude::*;

use crate::frontend::ast::{
    binary_operator_text, compound_text, inc_dec_text, BinaryOperator, CompoundAssignOperator, ExprView, IncDecOperator,
};
use crate::frontend::parser::statements::{compound_of, inc_dec_of};
use crate::frontend::lexer::{decimal_value, is_digit, operator_at, scan_string, word_lexeme, Lexeme, StringScan};
use crate::text::{escaped_char, escaped_text, nat_text, quoted_text};
use crate::frontend::parser::expressions::{
    binary_at, binary_rest, expression_at, operand_at, operator_of, postfix_at, postfix_rest, unary_at, ExprResult,
};
use crate::frontend::token::{token_kind_text, Token, TokenKind};

verus! {

/// The token that spells a binary operator.
pub open spec fn binary_operator_token(op: BinaryOperator) -> TokenKind {
    match op {
        BinaryOperator::Add => TokenKind::Plus,
        BinaryOperator::Subtract => TokenKind::Minus,
        BinaryOperator::Multiply => TokenKind::Star,
        BinaryOperator::Divide => TokenKind::Slash,
        BinaryOperator::Equal => TokenKind::EqualEqual,
        BinaryOperator::NotEqual => TokenKind::BangEqual,
        BinaryOperator::Less => TokenKind::Less,
        BinaryOperator::LessEqual => TokenKind::LessEqual,
        BinaryOperator::Greater => TokenKind::Greater,
        BinaryOperator::GreaterEqual => TokenKind::GreaterEqual,
    }
}

/// How tightly a binary operator binds: the multiplicative operators
/// tightest, then the additive ones, then the ordering comparisons, and
/// the equality tests loosest.
pub open spec fn binding_strength(op: BinaryOperator) -> int {
    match op {
        BinaryOperator::Multiply | BinaryOperator::Divide => 4,
        BinaryOperator::Add | BinaryOperator::Subtract => 3,
        BinaryOperator::Less | BinaryOperator::LessEqual | BinaryOperator::Greater
        | BinaryOperator::GreaterEqual => 2,
        BinaryOperator::Equal | BinaryOperator::NotEqual => 1,
    }
}

/// The parser's precedence levels agree with how tightly the operators
/// bind: a token read as an operator is the token that spells it, and of
/// two operators the one that binds tighter is read at a lower level
/// (nearer the operands), and operators that bind alike at the same one.
/// So `x - y / z` reads as `x - (y / z)`.
pub proof fn law_operator_precedence(k1: TokenKind, l1: nat, k2: TokenKind, l2: nat)
    requires
        operator_of(k1, l1) is Some,
        operator_of(k2, l2) is Some,
    ensures
        binary_operator_token(operator_of(k1, l1)->Some_0) == k1,
        1 <= l1 <= 4,
        l1 < l2 <==> binding_strength(operator_of(k1, l1)->Some_0) > binding_strength(operator_of(k2, l2)->Some_0),
        l1 == l2 <==> binding_strength(operator_of(k1, l1)->Some_0) == binding_strength(operator_of(k2, l2)->Some_0),
{
}

/// Every binary operator is read, from the token that spells it, at some
/// precedence level.
pub proof fn law_every_operator_is_read(op: BinaryOperator)
    ensures
        exists|l: nat| 1 <= l <= 4 && #[trigger] operator_of(binary_operator_token(op), l) == Some(op),
{
    let l: nat = (5 - binding_strength(op)) as nat;
    assert(operator_of(binary_operator_token(op), l) == Some(op));
}

/// Every punctuation or operator lexeme spells its token: the characters
/// that the lexer takes at `i` are the text of the token kind it yields.
pub proof fn law_operator_lexeme_spells_its_kind(chars: Seq<char>, i: int)
    requires
        0 <= i < chars.len(),
        operator_at(chars, i) is Some,
    ensures
        ({
            let (kind, width) = operator_at(chars, i)->Some_0;
            &&& 1 <= width
            &&& i + width <= chars.len()
            &&& chars.subrange(i, i + width) == token_kind_text(kind)
        }),
{
    reveal_strlit("(");
    reveal_strlit(")");
    reveal_strlit("[");
    reveal_strlit("]");
    reveal_strlit("{");
    reveal_strlit("}");
    reveal_strlit(",");
    reveal_strlit(";");
    reveal_strlit(":");
    reveal_strlit(":=");
    reveal_strlit(".");
    reveal_strlit("...");
    reveal_strlit("=");
    reveal_strlit("==");
    reveal_strlit("!=");
    reveal_strlit("+");
    reveal_strlit("++");
    reveal_strlit("+=");
    reveal_strlit("-");
    reveal_strlit("--");
    reveal_strlit("-=");
    reveal_strlit("*");
    reveal_strlit("*=");
    reveal_strlit("/");
    reveal_strlit("/=");
    reveal_strlit("<");
    reveal_strlit("<=");
    reveal_strlit("<-");
    reveal_strlit(">");
    reveal_strlit(">=");
    let (kind, width) = operator_at(chars, i)->Some_0;
    assert(chars.subrange(i, i + width) =~= token_kind_text(kind));
}

/// A rendered binary operator lexes back to the token that spells it,
/// taking all of its text, and that token is read as the same operator:
/// rendering, lexing and parsing agree on every operator.
pub proof fn law_operator_text_lexes_back(op: BinaryOperator)
    ensures
        operator_at(binary_operator_text(op)@, 0) == Some((binary_operator_token(op), binary_operator_text(op)@.len())),
        exists|l: nat| 1 <= l <= 4 && #[trigger] operator_of(binary_operator_token(op), l) == Some(op),
{
    reveal_strlit("+");
    reveal_strlit("-");
    reveal_strlit("*");
    reveal_strlit("/");
    reveal_strlit("==");
    reveal_strlit("!=");
    reveal_strlit("<");
    reveal_strlit("<=");
    reveal_strlit(">");
    reveal_strlit(">=");
    law_every_operator_is_read(op);
}

/// A keyword is read as the token it spells, `true` and `false` as the
/// truth values they name, and any other word as an identifier of its own
/// text.
pub proof fn law_word_spells_its_token(w: Seq<char>)
    ensures
        word_lexeme(w) matches Lexeme::Fixed(kind) ==> token_kind_text(kind) == w,
        word_lexeme(w) matches Lexeme::Truth(b) ==> w == (if b { "true"@ } else { "false"@ }),
        word_lexeme(w) matches Lexeme::Word(x) ==> x == w,
        word_lexeme(w) is Fixed || word_lexeme(w) is Truth || word_lexeme(w) is Word,
{
    reveal_strlit("package");
    reveal_strlit("import");
    reveal_strlit("func");
    reveal_strlit("var");
    reveal_strlit("if");
    reveal_strlit("else");
    reveal_strlit("switch");
    reveal_strlit("case");
    reveal_strlit("default");
    reveal_strlit("for");
    reveal_strlit("range");
    reveal_strlit("return");
    reveal_strlit("break");
    reveal_strlit("continue");
    reveal_strlit("defer");
    reveal_strlit("map");
    reveal_strlit("chan");
    reveal_strlit("interface");
    reveal_strlit("nil");
    reveal_strlit("true");
    reveal_strlit("false");
}

/// A token that ends an operand: it starts no selector, index or call.
pub open spec fn ends_operand(kind: TokenKind) -> bool {
    !(kind is Dot) && !(kind is LeftBracket) && !(kind is LeftParen)
}

/// A token that ends an expression: it ends an operand and is no binary
/// operator.
pub open spec fn ends_expression(kind: TokenKind) -> bool {
    &&& ends_operand(kind)
    &&& kind != TokenKind::Plus && kind != TokenKind::Minus && kind != TokenKind::Star && kind != TokenKind::Slash
    &&& kind != TokenKind::EqualEqual && kind != TokenKind::BangEqual && kind != TokenKind::Less
    &&& kind != TokenKind::LessEqual && kind != TokenKind::Greater && kind != TokenKind::GreaterEqual
}

/// A name standing alone as an operand at `q`.
pub open spec fn lone_name(ts: Seq<Token>, q: int) -> bool {
    0 <= q && q + 1 < ts.len() && ts[q].kind is Identifier && ends_operand(ts[q + 1].kind)
}

/// The name at `q`, as an expression.
pub open spec fn name_at(ts: Seq<Token>, q: int) -> ExprView {
    ExprView::Identifier(ts[q].kind->Identifier_0)
}

/// `left op right`.
pub open spec fn binary_view(left: ExprView, op: BinaryOperator, right: ExprView) -> ExprView {
    ExprView::Binary { left: Box::new(left), operator: op, right: Box::new(right) }
}

/// The precedence level at which the parser reads an operator.
spec fn level_of(op: BinaryOperator) -> nat {
    (5 - binding_strength(op)) as nat
}

/// An operator is read at its own level and at no other.
proof fn lemma_level_of(op: BinaryOperator, l: nat)
    ensures
        1 <= level_of(op) <= 4,
        operator_of(binary_operator_token(op), l) == (if l == level_of(op) { Some(op) } else { None::<BinaryOperator> }),
{
}

/// A lone name before a token that ends the expression is the whole
/// expression at every level.
proof fn lemma_lone_name(ts: Seq<Token>, q: int, l: nat)
    requires
        lone_name(ts, q),
        ends_expression(ts[q + 1].kind),
        l <= 4,
    ensures
        binary_at(ts, q, l) == Ok::<(ExprView, int), Seq<char>>((name_at(ts, q), q + 1)),
    decreases l,
{
    if l > 0 {
        lemma_lone_name(ts, q, (l - 1) as nat);
        lemma_binary_step(ts, q, l, name_at(ts, q), q + 1);
        lemma_rest_stops(ts, name_at(ts, q), q + 1, l);
    } else {
        lemma_lone_name_unary(ts, q);
    }
}

/// At a level above zero, the operands of tighter levels come first, and
/// the operators of this level after them.
proof fn lemma_binary_step(ts: Seq<Token>, q: int, l: nat, left: ExprView, r: int)
    requires
        0 <= q < ts.len(),
        l >= 1,
        binary_at(ts, q, (l - 1) as nat) == Ok::<(ExprView, int), Seq<char>>((left, r)),
        q < r < ts.len(),
    ensures
        binary_at(ts, q, l) == binary_rest(ts, left, r, l),
{
}

/// The operators of a level stop at a token that is no operator of it.
proof fn lemma_rest_stops(ts: Seq<Token>, left: ExprView, r: int, l: nat)
    requires
        0 <= r < ts.len(),
        l >= 1,
        operator_of(ts[r].kind, l) is None,
    ensures
        binary_rest(ts, left, r, l) == Ok::<(ExprView, int), Seq<char>>((left, r)),
{
}

/// An operator of the level takes the next operand of a tighter level and
/// goes on after it.
proof fn lemma_rest_takes(ts: Seq<Token>, left: ExprView, r: int, l: nat, op: BinaryOperator, right: ExprView, s: int)
    requires
        0 <= r,
        r + 1 < ts.len(),
        l >= 1,
        operator_of(ts[r].kind, l) == Some(op),
        binary_at(ts, r + 1, (l - 1) as nat) == Ok::<(ExprView, int), Seq<char>>((right, s)),
        r < s < ts.len(),
    ensures
        binary_rest(ts, left, r, l) == binary_rest(ts, binary_view(left, op, right), s, l),
{
}

/// A lone name is read as itself by the operand parser.
proof fn lemma_lone_name_operand(ts: Seq<Token>, q: int)
    requires
        lone_name(ts, q),
    ensures
        operand_at(ts, q) == Ok::<(ExprView, int), Seq<char>>((name_at(ts, q), q + 1)),
{
}

/// Nothing follows an operand before a token that ends it.
proof fn lemma_postfix_stops(ts: Seq<Token>, e: ExprView, q: int)
    requires
        0 <= q < ts.len(),
        ends_operand(ts[q].kind),
    ensures
        postfix_rest(ts, e, q) == Ok::<(ExprView, int), Seq<char>>((e, q)),
{
}

/// A lone name is read as itself by the unary parser.
proof fn lemma_lone_name_unary(ts: Seq<Token>, q: int)
    requires
        lone_name(ts, q),
    ensures
        unary_at(ts, q) == Ok::<(ExprView, int), Seq<char>>((name_at(ts, q), q + 1)),
{
    lemma_lone_name_operand(ts, q);
    lemma_postfix_stops(ts, name_at(ts, q), q + 1);
    assert(postfix_at(ts, q) == Ok::<(ExprView, int), Seq<char>>((name_at(ts, q), q + 1)));
}

/// `x op y` followed by a token that ends the expression: below the
/// operator's level only `x` is read.
proof fn lemma_one_operator(ts: Seq<Token>, q: int, op: BinaryOperator, l: nat)
    requires
        lone_name(ts, q),
        ts[q + 1].kind == binary_operator_token(op),
        lone_name(ts, q + 2),
        ends_expression(ts[q + 3].kind),
        l <= 4,
    ensures
        binary_at(ts, q, l) == (if l < level_of(op) {
            Ok::<(ExprView, int), Seq<char>>((name_at(ts, q), q + 1))
        } else {
            Ok::<(ExprView, int), Seq<char>>((binary_view(name_at(ts, q), op, name_at(ts, q + 2)), q + 3))
        }),
    decreases l,
{
    lemma_level_of(op, l);
    let x = name_at(ts, q);
    let bin = binary_view(x, op, name_at(ts, q + 2));
    if l == 0 {
        lemma_binary_zero(ts, q);
        lemma_lone_name_unary(ts, q);
    } else {
        lemma_one_operator(ts, q, op, (l - 1) as nat);
        if l < level_of(op) {
            lemma_binary_step(ts, q, l, x, q + 1);
            lemma_rest_stops(ts, x, q + 1, l);
        } else if l == level_of(op) {
            lemma_binary_step(ts, q, l, x, q + 1);
            lemma_lone_name(ts, q + 2, (l - 1) as nat);
            lemma_rest_takes(ts, x, q + 1, l, op, name_at(ts, q + 2), q + 3);
            lemma_rest_stops(ts, bin, q + 3, l);
        } else {
            lemma_binary_step(ts, q, l, bin, q + 3);
            lemma_rest_stops(ts, bin, q + 3, l);
        }
    }
}

/// At level zero an operand is read by the unary parser.
proof fn lemma_binary_zero(ts: Seq<Token>, q: int)
    requires
        0 <= q < ts.len(),
    ensures
        binary_at(ts, q, 0) == unary_at(ts, q),
{
}

/// What `x op1 y op2 z` reads as from `p` at level `l`.
spec fn two_operators_at(ts: Seq<Token>, p: int, op1: BinaryOperator, op2: BinaryOperator, l: nat) -> ExprResult {
    let x = name_at(ts, p);
    let y = name_at(ts, p + 2);
    let z = name_at(ts, p + 4);
    if l < level_of(op1) {
        Ok((x, p + 1))
    } else if level_of(op2) < level_of(op1) {
        Ok((binary_view(x, op1, binary_view(y, op2, z)), p + 5))
    } else if l < level_of(op2) {
        Ok((binary_view(x, op1, y), p + 3))
    } else {
        Ok((binary_view(binary_view(x, op1, y), op2, z), p + 5))
    }
}

proof fn lemma_two_operators(ts: Seq<Token>, p: int, op1: BinaryOperator, op2: BinaryOperator, l: nat)
    requires
        lone_name(ts, p),
        ts[p + 1].kind == binary_operator_token(op1),
        lone_name(ts, p + 2),
        ts[p + 3].kind == binary_operator_token(op2),
        lone_name(ts, p + 4),
        ends_expression(ts[p + 5].kind),
        l <= 4,
    ensures
        binary_at(ts, p, l) == two_operators_at(ts, p, op1, op2, l),
    decreases l,
{
    lemma_level_of(op1, l);
    lemma_level_of(op2, l);
    let l1 = level_of(op1);
    let l2 = level_of(op2);
    let x = name_at(ts, p);
    let y = name_at(ts, p + 2);
    let z = name_at(ts, p + 4);
    let b1 = binary_view(x, op1, y);
    let yz = binary_view(y, op2, z);
    if l == 0 {
        lemma_binary_zero(ts, p);
        lemma_lone_name_unary(ts, p);
    } else {
        lemma_two_operators(ts, p, op1, op2, (l - 1) as nat);
        if l < l1 {
            lemma_binary_step(ts, p, l, x, p + 1);
            lemma_rest_stops(ts, x, p + 1, l);
        } else if l == l1 {
            lemma_binary_step(ts, p, l, x, p + 1);
            lemma_one_operator(ts, p + 2, op2, (l - 1) as nat);
            if l2 < l1 {
                lemma_rest_takes(ts, x, p + 1, l, op1, yz, p + 5);
                lemma_rest_stops(ts, binary_view(x, op1, yz), p + 5, l);
            } else {
                lemma_rest_takes(ts, x, p + 1, l, op1, y, p + 3);
                if l2 == l1 {
                    lemma_lone_name(ts, p + 4, (l - 1) as nat);
                    lemma_rest_takes(ts, b1, p + 3, l, op2, z, p + 5);
                    lemma_rest_stops(ts, binary_view(b1, op2, z), p + 5, l);
                } else {
                    lemma_rest_stops(ts, b1, p + 3, l);
                }
            }
        } else if l2 < l1 {
            lemma_binary_step(ts, p, l, binary_view(x, op1, yz), p + 5);
            lemma_rest_stops(ts, binary_view(x, op1, yz), p + 5, l);
        } else if l - 1 < l2 {
            lemma_binary_step(ts, p, l, b1, p + 3);
            if l == l2 {
                lemma_lone_name(ts, p + 4, (l - 1) as nat);
                lemma_rest_takes(ts, b1, p + 3, l, op2, z, p + 5);
                lemma_rest_stops(ts, binary_view(b1, op2, z), p + 5, l);
            } else {
                lemma_rest_stops(ts, b1, p + 3, l);
            }
        } else {
            lemma_binary_step(ts, p, l, binary_view(b1, op2, z), p + 5);
            lemma_rest_stops(ts, binary_view(b1, op2, z), p + 5, l);
        }
    }
}

/// Of two operators in a row, `x op1 y op2 z`, the one that binds tighter
/// takes its operands first: the expression reads as `x op1 (y op2 z)`
/// when `op2` binds tighter than `op1`, and as `(x op1 y) op2 z`
/// otherwise, so operators that bind alike group from the left. So
/// `a - b / 2` reads as `a - (b / 2)`, and `a - b - c` as `(a - b) - c`.
pub proof fn law_two_operators_group_by_strength(ts: Seq<Token>, p: int, op1: BinaryOperator, op2: BinaryOperator)
    requires
        lone_name(ts, p),
        ts[p + 1].kind == binary_operator_token(op1),
        lone_name(ts, p + 2),
        ts[p + 3].kind == binary_operator_token(op2),
        lone_name(ts, p + 4),
        ends_expression(ts[p + 5].kind),
    ensures
        expression_at(ts, p) == Ok::<(ExprView, int), Seq<char>>((
            if binding_strength(op2) > binding_strength(op1) {
                binary_view(name_at(ts, p), op1, binary_view(name_at(ts, p + 2), op2, name_at(ts, p + 4)))
            } else {
                binary_view(binary_view(name_at(ts, p), op1, name_at(ts, p + 2)), op2, name_at(ts, p + 4))
            },
            p + 5,
        )),
{
    lemma_two_operators(ts, p, op1, op2, 4);
}

/// A number written out in decimal is all digits, and reads back as
/// itself.
pub proof fn law_decimal_reads_back(n: nat)
    ensures
        forall|i: int| 0 <= i < nat_text(n).len() ==> is_digit(#[trigger] nat_text(n)[i]),
        decimal_value(nat_text(n)) == n,
    decreases n,
{
    if n < 10 {
        assert(nat_text(n).drop_last() =~= Seq::<char>::empty());
        assert(((48 + n) as u8) as int == 48 + n);
        assert(crate::text::digit_char(n) as int == 48 + n);
        assert(nat_text(n).last() == crate::text::digit_char(n));
        assert(decimal_value(nat_text(n)) == decimal_value(nat_text(n).drop_last()) * 10 + ((nat_text(n).last() as int - 48) as nat));
        assert(decimal_value(nat_text(n)) == n);
    } else {
        law_decimal_reads_back(n / 10);
        let s = nat_text(n / 10);
        let d: nat = n % 10;
        assert(nat_text(n).drop_last() =~= s);
        assert(nat_text(n).last() == crate::text::digit_char(d));
        assert(((48 + d) as u8) as int == 48 + d);
        assert(crate::text::digit_char(d) as int == 48 + d);
        vstd::arithmetic::div_mod::lemma_fundamental_div_mod(n as int, 10);
        assert(n == (n / 10) * 10 + n % 10) by (nonlinear_arith)
            requires n == 10 * (n / 10) + n % 10;
        assert(decimal_value(nat_text(n)) == decimal_value(s) * 10 + ((nat_text(n).last() as int - 48) as nat));
        assert(decimal_value(nat_text(n)) == n);
    }
}

/// A rendered compound assignment operator lexes back, taking all of its
/// text, to a token that the parser reads as the same operator.
pub proof fn law_compound_text_lexes_back(op: CompoundAssignOperator)
    ensures
        operator_at(compound_text(op)@, 0) matches Some((kind, width)) && width == compound_text(op)@.len()
            && compound_of(kind) == Some(op),
{
    reveal_strlit("+=");
    reveal_strlit("-=");
    reveal_strlit("*=");
    reveal_strlit("/=");
}

/// A rendered increment or decrement lexes back, taking all of its text,
/// to a token that the parser reads as the same operator.
pub proof fn law_inc_dec_text_lexes_back(op: IncDecOperator)
    ensures
        operator_at(inc_dec_text(op)@, 0) matches Some((kind, width)) && width == inc_dec_text(op)@.len()
            && inc_dec_of(kind) == Some(op),
{
    reveal_strlit("++");
    reveal_strlit("--");
}

/// Escaping a text escapes its first character, then the rest.
proof fn lemma_escaped_text_front(c: char, s: Seq<char>)
    ensures
        escaped_text(seq![c] + s) == escaped_char(c) + escaped_text(s),
    decreases s.len(),
{
    let t = seq![c] + s;
    if s.len() == 0 {
        assert(t.drop_last() =~= Seq::<char>::empty());
        assert(escaped_text(Seq::<char>::empty()) == Seq::<char>::empty());
        assert(escaped_text(t) == escaped_text(t.drop_last()) + escaped_char(t.last()));
        assert(escaped_text(t) =~= escaped_char(c));
        assert(escaped_char(c) + escaped_text(s) =~= escaped_char(c));
    } else {
        lemma_escaped_text_front(c, s.drop_last());
        assert(t.drop_last() =~= seq![c] + s.drop_last());
        assert(t.last() == s.last());
        assert(escaped_text(t) == escaped_text(t.drop_last()) + escaped_char(t.last()));
        assert(escaped_text(s) == escaped_text(s.drop_last()) + escaped_char(s.last()));
        assert(escaped_char(c) + escaped_text(s.drop_last()) + escaped_char(s.last())
            =~= escaped_char(c) + escaped_text(s));
    }
}

/// Reading the escaped text of `s` and a closing quote, from `j`, having
/// read `text`, ends just past the quote with `text` followed by `s`.
proof fn lemma_scan_escaped(chars: Seq<char>, j: int, text: Seq<char>, s: Seq<char>)
    requires
        0 <= j,
        j + escaped_text(s).len() < chars.len(),
        chars.subrange(j, j + escaped_text(s).len() + 1) == escaped_text(s).push('"'),
    ensures
        scan_string(chars, j, text) == StringScan::Closed(text + s, j + escaped_text(s).len() + 1),
    decreases s.len(),
{
    let e = escaped_text(s);
    if s.len() == 0 {
        assert(chars[j] == chars.subrange(j, j + 1)[0]);
        assert(text + s =~= text);
    } else {
        let c = s[0];
        let rest = s.drop_first();
        assert(seq![c] + rest =~= s);
        lemma_escaped_text_front(c, rest);
        let w = escaped_char(c).len() as int;
        let er = escaped_text(rest);
        assert(e == escaped_char(c) + er);
        assert forall|k: int| 0 <= k < w implies chars[j + k] == #[trigger] escaped_char(c)[k] by {
            assert(chars[j + k] == chars.subrange(j, j + e.len() + 1)[k]);
        }
        assert(chars.subrange(j + w, j + w + er.len() + 1) =~= er.push('"')) by {
            assert forall|k: int| 0 <= k < er.len() + 1 implies chars.subrange(j + w, j + w + er.len() + 1)[k]
                == #[trigger] er.push('"')[k] by {
                assert(chars[j + w + k] == chars.subrange(j, j + e.len() + 1)[w + k]);
            }
        }
        lemma_scan_escaped(chars, j + w, text.push(c), rest);
        assert(text.push(c) + rest =~= text + s);
    }
}

/// A string written out as a quoted literal reads back as itself: after
/// the opening quote, the lexer reads exactly the string and stops just
/// past the closing quote.
pub proof fn law_string_literal_reads_back(s: Seq<char>)
    ensures
        quoted_text(s)[0] == '"',
        scan_string(quoted_text(s), 1, Seq::empty()) == StringScan::Closed(s, quoted_text(s).len() as int),
{
    let q = quoted_text(s);
    let e = escaped_text(s);
    assert(q.subrange(1, 1 + e.len() as int + 1) =~= e.push('"'));
    lemma_scan_escaped(q, 1, Seq::empty(), s);
    assert(Seq::<char>::empty() + s =~= s);
}

} // verus!
