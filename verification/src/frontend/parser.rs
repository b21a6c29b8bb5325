//! The parser: tokens to a syntax tree, by recursive descent.

use vstd::prelude::*;

use crate::frontend::ast::{block_renders, source_renders, FunctionDecl, ImportDecl, SourceFileAst};
use crate::frontend::lexer::{law_tokens_end_with_eof, lex_text, position_text, token_is, tokens_are};
use crate::frontend::signature::TypeRef;
use crate::frontend::token::{token_kind_text, Token, TokenKind};
use crate::text::{push_nat, push_str};

pub mod declarations;
pub mod expressions;
pub mod statements;
pub mod type_switches;

use declarations::{
    function_at, function_view, import_at, import_view, parse_function, parse_import, FunctionView, ImportView,
};
use expressions::expect_at;

verus! {

/// A number for each kind of token, the same for kinds that differ only in
/// the text or value they carry.
pub open spec fn kind_code(kind: TokenKind) -> nat {
    match kind {
        TokenKind::Package => 0,
        TokenKind::Import => 1,
        TokenKind::Func => 2,
        TokenKind::Var => 3,
        TokenKind::Return => 4,
        TokenKind::If => 5,
        TokenKind::Else => 6,
        TokenKind::Switch => 7,
        TokenKind::Case => 8,
        TokenKind::Default => 9,
        TokenKind::For => 10,
        TokenKind::Range => 11,
        TokenKind::Break => 12,
        TokenKind::Continue => 13,
        TokenKind::Defer => 14,
        TokenKind::MapKeyword => 15,
        TokenKind::Chan => 16,
        TokenKind::Interface => 17,
        TokenKind::Nil => 18,
        TokenKind::Bool(_) => 19,
        TokenKind::Identifier(_) => 20,
        TokenKind::Integer(_) => 21,
        TokenKind::String(_) => 22,
        TokenKind::LeftParen => 23,
        TokenKind::RightParen => 24,
        TokenKind::LeftBracket => 25,
        TokenKind::RightBracket => 26,
        TokenKind::LeftBrace => 27,
        TokenKind::RightBrace => 28,
        TokenKind::Comma => 29,
        TokenKind::Colon => 30,
        TokenKind::Dot => 31,
        TokenKind::Ellipsis => 32,
        TokenKind::Semicolon => 33,
        TokenKind::Assign => 34,
        TokenKind::Define => 35,
        TokenKind::Plus => 36,
        TokenKind::Minus => 37,
        TokenKind::Star => 38,
        TokenKind::Slash => 39,
        TokenKind::PlusAssign => 40,
        TokenKind::MinusAssign => 41,
        TokenKind::StarAssign => 42,
        TokenKind::SlashAssign => 43,
        TokenKind::PlusPlus => 44,
        TokenKind::MinusMinus => 45,
        TokenKind::EqualEqual => 46,
        TokenKind::BangEqual => 47,
        TokenKind::Less => 48,
        TokenKind::LessEqual => 49,
        TokenKind::Greater => 50,
        TokenKind::GreaterEqual => 51,
        TokenKind::LeftArrow => 52,
        TokenKind::Eof => 53,
    }
}

/// Whether a kind carries no text or value.
pub open spec fn is_plain(kind: TokenKind) -> bool {
    !(kind is Bool || kind is Identifier || kind is Integer || kind is String)
}

fn code(kind: &TokenKind) -> (c: u8)
    ensures
        c == kind_code(*kind),
{
    match kind {
        TokenKind::Package => 0,
        TokenKind::Import => 1,
        TokenKind::Func => 2,
        TokenKind::Var => 3,
        TokenKind::Return => 4,
        TokenKind::If => 5,
        TokenKind::Else => 6,
        TokenKind::Switch => 7,
        TokenKind::Case => 8,
        TokenKind::Default => 9,
        TokenKind::For => 10,
        TokenKind::Range => 11,
        TokenKind::Break => 12,
        TokenKind::Continue => 13,
        TokenKind::Defer => 14,
        TokenKind::MapKeyword => 15,
        TokenKind::Chan => 16,
        TokenKind::Interface => 17,
        TokenKind::Nil => 18,
        TokenKind::Bool(_) => 19,
        TokenKind::Identifier(_) => 20,
        TokenKind::Integer(_) => 21,
        TokenKind::String(_) => 22,
        TokenKind::LeftParen => 23,
        TokenKind::RightParen => 24,
        TokenKind::LeftBracket => 25,
        TokenKind::RightBracket => 26,
        TokenKind::LeftBrace => 27,
        TokenKind::RightBrace => 28,
        TokenKind::Comma => 29,
        TokenKind::Colon => 30,
        TokenKind::Dot => 31,
        TokenKind::Ellipsis => 32,
        TokenKind::Semicolon => 33,
        TokenKind::Assign => 34,
        TokenKind::Define => 35,
        TokenKind::Plus => 36,
        TokenKind::Minus => 37,
        TokenKind::Star => 38,
        TokenKind::Slash => 39,
        TokenKind::PlusAssign => 40,
        TokenKind::MinusAssign => 41,
        TokenKind::StarAssign => 42,
        TokenKind::SlashAssign => 43,
        TokenKind::PlusPlus => 44,
        TokenKind::MinusMinus => 45,
        TokenKind::EqualEqual => 46,
        TokenKind::BangEqual => 47,
        TokenKind::Less => 48,
        TokenKind::LessEqual => 49,
        TokenKind::Greater => 50,
        TokenKind::GreaterEqual => 51,
        TokenKind::LeftArrow => 52,
        TokenKind::Eof => 53,
    }
}

pub proof fn lemma_plain_code(a: TokenKind, b: TokenKind)
    requires
        is_plain(b),
    ensures
        kind_code(a) == kind_code(b) <==> a == b,
{
}

/// Why a token sequence cannot be read as a source file.
#[derive(Clone, Debug, PartialEq, Eq)]
pub struct ParseError {
    message: String,
}

impl ParseError {
    /// The message.
    pub closed spec fn text(&self) -> Seq<char> {
        self.message@
    }

    /// The message, such as ``expected `)` at 3:14 (found `{`)``.
    pub fn to_string(&self) -> (s: String)
        ensures
            s@ == self.text(),
    {
        self.message.clone()
    }
}

/// Whether a token sequence is one the lexer produces: not empty, and
/// ending with `Eof`.
pub open spec fn ends_with_eof(ts: Seq<Token>) -> bool {
    ts.len() > 0 && ts.last().kind is Eof
}

/// What the parser relies on of a token sequence: it ends with `Eof`, so
/// every other token has a successor, and its positions fit in `usize`.
pub open spec fn tokens_wf(ts: Seq<Token>) -> bool {
    &&& ends_with_eof(ts)
    &&& ts.len() <= usize::MAX
    &&& forall|i: int| #![trigger ts[i]] 0 <= i < ts.len() && !(ts[i].kind is Eof) ==> i + 1 < ts.len()
}

/// A message about the token at `pos`, with its place and its text.
pub open spec fn error_text(ts: Seq<Token>, pos: int, message: Seq<char>) -> Seq<char> {
    message + " at "@ + position_text(ts[pos].span.line as nat, ts[pos].span.column as nat) + " (found `"@
        + token_kind_text(ts[pos].kind) + "`)"@
}

/// The message of a missing token.
pub open spec fn expected_text(kind: TokenKind) -> Seq<char> {
    "expected `"@ + token_kind_text(kind) + "`"@
}

/// An error with a message and no place.
pub(crate) fn plain_error(message: &str) -> (e: ParseError)
    ensures
        e.text() == message@,
{
    let mut text = String::new();
    push_str(&mut text, message);
    ParseError { message: text }
}

/// An error about the token at `pos`.
pub(crate) fn error_at(tokens: &Vec<Token>, pos: usize, message: &str) -> (e: ParseError)
    requires
        pos < tokens@.len(),
    ensures
        e.text() == error_text(tokens@, pos as int, message@),
{
    let mut text = String::new();
    push_str(&mut text, message);
    push_str(&mut text, " at ");
    push_nat(&mut text, tokens[pos].span.line as u64);
    push_str(&mut text, ":");
    push_nat(&mut text, tokens[pos].span.column as u64);
    push_str(&mut text, " (found `");
    tokens[pos].kind.push_text(&mut text);
    push_str(&mut text, "`)");
    assert(text@ =~= error_text(tokens@, pos as int, message@));
    ParseError { message: text }
}

/// Whether the token at `pos` is of a kind that carries nothing.
pub(crate) fn at_kind(tokens: &Vec<Token>, pos: usize, expected: TokenKind) -> (r: bool)
    requires
        pos < tokens@.len(),
        is_plain(expected),
    ensures
        r == (tokens@[pos as int].kind == expected),
        r && tokens_wf(tokens@) && !(expected is Eof) ==> pos + 1 < tokens@.len(),
{
    proof {
        lemma_plain_code(tokens@[pos as int].kind, expected);
    }
    code(&tokens[pos].kind) == code(&expected)
}

/// Past the token at `pos`, unless it is the final `Eof`.
pub(crate) fn advance(tokens: &Vec<Token>, pos: usize) -> (p: usize)
    requires
        tokens_wf(tokens@),
        pos < tokens@.len(),
    ensures
        p == (if tokens@[pos as int].kind is Eof { pos as int } else { pos + 1 }),
        p < tokens@.len(),
{
    if matches!(tokens[pos].kind, TokenKind::Eof) {
        pos
    } else {
        pos + 1
    }
}

/// Past a token of the expected kind, or an error naming it.
pub(crate) fn expect(tokens: &Vec<Token>, pos: usize, expected: TokenKind) -> (r: Result<usize, ParseError>)
    requires
        tokens_wf(tokens@),
        pos < tokens@.len(),
        is_plain(expected),
        !(expected is Eof),
    ensures
        r is Ok <==> tokens@[pos as int].kind == expected,
        r is Ok ==> r->Ok_0 == pos + 1 && r->Ok_0 < tokens@.len(),
        r is Err ==> r->Err_0.text() == error_text(tokens@, pos as int, expected_text(expected)),
{
    if at_kind(tokens, pos, expected.duplicate()) {
        Ok(pos + 1)
    } else {
        let mut message = String::new();
        push_str(&mut message, "expected `");
        expected.push_text(&mut message);
        push_str(&mut message, "`");
        let e = error_at(tokens, pos, message.as_str());
        assert(message@ =~= expected_text(expected));
        Err(e)
    }
}

/// The name of the identifier at `pos`, and the position after it.
pub(crate) fn expect_identifier(tokens: &Vec<Token>, pos: usize) -> (r: Result<(String, usize), ParseError>)
    requires
        tokens_wf(tokens@),
        pos < tokens@.len(),
    ensures
        r is Ok <==> tokens@[pos as int].kind is Identifier,
        r is Ok ==> r->Ok_0.0 == tokens@[pos as int].kind->Identifier_0 && r->Ok_0.1 == pos + 1 && pos + 1 < tokens@.len(),
        r is Err ==> r->Err_0.text() == error_text(tokens@, pos as int, "expected identifier"@),
{
    match &tokens[pos].kind {
        TokenKind::Identifier(name) => Ok((name.clone(), pos + 1)),
        _ => Err(error_at(tokens, pos, "expected identifier")),
    }
}

/// The position past any semicolons at `p`.
pub open spec fn skip_at(ts: Seq<Token>, p: int) -> int
    decreases ts.len() - p,
{
    if 0 <= p < ts.len() && ts[p].kind is Semicolon {
        skip_at(ts, p + 1)
    } else {
        p
    }
}

/// Past any semicolons at `pos`.
pub(crate) fn skip_semicolons(tokens: &Vec<Token>, pos: usize) -> (p: usize)
    requires
        tokens_wf(tokens@),
        pos < tokens@.len(),
    ensures
        pos <= p < tokens@.len(),
        !(tokens@[p as int].kind is Semicolon),
        p == skip_at(tokens@, pos as int),
{
    let mut p = pos;
    while matches!(tokens[p].kind, TokenKind::Semicolon)
        invariant
            tokens_wf(tokens@),
            pos <= p < tokens@.len(),
            skip_at(tokens@, pos as int) == skip_at(tokens@, p as int),
        decreases tokens@.len() - p,
    {
        p = p + 1;
    }
    p
}

/// Whether a kind can begin a type.
pub open spec fn type_start(kind: TokenKind) -> bool {
    kind is LeftBracket || kind is MapKeyword || kind is Chan || kind is Interface || kind is Identifier
}

/// Whether the token at `pos` can begin a type.
pub(crate) fn at_type_start(tokens: &Vec<Token>, pos: usize) -> (r: bool)
    requires
        pos < tokens@.len(),
    ensures
        r == type_start(tokens@[pos as int].kind),
{
    matches!(tokens[pos].kind, TokenKind::LeftBracket | TokenKind::MapKeyword | TokenKind::Chan | TokenKind::Interface | TokenKind::Identifier(_))
}

/// The type written at `pos` and the position after it, or the message of
/// why there is none: `[]T`, `map[K]V`, `chan T`, `interface{}` or a name.
pub open spec fn type_at(ts: Seq<Token>, pos: int) -> Result<(TypeRef, int), Seq<char>>
    decreases ts.len() - pos,
{
    if pos < 0 || pos + 1 >= ts.len() {
        Err(error_text(ts, pos, "expected type"@))
    } else {
        match ts[pos].kind {
            TokenKind::LeftBracket => if ts[pos + 1].kind is RightBracket {
                match type_at(ts, pos + 2) {
                    Ok((element, end)) => Ok((TypeRef::Slice(Box::new(element)), end)),
                    Err(e) => Err(e),
                }
            } else {
                Err(error_text(ts, pos + 1, expected_text(TokenKind::RightBracket)))
            },
            TokenKind::MapKeyword => if ts[pos + 1].kind is LeftBracket {
                match type_at(ts, pos + 2) {
                    Ok((key, key_end)) => if key_end <= pos || key_end >= ts.len() {
                        Err(seq![])
                    } else if ts[key_end].kind is RightBracket {
                        match type_at(ts, key_end + 1) {
                            Ok((value, end)) => Ok((TypeRef::Mapping { key: Box::new(key), value: Box::new(value) }, end)),
                            Err(e) => Err(e),
                        }
                    } else {
                        Err(error_text(ts, key_end, expected_text(TokenKind::RightBracket)))
                    },
                    Err(e) => Err(e),
                }
            } else {
                Err(error_text(ts, pos + 1, expected_text(TokenKind::LeftBracket)))
            },
            TokenKind::Chan => match type_at(ts, pos + 1) {
                Ok((element, end)) => Ok((TypeRef::Chan(Box::new(element)), end)),
                Err(e) => Err(e),
            },
            TokenKind::Interface => if !(ts[pos + 1].kind is LeftBrace) {
                Err(error_text(ts, pos + 1, expected_text(TokenKind::LeftBrace)))
            } else if !(ts[pos + 2].kind is RightBrace) {
                Err(error_text(ts, pos + 2, expected_text(TokenKind::RightBrace)))
            } else {
                Ok((TypeRef::Interface, pos + 3))
            },
            TokenKind::Identifier(name) => Ok((TypeRef::Named(name), pos + 1)),
            _ => Err(error_text(ts, pos, "expected type"@)),
        }
    }
}

pub proof fn lemma_type_at_advances(ts: Seq<Token>, pos: int)
    requires
        tokens_wf(ts),
        0 <= pos < ts.len(),
    ensures
        type_at(ts, pos) matches Ok((_, end)) ==> pos < end < ts.len(),
    decreases ts.len() - pos,
{
    if pos + 1 < ts.len() {
        match ts[pos].kind {
            TokenKind::LeftBracket => {
                if ts[pos + 1].kind is RightBracket {
                    lemma_type_at_advances(ts, pos + 2);
                }
            },
            TokenKind::MapKeyword => {
                if ts[pos + 1].kind is LeftBracket {
                    lemma_type_at_advances(ts, pos + 2);
                    if let Ok((_, key_end)) = type_at(ts, pos + 2) {
                        if pos < key_end < ts.len() && ts[key_end].kind is RightBracket {
                            lemma_type_at_advances(ts, key_end + 1);
                        }
                    }
                }
            },
            TokenKind::Chan => {
                lemma_type_at_advances(ts, pos + 1);
            },
            _ => {},
        }
    }
}

/// The type written at `pos` and the position after it.
pub(crate) fn parse_type(tokens: &Vec<Token>, pos: usize) -> (r: Result<(TypeRef, usize), ParseError>)
    requires
        tokens_wf(tokens@),
        pos < tokens@.len(),
    ensures
        match type_at(tokens@, pos as int) {
            Ok((t, end)) => r is Ok && r->Ok_0.0 == t && r->Ok_0.1 == end,
            Err(message) => r is Err && r->Err_0.text() == message,
        },
        r is Ok ==> pos < r->Ok_0.1 < tokens@.len(),
    decreases tokens@.len() - pos,
{
    proof {
        lemma_type_at_advances(tokens@, pos as int);
    }
    if pos + 1 >= tokens.len() {
        return Err(error_at(tokens, pos, "expected type"));
    }
    match &tokens[pos].kind {
        TokenKind::LeftBracket => {
            let p = expect(tokens, pos + 1, TokenKind::RightBracket)?;
            let (element, end) = parse_type(tokens, p)?;
            Ok((TypeRef::Slice(Box::new(element)), end))
        },
        TokenKind::MapKeyword => {
            let p = expect(tokens, pos + 1, TokenKind::LeftBracket)?;
            let (key, key_end) = parse_type(tokens, p)?;
            let q = expect(tokens, key_end, TokenKind::RightBracket)?;
            let (value, end) = parse_type(tokens, q)?;
            Ok((TypeRef::Mapping { key: Box::new(key), value: Box::new(value) }, end))
        },
        TokenKind::Chan => {
            let (element, end) = parse_type(tokens, pos + 1)?;
            Ok((TypeRef::Chan(Box::new(element)), end))
        },
        TokenKind::Interface => {
            let p = expect(tokens, pos + 1, TokenKind::LeftBrace)?;
            let q = expect(tokens, p, TokenKind::RightBrace)?;
            Ok((TypeRef::Interface, q))
        },
        TokenKind::Identifier(name) => Ok((TypeRef::Named(name.clone()), pos + 1)),
        _ => Err(error_at(tokens, pos, "expected type")),
    }
}

/// A source file as a mathematical value.
pub struct SourceView {
    pub package_name: String,
    pub imports: Seq<ImportView>,
    pub functions: Seq<FunctionView>,
}

pub open spec fn source_view(ast: SourceFileAst) -> SourceView {
    SourceView {
        package_name: ast.package_name,
        imports: ast.imports@.map_values(|d: ImportDecl| import_view(d)),
        functions: ast.functions@.map_values(|f: FunctionDecl| function_view(f)),
    }
}

/// The import declarations from `p` on, after those already read, and the
/// position after them.
#[verifier::opaque]
pub open spec fn imports_rest(ts: Seq<Token>, imports: Seq<ImportView>, p: int) -> Result<
    (Seq<ImportView>, int),
    Seq<char>,
>
    decreases ts.len() - p,
{
    if p < 0 || p >= ts.len() {
        Err(seq![])
    } else if ts[p].kind is Import {
        match import_at(ts, p) {
            Ok((i, next)) => {
                let q = skip_at(ts, next);
                if p < q < ts.len() {
                    imports_rest(ts, imports.push(i), q)
                } else {
                    Err(seq![])
                }
            },
            Err(m) => Err(m),
        }
    } else {
        Ok((imports, p))
    }
}

/// The function declarations from `p` up to the end, after those already
/// read.
#[verifier::opaque]
pub open spec fn functions_rest(ts: Seq<Token>, functions: Seq<FunctionView>, p: int) -> Result<
    Seq<FunctionView>,
    Seq<char>,
>
    decreases ts.len() - p,
{
    if p < 0 || p >= ts.len() {
        Err(seq![])
    } else if ts[p].kind is Eof {
        Ok(functions)
    } else {
        match function_at(ts, p) {
            Ok((f, next)) => {
                let q = skip_at(ts, next);
                if p < q < ts.len() {
                    functions_rest(ts, functions.push(f), q)
                } else {
                    Err(seq![])
                }
            },
            Err(m) => Err(m),
        }
    }
}

/// A source file: the package clause, the imports, then the function
/// declarations up to the end.
#[verifier::opaque]
pub open spec fn source_file_at(ts: Seq<Token>) -> Result<SourceView, Seq<char>> {
    match expect_at(ts, 0, TokenKind::Package) {
        Err(m) => Err(m),
        Ok(p) => if !(p < ts.len()) {
            Err(seq![])
        } else if !(ts[p].kind is Identifier) {
            Err(error_text(ts, p, "expected identifier"@))
        } else {
            let q = skip_at(ts, p + 1);
            if !(p < q < ts.len()) {
                Err(seq![])
            } else {
                match imports_rest(ts, seq![], q) {
                    Ok((imports, r)) => if !(0 <= r < ts.len()) {
                        Err(seq![])
                    } else {
                        match functions_rest(ts, seq![], r) {
                            Ok(functions) => Ok(SourceView { package_name: ts[p].kind->Identifier_0, imports, functions }),
                            Err(m) => Err(m),
                        }
                    },
                    Err(m) => Err(m),
                }
            }
        },
    }
}

/// The import declarations from `p` on.
fn parse_imports_rest(tokens: &Vec<Token>, imports: Vec<ImportDecl>, p: usize) -> (r: Result<
    (Vec<ImportDecl>, usize),
    ParseError,
>)
    requires
        tokens_wf(tokens@),
        p < tokens@.len(),
    ensures
        match imports_rest(tokens@, imports@.map_values(|d: ImportDecl| import_view(d)), p as int) {
            Ok((v, end)) => r is Ok && r->Ok_0.0@.map_values(|d: ImportDecl| import_view(d)) == v && r->Ok_0.1 == end,
            Err(m) => r is Err && r->Err_0.text() == m,
        },
        r is Ok ==> p <= r->Ok_0.1 < tokens@.len(),
    decreases tokens@.len() - p,
{
    proof {
        reveal(imports_rest);
    }
    if !at_kind(tokens, p, TokenKind::Import) {
        return Ok((imports, p));
    }
    let (import, next) = parse_import(tokens, p)?;
    let mut imports = imports;
    let ghost before = imports@;
    imports.push(import);
    assert(imports@.map_values(|d: ImportDecl| import_view(d)) =~= before.map_values(|d: ImportDecl| import_view(d)).push(
        import_view(import),
    ));
    let q = skip_semicolons(tokens, next);
    parse_imports_rest(tokens, imports, q)
}

/// The function declarations from `p` up to the end.
fn parse_functions_rest(tokens: &Vec<Token>, functions: Vec<FunctionDecl>, p: usize) -> (r: Result<
    Vec<FunctionDecl>,
    ParseError,
>)
    requires
        tokens_wf(tokens@),
        p < tokens@.len(),
        forall|i: int| 0 <= i < functions@.len() ==> #[trigger] block_renders(functions@[i].body.statements@),
    ensures
        match functions_rest(tokens@, functions@.map_values(|f: FunctionDecl| function_view(f)), p as int) {
            Ok(v) => r is Ok && r->Ok_0@.map_values(|f: FunctionDecl| function_view(f)) == v,
            Err(m) => r is Err && r->Err_0.text() == m,
        },
        r is Ok ==> forall|i: int| 0 <= i < r->Ok_0@.len() ==> #[trigger] block_renders(r->Ok_0@[i].body.statements@),
    decreases tokens@.len() - p,
{
    proof {
        reveal(functions_rest);
    }
    if at_kind(tokens, p, TokenKind::Eof) {
        return Ok(functions);
    }
    let (function, next) = parse_function(tokens, p)?;
    let mut functions = functions;
    let ghost before = functions@;
    functions.push(function);
    assert(functions@.map_values(|f: FunctionDecl| function_view(f)) =~= before.map_values(
        |f: FunctionDecl| function_view(f),
    ).push(function_view(function)));
    assert forall|i: int| 0 <= i < functions@.len() implies #[trigger] block_renders(functions@[i].body.statements@) by {
        if i < before.len() {
            assert(functions@[i] == before[i]);
        }
    }
    let q = skip_semicolons(tokens, next);
    parse_functions_rest(tokens, functions, q)
}

/// The syntax tree of a token sequence: the package clause, the imports,
/// then the function declarations.
pub fn parse_source_file(tokens: &Vec<Token>) -> (r: Result<SourceFileAst, ParseError>)
    requires
        ends_with_eof(tokens@),
    ensures
        match source_file_at(tokens@) {
            Ok(v) => r is Ok && source_view(r->Ok_0) == v,
            Err(m) => r is Err && r->Err_0.text() == m,
        },
        r is Ok ==> source_renders(r->Ok_0),
{
    let count: usize = tokens.len();
    proof {
        reveal(source_file_at);
        assert(count <= usize::MAX);
        assert(tokens_wf(tokens@));
    }
    let p = expect(tokens, 0, TokenKind::Package)?;
    let (package_name, q) = expect_identifier(tokens, p)?;
    let q = skip_semicolons(tokens, q);
    let no_imports: Vec<ImportDecl> = Vec::new();
    let no_functions: Vec<FunctionDecl> = Vec::new();
    proof {
        assert(no_imports@.map_values(|d: ImportDecl| import_view(d)) =~= Seq::<ImportView>::empty());
        assert(no_functions@.map_values(|f: FunctionDecl| function_view(f)) =~= Seq::<FunctionView>::empty());
    }
    let (imports, r) = parse_imports_rest(tokens, no_imports, q)?;
    let functions = parse_functions_rest(tokens, no_functions, r)?;
    Ok(SourceFileAst { package_name, imports, functions })
}

/// What the lexer returns is what the parser reads: every token list it
/// produces ends with `Eof`.
pub proof fn law_lexed_tokens_can_be_parsed(chars: Seq<char>, tokens: Seq<Token>)
    requires
        lex_text(chars) is Ok,
        tokens_are(tokens, lex_text(chars)->Ok_0),
    ensures
        ends_with_eof(tokens),
{
    law_tokens_end_with_eof(chars, 0, 1, 1, false);
    let s = lex_text(chars)->Ok_0;
    assert(token_is(tokens[s.len() - 1], s[s.len() - 1]));
}

} // verus!
