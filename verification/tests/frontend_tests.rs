use nova_go::frontend::ast::{BinaryOperator, Expression, TypeRef};
use nova_go::frontend::lexer::lex;
use nova_go::frontend::parser::parse_source_file;
use nova_go::frontend::token::{Span, Token, TokenKind};
use nova_go::source::SourceFile;

fn source(contents: &str) -> SourceFile {
    SourceFile { path: "test.go".to_string(), contents: contents.to_string() }
}

fn kinds(contents: &str) -> Vec<TokenKind> {
    lex(&source(contents)).expect("lexing should succeed").into_iter().map(|token| token.kind).collect()
}

#[test]
fn lexer_inserts_semicolons_at_statement_ends() {
    assert_eq!(
        kinds("x := 1\ny++\n"),
        vec![
            TokenKind::Identifier("x".to_string()),
            TokenKind::Define,
            TokenKind::Integer(1),
            TokenKind::Semicolon,
            TokenKind::Identifier("y".to_string()),
            TokenKind::PlusPlus,
            TokenKind::Semicolon,
            TokenKind::Eof,
        ]
    );
    assert_eq!(kinds("x +\ny"), vec![
        TokenKind::Identifier("x".to_string()),
        TokenKind::Plus,
        TokenKind::Identifier("y".to_string()),
        TokenKind::Eof,
    ]);
}

#[test]
fn lexer_reads_operators_keywords_and_literals() {
    assert_eq!(
        kinds("<- <= < ... . := : != == += -- map chan interface true nil \"a\\tb\""),
        vec![
            TokenKind::LeftArrow,
            TokenKind::LessEqual,
            TokenKind::Less,
            TokenKind::Ellipsis,
            TokenKind::Dot,
            TokenKind::Define,
            TokenKind::Colon,
            TokenKind::BangEqual,
            TokenKind::EqualEqual,
            TokenKind::PlusAssign,
            TokenKind::MinusMinus,
            TokenKind::MapKeyword,
            TokenKind::Chan,
            TokenKind::Interface,
            TokenKind::Bool(true),
            TokenKind::Nil,
            TokenKind::String("a\tb".to_string()),
            TokenKind::Eof,
        ]
    );
}

#[test]
fn lexer_skips_comments_and_tracks_positions() {
    let tokens = lex(&source("// note\n  x // trailing\ny")).expect("lexing should succeed");
    assert_eq!(tokens[0], Token::new(TokenKind::Identifier("x".to_string()), Span::new(2, 3)));
    assert_eq!(tokens[1], Token::new(TokenKind::Identifier("y".to_string()), Span::new(3, 1)));
    assert_eq!(tokens[2], Token::new(TokenKind::Eof, Span::new(3, 2)));
}

#[test]
fn lexer_reports_each_error_kind() {
    let error = lex(&source("x @ y")).expect_err("unexpected character");
    assert_eq!(error.to_string(), "unexpected character `@` at 1:3");
    let error = lex(&source("\"open\ny")).expect_err("unterminated string");
    assert_eq!(error.to_string(), "unterminated string literal at 1:1");
    let error = lex(&source("  \"a\\q\"")).expect_err("bad escape");
    assert_eq!(error.to_string(), "unsupported escape `\\q` at 1:6");
    let error = lex(&source("99999999999999999999")).expect_err("too large");
    assert_eq!(
        error.to_string(),
        "invalid integer `99999999999999999999` at 1:1: number too large to fit in target type"
    );
    assert_eq!(kinds("9223372036854775807"), vec![TokenKind::Integer(i64::MAX), TokenKind::Eof]);
}

#[test]
fn tokens_render_with_aligned_positions() {
    let token = Token::new(TokenKind::Identifier("main".to_string()), Span::new(3, 12));
    assert_eq!(token.render(), "   3:12   identifier(main)");
    let token = Token::new(TokenKind::String("a\"b".to_string()), Span::new(12345, 1));
    assert_eq!(token.render(), "12345:1    string(\"a\\\"b\")");
    assert_eq!(TokenKind::Eof.render(), "<eof>");
    assert!(TokenKind::RightBracket.can_end_statement());
    assert!(!TokenKind::Comma.can_end_statement());
}

#[test]
fn rendering_a_parsed_file_gives_its_canonical_text() {
    let text = "package main\n\nimport \"fmt\"\n\nfunc add(a, b int) int {\n\treturn a + b * 2\n}\n\nfunc main() {\n\tfor i := 0; i < 3; i++ {\n\t\tif i == 1 {\n\t\t\tcontinue\n\t\t} else if i > 1 {\n\t\t\tbreak\n\t\t} else {\n\t\t\tfmt.Println(add(i, 1))\n\t\t}\n\t}\n\tswitch {\n\tcase true:\n\t\tprintln(\"x\")\n\tdefault:\n\t}\n}\n";
    let tokens = lex(&source(text)).expect("lexing should succeed");
    let ast = parse_source_file(&tokens).expect("parsing should succeed");
    assert_eq!(
        ast.render(),
        "package main\nimport \"fmt\"\nfunc add(a, b int) int {\n    return (a + (b * 2))\n}\nfunc main() {\n    for i := 0; (i < 3); i++ {\n        if (i == 1) {\n            continue\n        }\n        else if (i > 1) {\n            break\n        }\n        else {\n            fmt.Println(add(i, 1))\n        }\n    }\n    switch {\n        case true:\n            println(\"x\")\n        default:\n    }\n}\n"
    );
}

#[test]
fn expressions_and_types_render_as_written() {
    let binary = Expression::Binary {
        left: Box::new(Expression::Integer(-3)),
        operator: BinaryOperator::LessEqual,
        right: Box::new(Expression::Nil),
    };
    assert_eq!(binary.render(), "(-3 <= nil)");
    assert_eq!(BinaryOperator::NotEqual.render(), "!=");
    let map_type = TypeRef::Mapping {
        key: Box::new(TypeRef::Named("string".to_string())),
        value: Box::new(TypeRef::Slice(Box::new(TypeRef::Chan(Box::new(TypeRef::Interface))))),
    };
    assert_eq!(map_type.render(), "map[string][]chan interface{}");
}

#[test]
fn parser_rejects_malformed_files() {
    let parse = |text: &str| {
        let tokens = lex(&source(text)).expect("lexing should succeed");
        parse_source_file(&tokens).expect_err("parsing should fail").to_string()
    };
    assert_eq!(parse("func main() {}"), "expected `package` at 1:1 (found `func`)");
    assert_eq!(parse("package main\nfunc main() {\n"), "unexpected end of file inside block at 3:1 (found `<eof>`)");
    assert!(parse("package main\nfunc main() {\n\tvar x\n}\n").contains("variable declaration requires a type or initializer"));
    assert!(parse("package main\nfunc main() {\n\tx := y[1:2:3]\n}\n").contains("full slice expressions are not supported"));
    assert!(parse("package main\nfunc main() {\n\tbreak outer\n}\n").contains("labeled `break` statements are not supported"));
    assert!(parse("package main\nfunc main() {\n\tswitch x {\n\tfoo\n\t}\n}\n").contains("expected `case` or `default` in switch body"));
    assert!(parse("package main\nfunc main() {\n\tswitch _ := v.(type) {\n\t}\n}\n").contains("type switch guard requires a named identifier before `:=`"));
}
