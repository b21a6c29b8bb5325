use nova_go::frontend::ast::{
    Expression, HeaderStatement, ImportDecl, Statement, TypeRef, TypeSwitchCase, TypeSwitchClause,
};
use nova_go::frontend::ast::SourceFileAst;
use nova_go::frontend::lexer::lex;
use nova_go::frontend::parser::{parse_source_file, ParseError};
use nova_go::source::SourceFile;

fn parse(contents: &str) -> Result<SourceFileAst, ParseError> {
    let source = SourceFile { path: "grammar.go".into(), contents: contents.to_string() };
    let tokens = lex(&source).expect("lexing should succeed");
    parse_source_file(&tokens)
}

fn parse_error(contents: &str) -> String {
    parse(contents).expect_err("parsing should fail").to_string()
}

#[test]
fn type_switch_with_header_binding_and_case_lists() {
    let ast = parse(
        "package main\n\nfunc main() {\n\tswitch n := 1; x := v.(type) {\n\tcase int, string:\n\t\tprintln(x)\n\tcase nil:\n\tdefault:\n\t\tprintln(n)\n\t}\n}\n",
    )
    .expect("parsing should succeed");
    match &ast.functions[0].body.statements[0] {
        Statement::TypeSwitch(ts) => {
            assert!(matches!(ts.header, Some(HeaderStatement::ShortVarDecl { .. })));
            assert_eq!(ts.guard.binding, Some("x".to_string()));
            assert_eq!(ts.guard.expression, Expression::Identifier("v".to_string()));
            assert_eq!(ts.clauses.len(), 3);
            match &ts.clauses[0] {
                TypeSwitchClause::Case { cases, body } => {
                    assert_eq!(
                        cases,
                        &vec![
                            TypeSwitchCase::Type(TypeRef::Named("int".to_string())),
                            TypeSwitchCase::Type(TypeRef::Named("string".to_string())),
                        ]
                    );
                    assert_eq!(body.statements.len(), 1);
                }
                _ => panic!("expected a case clause"),
            }
            match &ts.clauses[1] {
                TypeSwitchClause::Case { cases, body } => {
                    assert_eq!(cases, &vec![TypeSwitchCase::Nil]);
                    assert!(body.statements.is_empty());
                }
                _ => panic!("expected a case clause"),
            }
            assert!(matches!(&ts.clauses[2], TypeSwitchClause::Default(body) if body.statements.len() == 1));
        }
        _ => panic!("expected a type switch"),
    }
}

#[test]
fn type_switch_guard_on_a_selector_without_binding() {
    let ast = parse("package main\n\nfunc main() {\n\tswitch box.value.(type) {\n\t}\n}\n")
        .expect("parsing should succeed");
    match &ast.functions[0].body.statements[0] {
        Statement::TypeSwitch(ts) => {
            assert_eq!(ts.header, None);
            assert_eq!(ts.guard.binding, None);
            assert!(matches!(&ts.guard.expression, Expression::Selector { member, .. } if member == "value"));
            assert!(ts.clauses.is_empty());
        }
        _ => panic!("expected a type switch"),
    }
}

#[test]
fn type_switch_guard_rejects_blank_binding() {
    assert_eq!(
        parse_error("package main\n\nfunc main() {\n\tswitch _ := v.(type) {\n\t}\n}\n"),
        "type switch guard requires a named identifier before `:=`"
    );
}

#[test]
fn type_switch_clause_must_start_with_case_or_default() {
    let message = parse_error("package main\n\nfunc main() {\n\tswitch v.(type) {\n\tprintln(1)\n\t}\n}\n");
    assert_eq!(message, "expected `case` or `default` in type switch body at 5:2 (found `identifier(println)`)");
}

#[test]
fn type_switch_case_needs_a_type_or_nil() {
    let message = parse_error("package main\n\nfunc main() {\n\tswitch v.(type) {\n\tcase 1:\n\t}\n}\n");
    assert_eq!(message, "type switch case requires a type or `nil` at 5:7 (found `integer(1)`)");
}

#[test]
fn labeled_break_and_continue_are_rejected() {
    let message = parse_error("package main\n\nfunc main() {\n\tfor {\n\t\tbreak outer\n\t}\n}\n");
    assert_eq!(message, "labeled `break` statements are not supported at 5:9 (found `identifier(outer)`)");
    let message = parse_error("package main\n\nfunc main() {\n\tfor {\n\t\tcontinue outer\n\t}\n}\n");
    assert_eq!(message, "labeled `continue` statements are not supported at 5:12 (found `identifier(outer)`)");
}

#[test]
fn missing_package_clause_is_reported_at_the_first_token() {
    assert_eq!(parse_error("func main() {\n}\n"), "expected `package` at 1:1 (found `func`)");
}

#[test]
fn unterminated_block_is_reported_at_end_of_file() {
    let message = parse_error("package main\n\nfunc main() {\n\tprintln(1)\n");
    assert!(message.starts_with("unexpected end of file inside block at "));
}

#[test]
fn for_post_statement_rejects_short_declaration() {
    let message = parse_error("package main\n\nfunc main() {\n\tfor i := 0; i < 3; j := i {\n\t}\n}\n");
    assert!(message.starts_with("for post statement does not support `:=` at 4:26 (found `identifier(i)`)"));
}

#[test]
fn single_import_with_and_without_alias() {
    let ast = parse("package main\n\nimport \"strings\"\nimport b \"bytes\"\n\nfunc main() {\n}\n")
        .expect("parsing should succeed");
    assert_eq!(ast.imports.len(), 2);
    match &ast.imports[0] {
        ImportDecl::Single(spec) => {
            assert_eq!(spec.binding, None);
            assert_eq!(spec.path, "strings");
        }
        _ => panic!("expected a single import"),
    }
    match &ast.imports[1] {
        ImportDecl::Single(spec) => {
            assert_eq!(spec.binding, Some("b".to_string()));
            assert_eq!(spec.path, "bytes");
        }
        _ => panic!("expected a single import"),
    }
}

#[test]
fn import_needs_a_path() {
    let message = parse_error("package main\n\nimport fmt\n\nfunc main() {\n}\n");
    assert!(message.starts_with("expected import path at 3:"));
}

#[test]
fn single_result_type_without_parentheses() {
    let ast = parse("package main\n\nfunc one() int {\n\treturn 1\n}\n").expect("parsing should succeed");
    let function = &ast.functions[0];
    assert_eq!(function.results.len(), 1);
    assert!(function.results[0].names.is_empty());
    assert_eq!(function.results[0].type_ref, TypeRef::Named("int".to_string()));
    assert!(matches!(&function.body.statements[0], Statement::Return(values) if values.len() == 1));
}

#[test]
fn variadic_after_pending_names_is_rejected() {
    assert_eq!(
        parse_error("package main\n\nfunc f(a, b ...int) {\n}\n"),
        "can only use `...` with one final parameter"
    );
}

#[test]
fn unnamed_parameters_each_form_a_group() {
    let ast = parse("package main\n\nfunc f(int, string) {\n}\n").expect("parsing should succeed");
    let parameters = &ast.functions[0].parameters;
    assert_eq!(parameters.len(), 2);
    assert!(parameters[0].names.is_empty());
    assert_eq!(parameters[1].type_ref, TypeRef::Named("string".to_string()));
}

#[test]
fn multi_binding_without_assignment_is_rejected() {
    let message = parse_error("package main\n\nfunc main() {\n\ta, b\n}\n");
    assert!(message.starts_with("multi-binding statement requires `:=` or `=` after the left side at 4:6"));
}
