use nova_go::cli::{parse, Command};
use nova_go::config::ExecutionConfig;
use nova_go::driver::{check_source, dump_ast, dump_tokens, execute, DriverError};
use nova_go::source::SourceFile;

fn source(contents: &str) -> SourceFile {
    SourceFile { path: "demo.go".to_string(), contents: contents.to_string() }
}

fn args(words: &[&str]) -> Vec<String> {
    words.iter().map(|word| word.to_string()).collect()
}

#[test]
fn check_reports_ok_with_the_path() {
    assert_eq!(check_source(&source("package main\nfunc main() {}\n")), Ok("ok: demo.go\n".to_string()));
}

#[test]
fn check_reports_lex_and_parse_errors_by_stage() {
    assert_eq!(
        check_source(&source("package main\n#")),
        Err(DriverError::Lex("unexpected character `#` at 2:1".to_string()))
    );
    match check_source(&source("package\n")) {
        Err(DriverError::Parse(message)) => assert!(message.starts_with("expected identifier")),
        other => panic!("expected parse error, got {other:?}"),
    }
}

#[test]
fn dump_tokens_lists_one_token_per_line() {
    assert_eq!(
        dump_tokens(&source("package main\n")),
        Ok("   1:1    package\n   1:9    identifier(main)\n   1:13   ;\n   2:1    <eof>\n".to_string())
    );
}

#[test]
fn dump_ast_renders_the_tree() {
    assert_eq!(
        dump_ast(&source("package main\nfunc main() {\n\tx := []int{1, 2}\n}\n")),
        Ok("package main\nfunc main() {\n    x := []int{1, 2}\n}\n".to_string())
    );
}

#[test]
fn execute_dispatches_on_the_command() {
    let file = source("package main\nfunc main() {}\n");
    let check = Command::Check { path: "demo.go".to_string() };
    assert_eq!(execute(&check, &file), Ok("ok: demo.go\n".to_string()));
    let run = Command::Run { path: "demo.go".to_string(), config: ExecutionConfig::default() };
    assert_eq!(
        execute(&run, &file),
        Err(DriverError::Compile("cannot compile `demo.go`: no type checker is available".to_string()))
    );
    assert_eq!(DriverError::Io("gone".to_string()).to_string(), "gone");
}

#[test]
fn cli_reads_commands_and_entry_options() {
    assert_eq!(parse(args(&["nova-go", "check", "a.go"])), Ok(Command::Check { path: "a.go".to_string() }));
    let run = parse(args(&["nova-go", "run", "a.go", "--entry-function", "start"])).expect("valid command line");
    match run {
        Command::Run { path, config } => {
            assert_eq!(path, "a.go");
            assert_eq!(config.entry_package, "main");
            assert_eq!(config.entry_function, "start");
        }
        other => panic!("expected run, got {other:?}"),
    }
}

#[test]
fn cli_rejects_bad_command_lines() {
    let usage = nova_go::cli::usage("nova-go");
    assert_eq!(parse(args(&["nova-go"])), Err(usage.clone()));
    assert_eq!(parse(args(&["nova-go", "help"])), Err(usage.clone()));
    assert_eq!(parse(args(&["nova-go", "fly", "a.go"])), Err(format!("unknown command `fly`\n\n{usage}")));
    assert_eq!(parse(args(&["nova-go", "check"])), Err(usage.clone()));
    assert_eq!(
        parse(args(&["nova-go", "check", "a.go", "--entry-package", "x"])),
        Err(format!("command `check` does not accept execution overrides\n\n{usage}"))
    );
    assert_eq!(parse(args(&["nova-go", "run", "a.go", "--verbose"])), Err(format!("unknown option `--verbose`\n\n{usage}")));
    assert_eq!(parse(args(&["nova-go", "run", "a.go", "b.go"])), Err(format!("multiple input files provided\n\n{usage}")));
    assert_eq!(
        parse(args(&["nova-go", "run", "a.go", "--entry-function"])),
        Err(format!("missing value for `--entry-function`\n\n{usage}"))
    );
}
