//! Running a command of the command line on a source file that has been
//! read: checking it, listing its tokens, printing its syntax tree, or
//! running a compiled program.

use vstd::prelude::*;

use crate::bytecode::instruction::Program;
use crate::cli::Command;
use crate::frontend::ast::{source_renders, source_text, SourceFileAst};
use crate::frontend::lexer::{lex, lex_text, token_is, tokens_are, Lexed, Lexeme};
use crate::frontend::parser::{law_lexed_tokens_can_be_parsed, parse_source_file, source_file_at, source_view};
use crate::frontend::token::{pad_left4, pad_right4, token_kind_text, token_text, Token};
use crate::runtime::vm::{error_text as vm_error_text, run_outcome, ExecutionResult, RuntimeError, VirtualMachine};
use crate::source::SourceFile;
use crate::text::{bool_text, int_text, nat_text, push_str, quoted_text};

verus! {

/// Why a command failed, by the stage that failed.
#[derive(Clone, Debug, PartialEq, Eq)]
pub enum DriverError {
    Usage(String),
    Io(String),
    Lex(String),
    Parse(String),
    Compile(String),
    Runtime(String),
}

/// The message of a driver error.
pub open spec fn driver_error_text(e: DriverError) -> Seq<char> {
    match e {
        DriverError::Usage(m) => m@,
        DriverError::Io(m) => m@,
        DriverError::Lex(m) => m@,
        DriverError::Parse(m) => m@,
        DriverError::Compile(m) => m@,
        DriverError::Runtime(m) => m@,
    }
}

impl DriverError {
    /// The message, whatever the stage.
    pub fn to_string(&self) -> (s: String)
        ensures
            s@ == driver_error_text(*self),
    {
        match self {
            DriverError::Usage(m) => m.clone(),
            DriverError::Io(m) => m.clone(),
            DriverError::Lex(m) => m.clone(),
            DriverError::Parse(m) => m.clone(),
            DriverError::Compile(m) => m.clone(),
            DriverError::Runtime(m) => m.clone(),
        }
    }
}

/// How a lexeme is listed: like the token it describes.
pub open spec fn lexeme_text(l: Lexeme) -> Seq<char> {
    match l {
        Lexeme::Fixed(k) => token_kind_text(k),
        Lexeme::Word(w) => "identifier("@ + w + ")"@,
        Lexeme::Text(t) => "string("@ + quoted_text(t) + ")"@,
        Lexeme::Number(n) => "integer("@ + int_text(n) + ")"@,
        Lexeme::Truth(b) => "bool("@ + bool_text(b) + ")"@,
    }
}

/// The listing line of a lexeme at its place.
pub open spec fn lexed_line(l: Lexed) -> Seq<char> {
    pad_left4(nat_text(l.line)) + ":"@ + pad_right4(nat_text(l.column)) + " "@ + lexeme_text(l.lexeme)
}

/// The token listing of a source: one line per token, each ending with a
/// line break.
pub open spec fn listing(ls: Seq<Lexed>) -> Seq<char>
    decreases ls.len(),
{
    if ls.len() == 0 {
        Seq::empty()
    } else {
        listing(ls.drop_last()) + lexed_line(ls.last()) + "\n"@
    }
}

proof fn lemma_token_line(t: Token, l: Lexed)
    requires
        token_is(t, l),
    ensures
        token_text(t) == lexed_line(l),
{
}

/// The message that `check` prints for a file that reads.
pub open spec fn check_text(path: Seq<char>) -> Seq<char> {
    "ok: "@ + path + "\n"@
}

/// The tokens of a source, or its lexing error as a driver error.
fn tokens_of(source: &SourceFile) -> (r: Result<Vec<Token>, DriverError>)
    requires
        source.contents@.len() < usize::MAX,
    ensures
        match lex_text(source.contents@) {
            Ok(expected) => r is Ok && tokens_are(r->Ok_0@, expected),
            Err(message) => r matches Err(DriverError::Lex(m)) && m@ == message,
        },
{
    match lex(source) {
        Ok(tokens) => Ok(tokens),
        Err(error) => Err(DriverError::Lex(error.to_string())),
    }
}

/// Whether `r` is what parsing the tokens `ts` gives: the tree whose value
/// the grammar states, or its parse error.
pub open spec fn parse_outcome(ts: Seq<Token>, r: Result<SourceFileAst, DriverError>) -> bool {
    match source_file_at(ts) {
        Ok(v) => r is Ok && source_view(r->Ok_0) == v && source_renders(r->Ok_0),
        Err(m) => r matches Err(DriverError::Parse(t)) && t@ == m,
    }
}

/// Whether `r` is what `check` prints for the tokens `ts` of the file at
/// `path`: `ok: <path>` when they parse, the parse error when not.
pub open spec fn check_outcome(ts: Seq<Token>, path: Seq<char>, r: Result<String, DriverError>) -> bool {
    match source_file_at(ts) {
        Ok(_) => r matches Ok(text) && text@ == check_text(path),
        Err(m) => r matches Err(DriverError::Parse(t)) && t@ == m,
    }
}

/// Whether `r` is what `dump-ast` prints for the tokens `ts`: the text of a
/// tree whose value the grammar states, or the parse error.
pub open spec fn dump_outcome(ts: Seq<Token>, r: Result<String, DriverError>) -> bool {
    match source_file_at(ts) {
        Ok(v) => r matches Ok(text) && exists|ast: SourceFileAst|
            source_view(ast) == v && source_renders(ast) && text@ == #[trigger] source_text(ast),
        Err(m) => r matches Err(DriverError::Parse(t)) && t@ == m,
    }
}

/// The syntax tree of a source, or its lexing or parsing error.
fn syntax_of(source: &SourceFile) -> (r: Result<SourceFileAst, DriverError>)
    requires
        source.contents@.len() < usize::MAX,
    ensures
        match lex_text(source.contents@) {
            Err(message) => r matches Err(DriverError::Lex(m)) && m@ == message,
            Ok(lexed) => exists|ts: Seq<Token>| tokens_are(ts, lexed) && #[trigger] parse_outcome(ts, r),
        },
{
    let tokens = tokens_of(source)?;
    proof {
        law_lexed_tokens_can_be_parsed(source.contents@, tokens@);
    }
    let r = match parse_source_file(&tokens) {
        Ok(ast) => Ok(ast),
        Err(error) => Err(DriverError::Parse(error.to_string())),
    };
    assert(parse_outcome(tokens@, r));
    r
}

/// `check`: whether the source lexes and parses; `ok: <path>` when it does.
pub fn check_source(source: &SourceFile) -> (r: Result<String, DriverError>)
    requires
        source.contents@.len() < usize::MAX,
    ensures
        match lex_text(source.contents@) {
            Err(message) => r matches Err(DriverError::Lex(m)) && m@ == message,
            Ok(lexed) => exists|ts: Seq<Token>| tokens_are(ts, lexed) && #[trigger] check_outcome(ts, source.path@, r),
        },
{
    let parsed = syntax_of(source);
    let ghost ts = choose|ts: Seq<Token>| tokens_are(ts, lex_text(source.contents@)->Ok_0) && #[trigger] parse_outcome(ts, parsed);
    match parsed {
        Ok(_) => {},
        Err(e) => {
            assert(lex_text(source.contents@) is Ok ==> check_outcome(ts, source.path@, Err(e)));
            return Err(e);
        },
    }
    let mut text = String::new();
    push_str(&mut text, "ok: ");
    push_str(&mut text, source.path.as_str());
    push_str(&mut text, "\n");
    assert(text@ =~= check_text(source.path@));
    assert(check_outcome(ts, source.path@, Ok(text)));
    Ok(text)
}

/// `dump-tokens`: one line per token, line and column then the kind.
pub fn dump_tokens(source: &SourceFile) -> (r: Result<String, DriverError>)
    requires
        source.contents@.len() < usize::MAX,
    ensures
        match lex_text(source.contents@) {
            Ok(expected) => r matches Ok(text) && text@ == listing(expected),
            Err(message) => r matches Err(DriverError::Lex(m)) && m@ == message,
        },
{
    let tokens = tokens_of(source)?;
    let ghost expected = lex_text(source.contents@)->Ok_0;
    let mut text = String::new();
    let mut i: usize = 0;
    while i < tokens.len()
        invariant
            i <= tokens@.len(),
            tokens_are(tokens@, expected),
            text@ == listing(expected.take(i as int)),
        decreases tokens@.len() - i,
    {
        let line = tokens[i].render();
        push_str(&mut text, line.as_str());
        push_str(&mut text, "\n");
        proof {
            lemma_token_line(tokens@[i as int], expected[i as int]);
            let taken = expected.take(i + 1);
            assert(taken.drop_last() =~= expected.take(i as int));
            assert(taken.last() == expected[i as int]);
        }
        i = i + 1;
        assert(text@ =~= listing(expected.take(i as int)));
    }
    assert(expected.take(i as int) =~= expected);
    Ok(text)
}

/// `dump-ast`: the rendered syntax tree.
pub fn dump_ast(source: &SourceFile) -> (r: Result<String, DriverError>)
    requires
        source.contents@.len() < usize::MAX,
    ensures
        match lex_text(source.contents@) {
            Err(message) => r matches Err(DriverError::Lex(m)) && m@ == message,
            Ok(lexed) => exists|ts: Seq<Token>| tokens_are(ts, lexed) && #[trigger] dump_outcome(ts, r),
        },
{
    let parsed = syntax_of(source);
    let ghost ts = choose|ts: Seq<Token>| tokens_are(ts, lex_text(source.contents@)->Ok_0) && #[trigger] parse_outcome(ts, parsed);
    match parsed {
        Ok(ast) => {
            let text = ast.render();
            assert(dump_outcome(ts, Ok(text)));
            Ok(text)
        },
        Err(e) => {
            assert(lex_text(source.contents@) is Ok ==> dump_outcome(ts, Err(e)));
            Err(e)
        },
    }
}

/// The message for a program that cannot be compiled here.
pub open spec fn no_compiler_text(path: Seq<char>) -> Seq<char> {
    "cannot compile `"@ + path + "`: no type checker is available"@
}

/// Whether `r` is what `run` and `dump-bytecode` give for the tokens `ts` of
/// the file at `path`: the compile error when they parse, the parse error
/// when not.
pub open spec fn compile_outcome(ts: Seq<Token>, path: Seq<char>, r: Result<String, DriverError>) -> bool {
    match source_file_at(ts) {
        Ok(_) => r matches Err(DriverError::Compile(m)) && m@ == no_compiler_text(path),
        Err(m) => r matches Err(DriverError::Parse(t)) && t@ == m,
    }
}

/// Runs `command` on `source`, the contents of the file that the command
/// names. `run` and `dump-bytecode` read the file and then stop: compiling
/// needs a type-checked program, and no type checker is available.
pub fn execute(command: &Command, source: &SourceFile) -> (r: Result<String, DriverError>)
    requires
        source.contents@.len() < usize::MAX,
    ensures
        lex_text(source.contents@) matches Err(message) ==> (r matches Err(DriverError::Lex(m)) && m@ == message),
        command is DumpTokens && lex_text(source.contents@) is Ok ==> (r matches Ok(text) && text@ == listing(
            lex_text(source.contents@)->Ok_0,
        )),
        command is Check && lex_text(source.contents@) is Ok ==> exists|ts: Seq<Token>|
            tokens_are(ts, lex_text(source.contents@)->Ok_0) && #[trigger] check_outcome(ts, source.path@, r),
        command is DumpAst && lex_text(source.contents@) is Ok ==> exists|ts: Seq<Token>|
            tokens_are(ts, lex_text(source.contents@)->Ok_0) && #[trigger] dump_outcome(ts, r),
        (command is Run || command is DumpBytecode) && lex_text(source.contents@) is Ok ==> exists|ts: Seq<Token>|
            tokens_are(ts, lex_text(source.contents@)->Ok_0) && #[trigger] compile_outcome(ts, source.path@, r),
{
    match command {
        Command::Check { .. } => check_source(source),
        Command::DumpTokens { .. } => dump_tokens(source),
        Command::DumpAst { .. } => dump_ast(source),
        Command::Run { .. } | Command::DumpBytecode { .. } => {
            let parsed = syntax_of(source);
            let ghost ts = choose|ts: Seq<Token>|
                tokens_are(ts, lex_text(source.contents@)->Ok_0) && #[trigger] parse_outcome(ts, parsed);
            match parsed {
                Ok(_) => {},
                Err(e) => {
                    assert(lex_text(source.contents@) is Ok ==> compile_outcome(ts, source.path@, Err(e)));
                    return Err(e);
                },
            }
            let mut message = String::new();
            push_str(&mut message, "cannot compile `");
            push_str(&mut message, source.path.as_str());
            push_str(&mut message, "`: no type checker is available");
            assert(message@ =~= no_compiler_text(source.path@));
            let r = Err(DriverError::Compile(message));
            assert(compile_outcome(ts, source.path@, r));
            r
        },
    }
}

/// Runs a compiled program: its output, or its runtime error with the
/// output printed before it.
pub fn run_program(program: &Program) -> (r: Result<String, DriverError>)
    ensures
        program.entry_function_index >= program.functions@.len() ==> (r matches Err(DriverError::Runtime(m))
            && m@ == "entry function index is invalid"@),
        program.entry_function_index < program.functions@.len() ==> exists|vm: VirtualMachine, run: Result<ExecutionResult, RuntimeError>|
            #[trigger] run_outcome(*program, vm, run) && match run {
                Ok(result) => r matches Ok(text) && text@ == result.output@,
                Err(e) => r matches Err(DriverError::Runtime(m)) && m@ == vm_error_text(
                    e.output_view(),
                    e.panicked_view(),
                    e.message_view(),
                ),
            },
{
    let mut vm = VirtualMachine::new();
    let run = vm.execute(program);
    let ghost end_vm = vm;
    let r = match &run {
        Ok(result) => Ok(result.render_output()),
        Err(error) => {
            let text = error.to_string();
            assert(error.output_view().len() == 0 ==> text@ =~= (if error.panicked_view() { "panic: "@ } else { Seq::empty() }) + error.message_view());
            Err(DriverError::Runtime(text))
        },
    };
    assert(program.entry_function_index < program.functions@.len() ==> run_outcome(*program, end_vm, run));
    r
}

} // verus!
