//! The command line: a command name, one input file, and for the commands
//! that run code, options naming the entry point.

use vstd::prelude::*;

use crate::config::ExecutionConfig;
use crate::text::{chars_of, push_str, text_is};

verus! {

/// What the command line asks for.
#[derive(Clone, Debug, PartialEq, Eq)]
pub enum Command {
    Check { path: String },
    Run { path: String, config: ExecutionConfig },
    DumpTokens { path: String },
    DumpAst { path: String },
    DumpBytecode { path: String, config: ExecutionConfig },
}

/// The input file that a command names.
pub open spec fn command_path(command: Command) -> String {
    match command {
        Command::Check { path } => path,
        Command::Run { path, .. } => path,
        Command::DumpTokens { path } => path,
        Command::DumpAst { path } => path,
        Command::DumpBytecode { path, .. } => path,
    }
}

impl Command {
    /// The input file that this command names.
    pub fn path(&self) -> (path: &String)
        ensures
            *path == command_path(*self),
    {
        match self {
            Command::Check { path } => path,
            Command::Run { path, .. } => path,
            Command::DumpTokens { path } => path,
            Command::DumpAst { path } => path,
            Command::DumpBytecode { path, .. } => path,
        }
    }
}

/// The usage text, naming the program as `binary`.
pub open spec fn usage_text(binary: Seq<char>) -> Seq<char> {
    "Usage:\n  "@ + binary + " check <file>\n  "@ + binary
        + " run <file> [--entry-package <name>] [--entry-function <name>]\n  "@ + binary
        + " dump-tokens <file>\n  "@ + binary + " dump-ast <file>\n  "@ + binary
        + " dump-bytecode <file> [--entry-package <name>] [--entry-function <name>]"@
}

/// The usage text.
pub fn usage(binary: &str) -> (text: String)
    ensures
        text@ == usage_text(binary@),
{
    let mut text = String::new();
    push_str(&mut text, "Usage:\n  ");
    push_str(&mut text, binary);
    push_str(&mut text, " check <file>\n  ");
    push_str(&mut text, binary);
    push_str(&mut text, " run <file> [--entry-package <name>] [--entry-function <name>]\n  ");
    push_str(&mut text, binary);
    push_str(&mut text, " dump-tokens <file>\n  ");
    push_str(&mut text, binary);
    push_str(&mut text, " dump-ast <file>\n  ");
    push_str(&mut text, binary);
    push_str(&mut text, " dump-bytecode <file> [--entry-package <name>] [--entry-function <name>]");
    text
}

/// Whether a string begins with `-`.
fn starts_with_dash(s: &String) -> (r: bool)
    ensures
        r == (s@.len() > 0 && s@[0] == '-'),
{
    let chars = chars_of(s.as_str());
    chars.len() > 0 && chars[0] == '-'
}

/// The outcome of reading the arguments after the command: the input
/// file, the entry package and the entry function, or an error message.
pub open spec fn scan_options(
    binary: Seq<char>,
    command: Seq<char>,
    args: Seq<Seq<char>>,
    i: int,
    allow_config: bool,
    path: Option<Seq<char>>,
    package: Seq<char>,
    function: Seq<char>,
) -> Result<(Option<Seq<char>>, Seq<char>, Seq<char>), Seq<char>>
    decreases args.len() - i,
{
    if i >= args.len() || i < 0 {
        Ok((path, package, function))
    } else {
        let arg = args[i];
        if (arg == "--entry-package"@ || arg == "--entry-function"@) && allow_config {
            if i + 1 >= args.len() {
                Err("missing value for `"@ + arg + "`\n\n"@ + usage_text(binary))
            } else if arg == "--entry-package"@ {
                scan_options(binary, command, args, i + 2, allow_config, path, args[i + 1], function)
            } else {
                scan_options(binary, command, args, i + 2, allow_config, path, package, args[i + 1])
            }
        } else if arg == "--entry-package"@ || arg == "--entry-function"@ {
            Err("command `"@ + command + "` does not accept execution overrides\n\n"@ + usage_text(binary))
        } else if arg.len() > 0 && arg[0] == '-' {
            Err("unknown option `"@ + arg + "`\n\n"@ + usage_text(binary))
        } else if path is Some {
            Err("multiple input files provided\n\n"@ + usage_text(binary))
        } else {
            scan_options(binary, command, args, i + 1, allow_config, Some(arg), package, function)
        }
    }
}

/// The texts of a list of strings.
pub open spec fn texts(args: Seq<String>) -> Seq<Seq<char>> {
    args.map_values(|a: String| a@)
}

/// Reads the input file and, where `allow_config`, the entry options that
/// follow a command; without an input file the result is the usage text.
pub fn parse_path_and_config(binary: &str, command: &String, args: &Vec<String>, allow_config: bool) -> (r: Result<(String, ExecutionConfig), String>)
    ensures
        ({
            let outcome = scan_options(binary@, command@, texts(args@), 0, allow_config, None, "main"@, "main"@);
            match outcome {
                Err(message) => r matches Err(m) && m@ == message,
                Ok((None, _, _)) => r matches Err(m) && m@ == usage_text(binary@),
                Ok((Some(path), package, function)) => r matches Ok((p, config)) && p@ == path
                    && config.entry_package@ == package && config.entry_function@ == function,
            }
        }),
{
    let ghost all = texts(args@);
    let mut config = ExecutionConfig::default();
    let mut path: Option<String> = None;
    let mut index: usize = 0;
    while index < args.len()
        invariant
            all == texts(args@),
            index <= args@.len(),
            scan_options(binary@, command@, all, 0, allow_config, None, "main"@, "main"@) == scan_options(
                binary@,
                command@,
                all,
                index as int,
                allow_config,
                match path {
                    Some(p) => Some(p@),
                    None => None,
                },
                config.entry_package@,
                config.entry_function@,
            ),
        decreases args@.len() - index,
    {
        let arg = &args[index];
        let is_package = text_is(arg, "--entry-package");
        let is_function = text_is(arg, "--entry-function");
        assert(all[index as int] == arg@);
        if (is_package || is_function) && allow_config {
            if index + 1 >= args.len() {
                let mut message = String::new();
                push_str(&mut message, "missing value for `");
                push_str(&mut message, arg.as_str());
                push_str(&mut message, "`\n\n");
                push_str(&mut message, usage(binary).as_str());
                return Err(message);
            }
            let value = args[index + 1].clone();
            assert(all[index + 1] == value@);
            if is_package {
                config.entry_package = value;
            } else {
                config.entry_function = value;
            }
            index = index + 2;
        } else if is_package || is_function {
            let mut message = String::new();
            push_str(&mut message, "command `");
            push_str(&mut message, command.as_str());
            push_str(&mut message, "` does not accept execution overrides\n\n");
            push_str(&mut message, usage(binary).as_str());
            return Err(message);
        } else if starts_with_dash(arg) {
            let mut message = String::new();
            push_str(&mut message, "unknown option `");
            push_str(&mut message, arg.as_str());
            push_str(&mut message, "`\n\n");
            push_str(&mut message, usage(binary).as_str());
            return Err(message);
        } else {
            match path {
                Some(_) => {
                    let mut message = String::new();
                    push_str(&mut message, "multiple input files provided\n\n");
                    push_str(&mut message, usage(binary).as_str());
                    return Err(message);
                },
                None => {
                    path = Some(arg.clone());
                },
            }
            index = index + 1;
        }
    }
    match path {
        Some(p) => Ok((p, config)),
        None => Err(usage(binary)),
    }
}

/// The command of a command line, as [`scan_options`] reads its options.
pub open spec fn command_outcome(args: Seq<Seq<char>>) -> Result<(Seq<char>, bool), Seq<char>> {
    let binary = if args.len() > 0 { args[0] } else { "nova-go"@ };
    if args.len() < 2 {
        Err(usage_text(binary))
    } else {
        let command = args[1];
        if command == "check"@ || command == "dump-tokens"@ || command == "dump-ast"@ {
            Ok((command, false))
        } else if command == "run"@ || command == "dump-bytecode"@ {
            Ok((command, true))
        } else if command == "help"@ || command == "--help"@ || command == "-h"@ {
            Err(usage_text(binary))
        } else {
            Err("unknown command `"@ + command + "`\n\n"@ + usage_text(binary))
        }
    }
}

/// Reads a command line: the program name, a command, then the command's
/// arguments.
pub fn parse(args: Vec<String>) -> (r: Result<Command, String>)
    ensures
        match command_outcome(texts(args@)) {
            Err(message) => r matches Err(m) && m@ == message,
            Ok((command, allow_config)) => {
                let binary = texts(args@)[0];
                let rest = texts(args@).skip(2);
                match scan_options(binary, command, rest, 0, allow_config, None, "main"@, "main"@) {
                    Err(message) => r matches Err(m) && m@ == message,
                    Ok((None, _, _)) => r matches Err(m) && m@ == usage_text(binary),
                    Ok((Some(path), package, function)) => r is Ok && match r->Ok_0 {
                        Command::Check { path: p } => command == "check"@ && p@ == path,
                        Command::DumpTokens { path: p } => command == "dump-tokens"@ && p@ == path,
                        Command::DumpAst { path: p } => command == "dump-ast"@ && p@ == path,
                        Command::Run { path: p, config } => command == "run"@ && p@ == path
                            && config.entry_package@ == package && config.entry_function@ == function,
                        Command::DumpBytecode { path: p, config } => command == "dump-bytecode"@ && p@ == path
                            && config.entry_package@ == package && config.entry_function@ == function,
                    },
                }
            },
        },
{
    let ghost all = texts(args@);
    let mut binary = String::new();
    if args.len() > 0 {
        binary = args[0].clone();
    } else {
        push_str(&mut binary, "nova-go");
    }
    if args.len() < 2 {
        return Err(usage(binary.as_str()));
    }
    let command = args[1].clone();
    let mut rest: Vec<String> = Vec::new();
    let mut i: usize = 2;
    while i < args.len()
        invariant
            2 <= i <= args@.len(),
            all == texts(args@),
            texts(rest@) == all.skip(2).take(i - 2),
        decreases args@.len() - i,
    {
        let item = args[i].clone();
        assert(item@ == all[i as int]);
        let ghost before = rest@;
        rest.push(item);
        assert(texts(rest@) =~= texts(before).push(all[i as int]));
        i = i + 1;
        assert(texts(rest@) =~= all.skip(2).take(i - 2));
    }
    assert(all.skip(2).take(args@.len() - 2) =~= all.skip(2));
    let checks = text_is(&command, "check");
    let tokens = text_is(&command, "dump-tokens");
    let ast = text_is(&command, "dump-ast");
    let run = text_is(&command, "run");
    let bytecode = text_is(&command, "dump-bytecode");
    if checks || tokens || ast {
        let (path, _) = parse_path_and_config(binary.as_str(), &command, &rest, false)?;
        if checks {
            Ok(Command::Check { path })
        } else if tokens {
            Ok(Command::DumpTokens { path })
        } else {
            Ok(Command::DumpAst { path })
        }
    } else if run || bytecode {
        let (path, config) = parse_path_and_config(binary.as_str(), &command, &rest, true)?;
        if run {
            Ok(Command::Run { path, config })
        } else {
            Ok(Command::DumpBytecode { path, config })
        }
    } else if text_is(&command, "help") || text_is(&command, "--help") || text_is(&command, "-h") {
        Err(usage(binary.as_str()))
    } else {
        let mut message = String::new();
        push_str(&mut message, "unknown command `");
        push_str(&mut message, command.as_str());
        push_str(&mut message, "`\n\n");
        push_str(&mut message, usage(binary.as_str()).as_str());
        Err(message)
    }
}

} // verus!
