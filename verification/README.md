# nova_go

A front end and a stack virtual machine for a small subset of Go, written
in Verus and verified.

- `src/frontend/`: tokens, the lexer, the syntax tree with its rendering,
  and the recursive-descent parser. The lexer and each parsing function are
  stated by spec functions of the grammar: what they read from a position,
  where they stop, or the message of the first error.
- `src/runtime/`: runtime values (strings, slices, maps and channels on a
  heap), the laws that relate their operations, and the virtual machine
  with its instruction handlers, builtins, package functions, calls,
  deferred calls and panics.
- `src/bytecode/`: instructions and compiled programs, with their
  listings.
- `src/cli.rs`, `src/driver.rs`: the command line and the commands it
  runs on a source file that has been read. The library holds no type
  checker and no compiler from syntax trees to bytecode, so `run` and
  `dump-bytecode` lex and parse the file and then stop with the error
  ``cannot compile `<path>`: no type checker is available``. A program
  that is already bytecode runs through `driver::run_program`.
- `app/`: the program around the library: reading the file named on the
  command line, printing the result, and the exit status.
- `tests/`: tests of the library, run against the compiled crate.
