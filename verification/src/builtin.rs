use vstd::prelude::*;

verus! {

/// The predeclared functions that programs may call.
#[derive(Clone, Copy, Debug, PartialEq, Eq, Structural)]
pub enum BuiltinFunction {
    Print,
    Println,
    Len,
    Cap,
    Copy,
    Append,
    Make,
    Delete,
    Close,
    Clear,
    Panic,
    Recover,
}

/// The source-level name of a builtin.
pub open spec fn builtin_name(builtin: BuiltinFunction) -> &'static str {
    match builtin {
        BuiltinFunction::Print => "print",
        BuiltinFunction::Println => "println",
        BuiltinFunction::Len => "len",
        BuiltinFunction::Cap => "cap",
        BuiltinFunction::Copy => "copy",
        BuiltinFunction::Append => "append",
        BuiltinFunction::Make => "make",
        BuiltinFunction::Delete => "delete",
        BuiltinFunction::Close => "close",
        BuiltinFunction::Clear => "clear",
        BuiltinFunction::Panic => "panic",
        BuiltinFunction::Recover => "recover",
    }
}

impl BuiltinFunction {
    /// Returns the name under which the builtin is written in source code.
    pub fn render(self) -> (name: &'static str)
        ensures
            name == builtin_name(self),
    {
        match self {
            BuiltinFunction::Print => "print",
            BuiltinFunction::Println => "println",
            BuiltinFunction::Len => "len",
            BuiltinFunction::Cap => "cap",
            BuiltinFunction::Copy => "copy",
            BuiltinFunction::Append => "append",
            BuiltinFunction::Make => "make",
            BuiltinFunction::Delete => "delete",
            BuiltinFunction::Close => "close",
            BuiltinFunction::Clear => "clear",
            BuiltinFunction::Panic => "panic",
            BuiltinFunction::Recover => "recover",
        }
    }
}

} // verus!
