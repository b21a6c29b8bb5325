//! Tokens: what the lexer produces and the parser reads.

use vstd::prelude::*;

use crate::text::{
    nat_text, int_text, bool_text, quoted_text, push_str, push_int, push_bool, push_quoted, push_char, nat_string,
    chars_of,
};

verus! {

/// A position in a source file, counted from 1.
#[derive(Clone, Copy, Debug, PartialEq, Eq)]
pub struct Span {
    pub line: usize,
    pub column: usize,
}

impl Span {
    pub fn new(line: usize, column: usize) -> (span: Self)
        ensures
            span.line == line,
            span.column == column,
    {
        Span { line, column }
    }
}

/// The kinds of token of the language.
#[derive(Clone, Debug, PartialEq, Eq)]
pub enum TokenKind {
    Package,
    Import,
    Func,
    Var,
    Return,
    If,
    Else,
    Switch,
    Case,
    Default,
    For,
    Range,
    Break,
    Continue,
    Defer,
    MapKeyword,
    Chan,
    Interface,
    Nil,
    Bool(bool),
    Identifier(String),
    Integer(i64),
    String(String),
    LeftParen,
    RightParen,
    LeftBracket,
    RightBracket,
    LeftBrace,
    RightBrace,
    Comma,
    Colon,
    Dot,
    Ellipsis,
    Semicolon,
    Assign,
    Define,
    Plus,
    Minus,
    Star,
    Slash,
    PlusAssign,
    MinusAssign,
    StarAssign,
    SlashAssign,
    PlusPlus,
    MinusMinus,
    EqualEqual,
    BangEqual,
    Less,
    LessEqual,
    Greater,
    GreaterEqual,
    LeftArrow,
    Eof,
}

/// Whether a line break after a token of this kind ends a statement.
pub open spec fn ends_statement(kind: TokenKind) -> bool {
    ||| kind is Identifier
    ||| kind is Integer
    ||| kind is String
    ||| kind is Bool
    ||| kind is Nil
    ||| kind is Return
    ||| kind is Break
    ||| kind is Continue
    ||| kind is RightParen
    ||| kind is RightBracket
    ||| kind is RightBrace
    ||| kind is PlusPlus
    ||| kind is MinusMinus
}

/// The text of a token kind in token listings and error messages.
pub open spec fn token_kind_text(kind: TokenKind) -> Seq<char> {
    match kind {
        TokenKind::Package => "package"@,
        TokenKind::Import => "import"@,
        TokenKind::Func => "func"@,
        TokenKind::Var => "var"@,
        TokenKind::Return => "return"@,
        TokenKind::If => "if"@,
        TokenKind::Else => "else"@,
        TokenKind::Switch => "switch"@,
        TokenKind::Case => "case"@,
        TokenKind::Default => "default"@,
        TokenKind::For => "for"@,
        TokenKind::Range => "range"@,
        TokenKind::Break => "break"@,
        TokenKind::Continue => "continue"@,
        TokenKind::Defer => "defer"@,
        TokenKind::MapKeyword => "map"@,
        TokenKind::Chan => "chan"@,
        TokenKind::Interface => "interface"@,
        TokenKind::Nil => "nil"@,
        TokenKind::Bool(value) => "bool("@ + bool_text(value) + ")"@,
        TokenKind::Identifier(value) => "identifier("@ + value@ + ")"@,
        TokenKind::Integer(value) => "integer("@ + int_text(value as int) + ")"@,
        TokenKind::String(value) => "string("@ + quoted_text(value@) + ")"@,
        TokenKind::LeftParen => "("@,
        TokenKind::RightParen => ")"@,
        TokenKind::LeftBracket => "["@,
        TokenKind::RightBracket => "]"@,
        TokenKind::LeftBrace => "{"@,
        TokenKind::RightBrace => "}"@,
        TokenKind::Comma => ","@,
        TokenKind::Colon => ":"@,
        TokenKind::Dot => "."@,
        TokenKind::Ellipsis => "..."@,
        TokenKind::Semicolon => ";"@,
        TokenKind::Assign => "="@,
        TokenKind::Define => ":="@,
        TokenKind::Plus => "+"@,
        TokenKind::Minus => "-"@,
        TokenKind::Star => "*"@,
        TokenKind::Slash => "/"@,
        TokenKind::PlusAssign => "+="@,
        TokenKind::MinusAssign => "-="@,
        TokenKind::StarAssign => "*="@,
        TokenKind::SlashAssign => "/="@,
        TokenKind::PlusPlus => "++"@,
        TokenKind::MinusMinus => "--"@,
        TokenKind::EqualEqual => "=="@,
        TokenKind::BangEqual => "!="@,
        TokenKind::Less => "<"@,
        TokenKind::LessEqual => "<="@,
        TokenKind::Greater => ">"@,
        TokenKind::GreaterEqual => ">="@,
        TokenKind::LeftArrow => "<-"@,
        TokenKind::Eof => "<eof>"@,
    }
}

impl TokenKind {
    /// Whether a line break after this token ends a statement.
    pub fn can_end_statement(&self) -> (r: bool)
        ensures
            r == ends_statement(*self),
    {
        match self {
            TokenKind::Identifier(_) | TokenKind::Integer(_) | TokenKind::String(_) | TokenKind::Bool(_)
            | TokenKind::Nil | TokenKind::Return | TokenKind::Break | TokenKind::Continue
            | TokenKind::RightParen | TokenKind::RightBracket | TokenKind::RightBrace
            | TokenKind::PlusPlus | TokenKind::MinusMinus => true,
            _ => false,
        }
    }

    /// Appends the text of this kind.
    pub fn push_text(&self, text: &mut String)
        ensures
            final(text)@ == old(text)@ + token_kind_text(*self),
    {
        match self {
            TokenKind::Bool(value) => {
                push_str(text, "bool(");
                push_bool(text, *value);
                push_str(text, ")");
            },
            TokenKind::Identifier(value) => {
                push_str(text, "identifier(");
                push_str(text, value.as_str());
                push_str(text, ")");
            },
            TokenKind::Integer(value) => {
                push_str(text, "integer(");
                push_int(text, *value);
                push_str(text, ")");
            },
            TokenKind::String(value) => {
                push_str(text, "string(");
                push_quoted(text, value.as_str());
                push_str(text, ")");
            },
            _ => {
                push_str(text, self.fixed_text());
            },
        }
        assert(final(text)@ =~= old(text)@ + token_kind_text(*self));
    }

    /// The text of a kind that carries no value.
    fn fixed_text(&self) -> (t: &'static str)
        requires
            !(self is Bool || self is Identifier || self is Integer || self is String),
        ensures
            t@ == token_kind_text(*self),
    {
        match self {
            TokenKind::Package => "package",
            TokenKind::Import => "import",
            TokenKind::Func => "func",
            TokenKind::Var => "var",
            TokenKind::Return => "return",
            TokenKind::If => "if",
            TokenKind::Else => "else",
            TokenKind::Switch => "switch",
            TokenKind::Case => "case",
            TokenKind::Default => "default",
            TokenKind::For => "for",
            TokenKind::Range => "range",
            TokenKind::Break => "break",
            TokenKind::Continue => "continue",
            TokenKind::Defer => "defer",
            TokenKind::MapKeyword => "map",
            TokenKind::Chan => "chan",
            TokenKind::Interface => "interface",
            TokenKind::Nil => "nil",
            TokenKind::LeftParen => "(",
            TokenKind::RightParen => ")",
            TokenKind::LeftBracket => "[",
            TokenKind::RightBracket => "]",
            TokenKind::LeftBrace => "{",
            TokenKind::RightBrace => "}",
            TokenKind::Comma => ",",
            TokenKind::Colon => ":",
            TokenKind::Dot => ".",
            TokenKind::Ellipsis => "...",
            TokenKind::Semicolon => ";",
            TokenKind::Assign => "=",
            TokenKind::Define => ":=",
            TokenKind::Plus => "+",
            TokenKind::Minus => "-",
            TokenKind::Star => "*",
            TokenKind::Slash => "/",
            TokenKind::PlusAssign => "+=",
            TokenKind::MinusAssign => "-=",
            TokenKind::StarAssign => "*=",
            TokenKind::SlashAssign => "/=",
            TokenKind::PlusPlus => "++",
            TokenKind::MinusMinus => "--",
            TokenKind::EqualEqual => "==",
            TokenKind::BangEqual => "!=",
            TokenKind::Less => "<",
            TokenKind::LessEqual => "<=",
            TokenKind::Greater => ">",
            TokenKind::GreaterEqual => ">=",
            TokenKind::LeftArrow => "<-",
            TokenKind::Eof => "<eof>",
            TokenKind::Bool(_) | TokenKind::Identifier(_) | TokenKind::Integer(_) | TokenKind::String(_) => "",
        }
    }

    /// The text of this kind, such as `identifier(main)` or `:=`.
    pub fn render(&self) -> (text: String)
        ensures
            text@ == token_kind_text(*self),
    {
        let mut text = String::new();
        self.push_text(&mut text);
        assert(text@ =~= token_kind_text(*self));
        text
    }

    /// A copy of this kind.
    pub fn duplicate(&self) -> (r: TokenKind)
        ensures
            r == *self,
    {
        match self {
            TokenKind::Identifier(value) => TokenKind::Identifier(value.clone()),
            TokenKind::String(value) => TokenKind::String(value.clone()),
            TokenKind::Bool(value) => TokenKind::Bool(*value),
            TokenKind::Integer(value) => TokenKind::Integer(*value),
            TokenKind::Package => TokenKind::Package,
            TokenKind::Import => TokenKind::Import,
            TokenKind::Func => TokenKind::Func,
            TokenKind::Var => TokenKind::Var,
            TokenKind::Return => TokenKind::Return,
            TokenKind::If => TokenKind::If,
            TokenKind::Else => TokenKind::Else,
            TokenKind::Switch => TokenKind::Switch,
            TokenKind::Case => TokenKind::Case,
            TokenKind::Default => TokenKind::Default,
            TokenKind::For => TokenKind::For,
            TokenKind::Range => TokenKind::Range,
            TokenKind::Break => TokenKind::Break,
            TokenKind::Continue => TokenKind::Continue,
            TokenKind::Defer => TokenKind::Defer,
            TokenKind::MapKeyword => TokenKind::MapKeyword,
            TokenKind::Chan => TokenKind::Chan,
            TokenKind::Interface => TokenKind::Interface,
            TokenKind::Nil => TokenKind::Nil,
            TokenKind::LeftParen => TokenKind::LeftParen,
            TokenKind::RightParen => TokenKind::RightParen,
            TokenKind::LeftBracket => TokenKind::LeftBracket,
            TokenKind::RightBracket => TokenKind::RightBracket,
            TokenKind::LeftBrace => TokenKind::LeftBrace,
            TokenKind::RightBrace => TokenKind::RightBrace,
            TokenKind::Comma => TokenKind::Comma,
            TokenKind::Colon => TokenKind::Colon,
            TokenKind::Dot => TokenKind::Dot,
            TokenKind::Ellipsis => TokenKind::Ellipsis,
            TokenKind::Semicolon => TokenKind::Semicolon,
            TokenKind::Assign => TokenKind::Assign,
            TokenKind::Define => TokenKind::Define,
            TokenKind::Plus => TokenKind::Plus,
            TokenKind::Minus => TokenKind::Minus,
            TokenKind::Star => TokenKind::Star,
            TokenKind::Slash => TokenKind::Slash,
            TokenKind::PlusAssign => TokenKind::PlusAssign,
            TokenKind::MinusAssign => TokenKind::MinusAssign,
            TokenKind::StarAssign => TokenKind::StarAssign,
            TokenKind::SlashAssign => TokenKind::SlashAssign,
            TokenKind::PlusPlus => TokenKind::PlusPlus,
            TokenKind::MinusMinus => TokenKind::MinusMinus,
            TokenKind::EqualEqual => TokenKind::EqualEqual,
            TokenKind::BangEqual => TokenKind::BangEqual,
            TokenKind::Less => TokenKind::Less,
            TokenKind::LessEqual => TokenKind::LessEqual,
            TokenKind::Greater => TokenKind::Greater,
            TokenKind::GreaterEqual => TokenKind::GreaterEqual,
            TokenKind::LeftArrow => TokenKind::LeftArrow,
            TokenKind::Eof => TokenKind::Eof,
        }
    }
}

/// A token and where it starts.
#[derive(Clone, Debug, PartialEq, Eq)]
pub struct Token {
    pub kind: TokenKind,
    pub span: Span,
}

/// `t` right-aligned in a field four characters wide.
pub open spec fn pad_left4(t: Seq<char>) -> Seq<char> {
    if t.len() >= 4 {
        t
    } else {
        Seq::new((4 - t.len()) as nat, |i: int| ' ') + t
    }
}

/// `t` left-aligned in a field four characters wide.
pub open spec fn pad_right4(t: Seq<char>) -> Seq<char> {
    if t.len() >= 4 {
        t
    } else {
        t + Seq::new((4 - t.len()) as nat, |i: int| ' ')
    }
}

/// The listing line of a token: line and column, then the kind.
pub open spec fn token_text(token: Token) -> Seq<char> {
    pad_left4(nat_text(token.span.line as nat)) + ":"@ + pad_right4(nat_text(token.span.column as nat)) + " "@
        + token_kind_text(token.kind)
}

/// Appends `count - len` spaces, or none when `len >= count`.
fn push_spaces(text: &mut String, len: usize, count: usize)
    ensures
        final(text)@ == old(text)@ + (if len >= count { Seq::<char>::empty() } else { Seq::new((count - len) as nat, |i: int| ' ') }),
{
    let mut k: usize = len;
    while k < count
        invariant
            len <= count ==> len <= k <= count,
            len > count ==> k == len,
            text@ == old(text)@ + Seq::new((k - len) as nat, |i: int| ' '),
        decreases count - k,
    {
        push_char(text, ' ');
        k = k + 1;
        assert(text@ =~= old(text)@ + Seq::new((k - len) as nat, |i: int| ' '));
    }
    assert(Seq::new((k - len) as nat, |i: int| ' ') =~= (if len >= count { Seq::<char>::empty() } else { Seq::new((count - len) as nat, |i: int| ' ') }));
}

impl Token {
    pub fn new(kind: TokenKind, span: Span) -> (token: Self)
        ensures
            token.kind == kind,
            token.span == span,
    {
        Token { kind, span }
    }

    /// The listing line of the token: line right-aligned and column
    /// left-aligned in four characters each, then the kind.
    pub fn render(&self) -> (text: String)
        ensures
            text@ == token_text(*self),
    {
        let line = nat_string(self.span.line as u64);
        let column = nat_string(self.span.column as u64);
        let line_len = chars_of(line.as_str()).len();
        let column_len = chars_of(column.as_str()).len();
        let mut text = String::new();
        push_spaces(&mut text, line_len, 4);
        push_str(&mut text, line.as_str());
        push_str(&mut text, ":");
        push_str(&mut text, column.as_str());
        push_spaces(&mut text, column_len, 4);
        push_str(&mut text, " ");
        self.kind.push_text(&mut text);
        assert(text@ =~= token_text(*self));
        text
    }
}

} // verus!
