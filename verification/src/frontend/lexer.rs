//! The lexer: source text to tokens. A line break after a token that can
//! end a statement becomes a semicolon; `//` comments run to the end of the
//! line.

use vstd::prelude::*;

use crate::frontend::token::{ends_statement, Span, Token, TokenKind};
use crate::source::SourceFile;
use crate::text::{chars_of, nat_text, push_char, push_nat, push_str, text_between, text_is};

verus! {

/// What a token is, with the text it carries as a sequence of characters.
pub enum Lexeme {
    /// A keyword, punctuation or operator: a kind that carries no text.
    Fixed(TokenKind),
    Word(Seq<char>),
    Text(Seq<char>),
    Number(int),
    Truth(bool),
}

/// A lexeme and the line and column where it starts.
pub struct Lexed {
    pub lexeme: Lexeme,
    pub line: nat,
    pub column: nat,
}

/// Whether a token kind is what a lexeme describes.
pub open spec fn kind_is(kind: TokenKind, lexeme: Lexeme) -> bool {
    match lexeme {
        Lexeme::Fixed(k) => kind == k,
        Lexeme::Word(w) => kind is Identifier && kind->Identifier_0@ == w,
        Lexeme::Text(t) => kind is String && kind->String_0@ == t,
        Lexeme::Number(n) => kind is Integer && kind->Integer_0 == n,
        Lexeme::Truth(b) => kind is Bool && kind->Bool_0 == b,
    }
}

/// Whether a token is a lexeme at its place.
pub open spec fn token_is(token: Token, lexed: Lexed) -> bool {
    &&& kind_is(token.kind, lexed.lexeme)
    &&& token.span.line == lexed.line
    &&& token.span.column == lexed.column
}

/// Whether the tokens are the lexemes, one for one.
pub open spec fn tokens_are(tokens: Seq<Token>, expected: Seq<Lexed>) -> bool {
    &&& tokens.len() == expected.len()
    &&& forall|i: int| 0 <= i < tokens.len() ==> token_is(#[trigger] tokens[i], expected[i])
}

/// Whether a line break after this lexeme ends a statement.
pub open spec fn lexeme_ends_statement(lexeme: Lexeme) -> bool {
    match lexeme {
        Lexeme::Fixed(k) => ends_statement(k),
        _ => true,
    }
}

pub open spec fn is_digit(c: char) -> bool {
    '0' <= c && c <= '9'
}

pub open spec fn is_word_start(c: char) -> bool {
    ('a' <= c && c <= 'z') || ('A' <= c && c <= 'Z') || c == '_'
}

pub open spec fn is_word_char(c: char) -> bool {
    is_word_start(c) || is_digit(c)
}

/// The end of the run of digits that starts at `i`.
pub open spec fn digits_end(chars: Seq<char>, i: int) -> int
    decreases chars.len() - i,
{
    if 0 <= i < chars.len() && is_digit(chars[i]) {
        digits_end(chars, i + 1)
    } else {
        i
    }
}

/// The end of the run of letters, digits and `_` that starts at `i`.
pub open spec fn word_end(chars: Seq<char>, i: int) -> int
    decreases chars.len() - i,
{
    if 0 <= i < chars.len() && is_word_char(chars[i]) {
        word_end(chars, i + 1)
    } else {
        i
    }
}

/// The index of the first line break at or after `i`, or the length.
pub open spec fn line_end(chars: Seq<char>, i: int) -> int
    decreases chars.len() - i,
{
    if i < 0 || i >= chars.len() {
        chars.len() as int
    } else if chars[i] == '\n' {
        i
    } else {
        line_end(chars, i + 1)
    }
}

/// The value of a sequence of decimal digits.
pub open spec fn decimal_value(s: Seq<char>) -> nat
    decreases s.len(),
{
    if s.len() == 0 {
        0
    } else {
        decimal_value(s.drop_last()) * 10 + ((s.last() as int - 48) as nat)
    }
}

/// What the character after a backslash stands for in a string literal.
pub open spec fn escaped(c: char) -> Option<char> {
    if c == '"' {
        Some('"')
    } else if c == '\\' {
        Some('\\')
    } else if c == 'n' {
        Some('\n')
    } else if c == 't' {
        Some('\t')
    } else if c == 'r' {
        Some('\r')
    } else {
        None
    }
}

/// How the rest of a string literal reads.
pub enum StringScan {
    /// The text of the literal and the index just past its closing quote.
    Closed(Seq<char>, int),
    Unterminated,
    /// An unsupported escape, at the index of the character after the
    /// backslash.
    BadEscape(int),
}

/// Reads a string literal from `j`, having read `text` so far.
pub open spec fn scan_string(chars: Seq<char>, j: int, text: Seq<char>) -> StringScan
    decreases chars.len() - j,
{
    if j < 0 || j >= chars.len() {
        StringScan::Unterminated
    } else if chars[j] == '"' {
        StringScan::Closed(text, j + 1)
    } else if chars[j] == '\\' {
        if j + 1 >= chars.len() {
            StringScan::Unterminated
        } else {
            match escaped(chars[j + 1]) {
                Some(e) => scan_string(chars, j + 2, text.push(e)),
                None => StringScan::BadEscape(j + 1),
            }
        }
    } else if chars[j] == '\n' {
        StringScan::Unterminated
    } else {
        scan_string(chars, j + 1, text.push(chars[j]))
    }
}

/// What a word is: a keyword, `true`, `false`, or an identifier.
pub open spec fn word_lexeme(w: Seq<char>) -> Lexeme {
    if w == "package"@ {
        Lexeme::Fixed(TokenKind::Package)
    } else if w == "import"@ {
        Lexeme::Fixed(TokenKind::Import)
    } else if w == "func"@ {
        Lexeme::Fixed(TokenKind::Func)
    } else if w == "var"@ {
        Lexeme::Fixed(TokenKind::Var)
    } else if w == "if"@ {
        Lexeme::Fixed(TokenKind::If)
    } else if w == "else"@ {
        Lexeme::Fixed(TokenKind::Else)
    } else if w == "switch"@ {
        Lexeme::Fixed(TokenKind::Switch)
    } else if w == "case"@ {
        Lexeme::Fixed(TokenKind::Case)
    } else if w == "default"@ {
        Lexeme::Fixed(TokenKind::Default)
    } else if w == "for"@ {
        Lexeme::Fixed(TokenKind::For)
    } else if w == "range"@ {
        Lexeme::Fixed(TokenKind::Range)
    } else if w == "return"@ {
        Lexeme::Fixed(TokenKind::Return)
    } else if w == "break"@ {
        Lexeme::Fixed(TokenKind::Break)
    } else if w == "continue"@ {
        Lexeme::Fixed(TokenKind::Continue)
    } else if w == "defer"@ {
        Lexeme::Fixed(TokenKind::Defer)
    } else if w == "map"@ {
        Lexeme::Fixed(TokenKind::MapKeyword)
    } else if w == "chan"@ {
        Lexeme::Fixed(TokenKind::Chan)
    } else if w == "interface"@ {
        Lexeme::Fixed(TokenKind::Interface)
    } else if w == "nil"@ {
        Lexeme::Fixed(TokenKind::Nil)
    } else if w == "true"@ {
        Lexeme::Truth(true)
    } else if w == "false"@ {
        Lexeme::Truth(false)
    } else {
        Lexeme::Word(w)
    }
}

/// Whether the character after `i` is `c`.
pub open spec fn next_is(chars: Seq<char>, i: int, c: char) -> bool {
    i + 1 < chars.len() && chars[i + 1] == c
}

/// The punctuation or operator at `i` and how many characters it takes.
pub open spec fn operator_at(chars: Seq<char>, i: int) -> Option<(TokenKind, nat)> {
    let c = chars[i];
    if c == '(' {
        Some((TokenKind::LeftParen, 1))
    } else if c == ')' {
        Some((TokenKind::RightParen, 1))
    } else if c == '[' {
        Some((TokenKind::LeftBracket, 1))
    } else if c == ']' {
        Some((TokenKind::RightBracket, 1))
    } else if c == '{' {
        Some((TokenKind::LeftBrace, 1))
    } else if c == '}' {
        Some((TokenKind::RightBrace, 1))
    } else if c == ',' {
        Some((TokenKind::Comma, 1))
    } else if c == ';' {
        Some((TokenKind::Semicolon, 1))
    } else if c == ':' {
        if next_is(chars, i, '=') { Some((TokenKind::Define, 2)) } else { Some((TokenKind::Colon, 1)) }
    } else if c == '.' {
        if next_is(chars, i, '.') && next_is(chars, i + 1, '.') {
            Some((TokenKind::Ellipsis, 3))
        } else {
            Some((TokenKind::Dot, 1))
        }
    } else if c == '=' {
        if next_is(chars, i, '=') { Some((TokenKind::EqualEqual, 2)) } else { Some((TokenKind::Assign, 1)) }
    } else if c == '!' {
        if next_is(chars, i, '=') { Some((TokenKind::BangEqual, 2)) } else { None }
    } else if c == '+' {
        if next_is(chars, i, '+') {
            Some((TokenKind::PlusPlus, 2))
        } else if next_is(chars, i, '=') {
            Some((TokenKind::PlusAssign, 2))
        } else {
            Some((TokenKind::Plus, 1))
        }
    } else if c == '-' {
        if next_is(chars, i, '-') {
            Some((TokenKind::MinusMinus, 2))
        } else if next_is(chars, i, '=') {
            Some((TokenKind::MinusAssign, 2))
        } else {
            Some((TokenKind::Minus, 1))
        }
    } else if c == '*' {
        if next_is(chars, i, '=') { Some((TokenKind::StarAssign, 2)) } else { Some((TokenKind::Star, 1)) }
    } else if c == '/' {
        if next_is(chars, i, '=') { Some((TokenKind::SlashAssign, 2)) } else { Some((TokenKind::Slash, 1)) }
    } else if c == '<' {
        if next_is(chars, i, '=') {
            Some((TokenKind::LessEqual, 2))
        } else if next_is(chars, i, '-') {
            Some((TokenKind::LeftArrow, 2))
        } else {
            Some((TokenKind::Less, 1))
        }
    } else if c == '>' {
        if next_is(chars, i, '=') { Some((TokenKind::GreaterEqual, 2)) } else { Some((TokenKind::Greater, 1)) }
    } else {
        None
    }
}

/// `first` before the lexemes of `rest`, or the error of `rest`.
pub open spec fn with_first(first: Lexed, rest: Result<Seq<Lexed>, Seq<char>>) -> Result<Seq<Lexed>, Seq<char>> {
    match rest {
        Ok(s) => Ok(seq![first] + s),
        Err(e) => Err(e),
    }
}

/// `prefix` before the lexemes of `rest`, or the error of `rest`.
pub open spec fn after_prefix(prefix: Seq<Lexed>, rest: Result<Seq<Lexed>, Seq<char>>) -> Result<Seq<Lexed>, Seq<char>> {
    match rest {
        Ok(s) => Ok(prefix + s),
        Err(e) => Err(e),
    }
}

/// `line:column` as text.
pub open spec fn position_text(line: nat, column: nat) -> Seq<char> {
    nat_text(line) + ":"@ + nat_text(column)
}

pub proof fn lemma_runs_advance(chars: Seq<char>, i: int)
    requires
        0 <= i <= chars.len(),
    ensures
        i <= digits_end(chars, i) <= chars.len(),
        i < chars.len() && is_digit(chars[i]) ==> i < digits_end(chars, i),
        i <= word_end(chars, i) <= chars.len(),
        i < chars.len() && is_word_char(chars[i]) ==> i < word_end(chars, i),
        i <= line_end(chars, i) <= chars.len(),
    decreases chars.len() - i,
{
    if i < chars.len() {
        lemma_runs_advance(chars, i + 1);
    }
}

pub proof fn lemma_scan_string_advances(chars: Seq<char>, j: int, text: Seq<char>)
    requires
        0 <= j,
    ensures
        scan_string(chars, j, text) matches StringScan::Closed(_, end) ==> j < end <= chars.len(),
        scan_string(chars, j, text) matches StringScan::BadEscape(k) ==> j < k < chars.len(),
    decreases chars.len() - j,
{
    if 0 <= j < chars.len() && chars[j] != '"' {
        if chars[j] == '\\' {
            if j + 1 < chars.len() && escaped(chars[j + 1]) is Some {
                lemma_scan_string_advances(chars, j + 2, text.push(escaped(chars[j + 1])->0));
            }
        } else if chars[j] != '\n' {
            lemma_scan_string_advances(chars, j + 1, text.push(chars[j]));
        }
    }
}

pub proof fn lemma_operator_width(chars: Seq<char>, i: int)
    requires
        0 <= i < chars.len(),
    ensures
        operator_at(chars, i) matches Some((_, w)) ==> 1 <= w <= 3,
{
}

/// The tokens of `chars` read from index `i`, at `line` and `column`, where
/// `ends` says whether a line break now would end a statement; or the error
/// message of the first character that cannot be read.
pub open spec fn lex_from(chars: Seq<char>, i: int, line: nat, column: nat, ends: bool) -> Result<Seq<Lexed>, Seq<char>>
    decreases chars.len() - i,
{
    if i < 0 || i >= chars.len() {
        Ok(seq![Lexed { lexeme: Lexeme::Fixed(TokenKind::Eof), line, column }])
    } else {
        let c = chars[i];
        if c == ' ' || c == '\t' || c == '\r' {
            lex_from(chars, i + 1, line, column + 1, ends)
        } else if c == '\n' {
            let rest = lex_from(chars, i + 1, line + 1, 1, false);
            if ends {
                with_first(Lexed { lexeme: Lexeme::Fixed(TokenKind::Semicolon), line, column }, rest)
            } else {
                rest
            }
        } else if c == '/' && next_is(chars, i, '/') {
            proof {
                lemma_runs_advance(chars, i);
            }
            let end = line_end(chars, i);
            if end < chars.len() {
                lex_from(chars, end + 1, line + 1, 1, false)
            } else {
                lex_from(chars, end, line, (column + (end - i)) as nat, ends)
            }
        } else if is_digit(c) {
            proof {
                lemma_runs_advance(chars, i);
            }
            let end = digits_end(chars, i);
            let literal = chars.subrange(i, end);
            let value = decimal_value(literal);
            if value > i64::MAX {
                Err("invalid integer `"@ + literal + "` at "@ + position_text(line, column)
                    + ": number too large to fit in target type"@)
            } else {
                with_first(
                    Lexed { lexeme: Lexeme::Number(value as int), line, column },
                    lex_from(chars, end, line, (column + (end - i)) as nat, true),
                )
            }
        } else if c == '"' {
            proof {
                lemma_scan_string_advances(chars, i + 1, seq![]);
            }
            match scan_string(chars, i + 1, seq![]) {
                StringScan::Closed(text, end) => with_first(
                    Lexed { lexeme: Lexeme::Text(text), line, column },
                    lex_from(chars, end, line, (column + (end - i)) as nat, true),
                ),
                StringScan::Unterminated => Err("unterminated string literal at "@ + position_text(line, column)),
                StringScan::BadEscape(k) => Err(
                    "unsupported escape `\\"@ + seq![chars[k]] + "` at "@
                        + position_text(line, (column + (k - i)) as nat),
                ),
            }
        } else if is_word_start(c) {
            proof {
                lemma_runs_advance(chars, i);
            }
            let end = word_end(chars, i);
            let lexeme = word_lexeme(chars.subrange(i, end));
            with_first(
                Lexed { lexeme, line, column },
                lex_from(chars, end, line, (column + (end - i)) as nat, lexeme_ends_statement(lexeme)),
            )
        } else {
            proof {
                lemma_operator_width(chars, i);
            }
            match operator_at(chars, i) {
                Some((kind, width)) => with_first(
                    Lexed { lexeme: Lexeme::Fixed(kind), line, column },
                    lex_from(chars, i + width, line, column + width, ends_statement(kind)),
                ),
                None => Err("unexpected character `"@ + seq![c] + "` at "@ + position_text(line, column)),
            }
        }
    }
}

/// The tokens of a source text, or the message of why it cannot be read.
pub open spec fn lex_text(chars: Seq<char>) -> Result<Seq<Lexed>, Seq<char>> {
    lex_from(chars, 0, 1, 1, false)
}

/// Whether lexemes end with `Eof` and hold no other `Eof`.
pub open spec fn ends_once_with_eof(s: Seq<Lexed>) -> bool {
    &&& s.len() > 0
    &&& s.last().lexeme == Lexeme::Fixed(TokenKind::Eof)
    &&& forall|k: int| 0 <= k < s.len() - 1 ==> #[trigger] s[k].lexeme != Lexeme::Fixed(TokenKind::Eof)
}

proof fn lemma_with_first_ends(first: Lexed, rest: Result<Seq<Lexed>, Seq<char>>)
    requires
        first.lexeme != Lexeme::Fixed(TokenKind::Eof),
        rest matches Ok(s) ==> ends_once_with_eof(s),
    ensures
        with_first(first, rest) matches Ok(s) ==> ends_once_with_eof(s),
{
    if let Ok(s) = rest {
        let all = seq![first] + s;
        assert(all.last() == s.last());
        assert forall|k: int| 0 <= k < all.len() - 1 implies #[trigger] all[k].lexeme != Lexeme::Fixed(TokenKind::Eof) by {
            if k > 0 {
                assert(all[k] == s[k - 1]);
            }
        }
    }
}

/// The lexer's tokens always end with one `Eof`, and no other token is
/// `Eof`.
pub proof fn law_tokens_end_with_eof(chars: Seq<char>, i: int, line: nat, column: nat, ends: bool)
    requires
        0 <= i,
    ensures
        lex_from(chars, i, line, column, ends) matches Ok(s) ==> ends_once_with_eof(s),
    decreases chars.len() - i,
{
    if i < chars.len() {
        let c = chars[i];
        if c == ' ' || c == '\t' || c == '\r' {
            law_tokens_end_with_eof(chars, i + 1, line, column + 1, ends);
        } else if c == '\n' {
            law_tokens_end_with_eof(chars, i + 1, line + 1, 1, false);
            lemma_with_first_ends(
                Lexed { lexeme: Lexeme::Fixed(TokenKind::Semicolon), line, column },
                lex_from(chars, i + 1, line + 1, 1, false),
            );
        } else if c == '/' && next_is(chars, i, '/') {
            lemma_runs_advance(chars, i);
            let end = line_end(chars, i);
            if end < chars.len() {
                law_tokens_end_with_eof(chars, end + 1, line + 1, 1, false);
            } else {
                law_tokens_end_with_eof(chars, end, line, (column + (end - i)) as nat, ends);
            }
        } else if is_digit(c) {
            lemma_runs_advance(chars, i);
            let end = digits_end(chars, i);
            let value = decimal_value(chars.subrange(i, end));
            law_tokens_end_with_eof(chars, end, line, (column + (end - i)) as nat, true);
            lemma_with_first_ends(
                Lexed { lexeme: Lexeme::Number(value as int), line, column },
                lex_from(chars, end, line, (column + (end - i)) as nat, true),
            );
        } else if c == '"' {
            lemma_scan_string_advances(chars, i + 1, seq![]);
            if let StringScan::Closed(text, end) = scan_string(chars, i + 1, seq![]) {
                law_tokens_end_with_eof(chars, end, line, (column + (end - i)) as nat, true);
                lemma_with_first_ends(
                    Lexed { lexeme: Lexeme::Text(text), line, column },
                    lex_from(chars, end, line, (column + (end - i)) as nat, true),
                );
            }
        } else if is_word_start(c) {
            lemma_runs_advance(chars, i);
            let end = word_end(chars, i);
            let lexeme = word_lexeme(chars.subrange(i, end));
            law_tokens_end_with_eof(chars, end, line, (column + (end - i)) as nat, lexeme_ends_statement(lexeme));
            lemma_with_first_ends(
                Lexed { lexeme, line, column },
                lex_from(chars, end, line, (column + (end - i)) as nat, lexeme_ends_statement(lexeme)),
            );
        } else {
            lemma_operator_width(chars, i);
            if let Some((kind, width)) = operator_at(chars, i) {
                law_tokens_end_with_eof(chars, i + width, line, column + width, ends_statement(kind));
                lemma_with_first_ends(
                    Lexed { lexeme: Lexeme::Fixed(kind), line, column },
                    lex_from(chars, i + width, line, column + width, ends_statement(kind)),
                );
            }
        }
    }
}

/// Why a source text cannot be read as tokens.
#[derive(Clone, Debug, PartialEq, Eq)]
pub struct LexError {
    message: String,
}

impl LexError {
    /// The message.
    pub closed spec fn text(&self) -> Seq<char> {
        self.message@
    }

    /// The message, such as `unexpected character `@` at 3:5`.
    pub fn to_string(&self) -> (s: String)
        ensures
            s@ == self.text(),
    {
        self.message.clone()
    }
}

proof fn lemma_after_first(prefix: Seq<Lexed>, first: Lexed, rest: Result<Seq<Lexed>, Seq<char>>)
    ensures
        after_prefix(prefix, with_first(first, rest)) == after_prefix(prefix.push(first), rest),
{
    if let Ok(s) = rest {
        assert(prefix + (seq![first] + s) =~= prefix.push(first) + s);
    }
}

/// Appends `line:column`.
fn push_position(text: &mut String, line: usize, column: usize)
    ensures
        final(text)@ == old(text)@ + position_text(line as nat, column as nat),
{
    push_nat(text, line as u64);
    push_str(text, ":");
    push_nat(text, column as u64);
    assert(final(text)@ =~= old(text)@ + position_text(line as nat, column as nat));
}

/// The end of the run of digits at `i`.
fn scan_digits(chars: &Vec<char>, i: usize) -> (end: usize)
    requires
        i <= chars@.len(),
    ensures
        end == digits_end(chars@, i as int),
{
    let mut j = i;
    while j < chars.len() && '0' <= chars[j] && chars[j] <= '9'
        invariant
            i <= j <= chars@.len(),
            digits_end(chars@, i as int) == digits_end(chars@, j as int),
        decreases chars@.len() - j,
    {
        j = j + 1;
    }
    j
}

/// The end of the run of letters, digits and `_` at `i`.
fn scan_word(chars: &Vec<char>, i: usize) -> (end: usize)
    requires
        i <= chars@.len(),
    ensures
        end == word_end(chars@, i as int),
{
    let mut j = i;
    while j < chars.len()
        && (('a' <= chars[j] && chars[j] <= 'z') || ('A' <= chars[j] && chars[j] <= 'Z') || chars[j] == '_'
            || ('0' <= chars[j] && chars[j] <= '9'))
        invariant
            i <= j <= chars@.len(),
            word_end(chars@, i as int) == word_end(chars@, j as int),
        decreases chars@.len() - j,
    {
        j = j + 1;
    }
    j
}

/// The index of the first line break at or after `i`, or the length.
fn scan_line(chars: &Vec<char>, i: usize) -> (end: usize)
    requires
        i <= chars@.len(),
    ensures
        end == line_end(chars@, i as int),
{
    let mut j = i;
    while j < chars.len() && chars[j] != '\n'
        invariant
            i <= j <= chars@.len(),
            line_end(chars@, i as int) == line_end(chars@, j as int),
        decreases chars@.len() - j,
    {
        j = j + 1;
    }
    j
}

proof fn lemma_decimal_prefix(s: Seq<char>, k: int)
    requires
        0 <= k <= s.len(),
    ensures
        decimal_value(s.take(k)) <= decimal_value(s),
    decreases s.len(),
{
    if k < s.len() {
        assert(s.drop_last().take(k) =~= s.take(k));
        lemma_decimal_prefix(s.drop_last(), k);
    } else {
        assert(s.take(k) =~= s);
    }
}

/// The value of the digits `chars[start..end]`, or `None` where it does not
/// fit in an `i64`.
fn decimal(chars: &Vec<char>, start: usize, end: usize) -> (r: Option<i64>)
    requires
        start <= end <= chars@.len(),
        forall|j: int| start <= j < end ==> is_digit(#[trigger] chars@[j]),
    ensures
        decimal_value(chars@.subrange(start as int, end as int)) <= i64::MAX <==> r is Some,
        r is Some ==> r->0 == decimal_value(chars@.subrange(start as int, end as int)),
{
    let mut value: i64 = 0;
    let mut j = start;
    while j < end
        invariant
            start <= j <= end <= chars@.len(),
            forall|k: int| start <= k < end ==> is_digit(#[trigger] chars@[k]),
            value >= 0,
            value == decimal_value(chars@.subrange(start as int, j as int)),
        decreases end - j,
    {
        let c = chars[j];
        assert(is_digit(chars@[j as int]));
        let d: i64 = (c as u32 - 48) as i64;
        let ghost next = chars@.subrange(start as int, j + 1);
        assert(next.drop_last() =~= chars@.subrange(start as int, j as int));
        assert(next.last() == c);
        if value > 922337203685477580 || (value == 922337203685477580 && d > 7) {
            proof {
                assert(decimal_value(next) > i64::MAX);
                let whole = chars@.subrange(start as int, end as int);
                assert(whole.take(j + 1 - start) =~= next);
                lemma_decimal_prefix(whole, j + 1 - start);
            }
            return None;
        }
        value = value * 10 + d;
        j = j + 1;
    }
    Some(value)
}

/// The kind of a word: a keyword, a truth value or an identifier.
fn word_kind(word: String) -> (kind: TokenKind)
    ensures
        kind_is(kind, word_lexeme(word@)),
{
    if text_is(&word, "package") {
        TokenKind::Package
    } else if text_is(&word, "import") {
        TokenKind::Import
    } else if text_is(&word, "func") {
        TokenKind::Func
    } else if text_is(&word, "var") {
        TokenKind::Var
    } else if text_is(&word, "if") {
        TokenKind::If
    } else if text_is(&word, "else") {
        TokenKind::Else
    } else if text_is(&word, "switch") {
        TokenKind::Switch
    } else if text_is(&word, "case") {
        TokenKind::Case
    } else if text_is(&word, "default") {
        TokenKind::Default
    } else if text_is(&word, "for") {
        TokenKind::For
    } else if text_is(&word, "range") {
        TokenKind::Range
    } else if text_is(&word, "return") {
        TokenKind::Return
    } else if text_is(&word, "break") {
        TokenKind::Break
    } else if text_is(&word, "continue") {
        TokenKind::Continue
    } else if text_is(&word, "defer") {
        TokenKind::Defer
    } else if text_is(&word, "map") {
        TokenKind::MapKeyword
    } else if text_is(&word, "chan") {
        TokenKind::Chan
    } else if text_is(&word, "interface") {
        TokenKind::Interface
    } else if text_is(&word, "nil") {
        TokenKind::Nil
    } else if text_is(&word, "true") {
        TokenKind::Bool(true)
    } else if text_is(&word, "false") {
        TokenKind::Bool(false)
    } else {
        TokenKind::Identifier(word)
    }
}

/// How a string literal whose opening quote is at `i` reads: its text and
/// the index past its closing quote, or where it fails.
fn scan_string_literal(chars: &Vec<char>, i: usize) -> (r: Result<(String, usize), Option<usize>>)
    requires
        i < chars@.len() < usize::MAX,
    ensures
        match scan_string(chars@, i + 1, seq![]) {
            StringScan::Closed(text, end) => r matches Ok((t, e)) && t@ == text && e == end,
            StringScan::Unterminated => r matches Err(None),
            StringScan::BadEscape(k) => r matches Err(Some(e)) && e == k,
        },
{
    let mut text = String::new();
    let mut j = i + 1;
    while j < chars.len()
        invariant
            i < j <= chars@.len(),
            scan_string(chars@, i + 1, seq![]) == scan_string(chars@, j as int, text@),
        decreases chars@.len() - j,
    {
        let c = chars[j];
        if c == '"' {
            return Ok((text, j + 1));
        } else if c == '\\' {
            if j + 1 >= chars.len() {
                return Err(None);
            }
            let e = chars[j + 1];
            if e == '"' {
                push_char(&mut text, '"');
            } else if e == '\\' {
                push_char(&mut text, '\\');
            } else if e == 'n' {
                push_char(&mut text, '\n');
            } else if e == 't' {
                push_char(&mut text, '\t');
            } else if e == 'r' {
                push_char(&mut text, '\r');
            } else {
                return Err(Some(j + 1));
            }
            j = j + 2;
        } else if c == '\n' {
            return Err(None);
        } else {
            push_char(&mut text, c);
            j = j + 1;
        }
    }
    Err(None)
}

/// The punctuation or operator at `i` and its width.
fn scan_operator(chars: &Vec<char>, i: usize) -> (r: Option<(TokenKind, usize)>)
    requires
        i < chars@.len() < usize::MAX,
    ensures
        match operator_at(chars@, i as int) {
            Some((kind, width)) => r matches Some((k, w)) && k == kind && w == width,
            None => r is None,
        },
{
    let c = chars[i];
    let next: char = if i + 1 < chars.len() { chars[i + 1] } else { ' ' };
    let after: char = if i + 1 < chars.len() && i + 2 < chars.len() { chars[i + 2] } else { ' ' };
    if c == '(' {
        Some((TokenKind::LeftParen, 1))
    } else if c == ')' {
        Some((TokenKind::RightParen, 1))
    } else if c == '[' {
        Some((TokenKind::LeftBracket, 1))
    } else if c == ']' {
        Some((TokenKind::RightBracket, 1))
    } else if c == '{' {
        Some((TokenKind::LeftBrace, 1))
    } else if c == '}' {
        Some((TokenKind::RightBrace, 1))
    } else if c == ',' {
        Some((TokenKind::Comma, 1))
    } else if c == ';' {
        Some((TokenKind::Semicolon, 1))
    } else if c == ':' {
        if next == '=' { Some((TokenKind::Define, 2)) } else { Some((TokenKind::Colon, 1)) }
    } else if c == '.' {
        if next == '.' && after == '.' { Some((TokenKind::Ellipsis, 3)) } else { Some((TokenKind::Dot, 1)) }
    } else if c == '=' {
        if next == '=' { Some((TokenKind::EqualEqual, 2)) } else { Some((TokenKind::Assign, 1)) }
    } else if c == '!' {
        if next == '=' { Some((TokenKind::BangEqual, 2)) } else { None }
    } else if c == '+' {
        if next == '+' {
            Some((TokenKind::PlusPlus, 2))
        } else if next == '=' {
            Some((TokenKind::PlusAssign, 2))
        } else {
            Some((TokenKind::Plus, 1))
        }
    } else if c == '-' {
        if next == '-' {
            Some((TokenKind::MinusMinus, 2))
        } else if next == '=' {
            Some((TokenKind::MinusAssign, 2))
        } else {
            Some((TokenKind::Minus, 1))
        }
    } else if c == '*' {
        if next == '=' { Some((TokenKind::StarAssign, 2)) } else { Some((TokenKind::Star, 1)) }
    } else if c == '/' {
        if next == '=' { Some((TokenKind::SlashAssign, 2)) } else { Some((TokenKind::Slash, 1)) }
    } else if c == '<' {
        if next == '=' {
            Some((TokenKind::LessEqual, 2))
        } else if next == '-' {
            Some((TokenKind::LeftArrow, 2))
        } else {
            Some((TokenKind::Less, 1))
        }
    } else if c == '>' {
        if next == '=' { Some((TokenKind::GreaterEqual, 2)) } else { Some((TokenKind::Greater, 1)) }
    } else {
        None
    }
}

/// An error with the given message.
fn lex_error(message: String) -> (e: LexError)
    ensures
        e.text() == message@,
{
    LexError { message }
}

/// The tokens of a sequence of characters.
#[verifier::rlimit(60)]
#[verifier::spinoff_prover]
fn lex_chars(chars: &Vec<char>) -> (r: Result<Vec<Token>, LexError>)
    requires
        chars@.len() < usize::MAX,
    ensures
        match lex_text(chars@) {
            Ok(expected) => r is Ok && tokens_are(r->Ok_0@, expected),
            Err(message) => r is Err && r->Err_0.text() == message,
        },
{
    let mut tokens: Vec<Token> = Vec::new();
    let ghost mut expected: Seq<Lexed> = seq![];
    let mut i: usize = 0;
    let mut line: usize = 1;
    let mut column: usize = 1;
    let mut ends: bool = false;
    while i < chars.len()
        invariant
            i <= chars@.len() < usize::MAX,
            1 <= line <= i + 1,
            1 <= column <= i + 1,
            tokens_are(tokens@, expected),
            lex_text(chars@) == after_prefix(expected, lex_from(chars@, i as int, line as nat, column as nat, ends)),
        decreases chars@.len() - i,
    {
        let c = chars[i];
        let ghost before = lex_from(chars@, i as int, line as nat, column as nat, ends);
        if c == ' ' || c == '\t' || c == '\r' {
            i = i + 1;
            column = column + 1;
        } else if c == '\n' {
            if ends {
                let token = Token::new(TokenKind::Semicolon, Span::new(line, column));
                let ghost lexed = Lexed { lexeme: Lexeme::Fixed(TokenKind::Semicolon), line: line as nat, column: column as nat };
                proof {
                    lemma_after_first(expected, lexed, lex_from(chars@, i + 1, (line + 1) as nat, 1, false));
                    expected = expected.push(lexed);
                }
                tokens.push(token);
            }
            i = i + 1;
            line = line + 1;
            column = 1;
            ends = false;
        } else if c == '/' && i + 1 < chars.len() && chars[i + 1] == '/' {
            let end = scan_line(chars, i);
            proof {
                lemma_runs_advance(chars@, i as int);
            }
            if end < chars.len() {
                i = end + 1;
                line = line + 1;
                column = 1;
                ends = false;
            } else {
                column = column + (end - i);
                i = end;
            }
        } else if '0' <= c && c <= '9' {
            let end = scan_digits(chars, i);
            proof {
                lemma_runs_advance(chars@, i as int);
                assert forall|j: int| i <= j < end implies is_digit(#[trigger] chars@[j]) by {
                    lemma_digit_run(chars@, i as int, j);
                }
            }
            match decimal(chars, i, end) {
                Some(value) => {
                    let ghost lexed = Lexed { lexeme: Lexeme::Number(value as int), line: line as nat, column: column as nat };
                    proof {
                        lemma_after_first(expected, lexed, lex_from(chars@, end as int, line as nat, (column + (end - i)) as nat, true));
                        expected = expected.push(lexed);
                    }
                    tokens.push(Token::new(TokenKind::Integer(value), Span::new(line, column)));
                    column = column + (end - i);
                    i = end;
                    ends = true;
                },
                None => {
                    let mut message = String::new();
                    push_str(&mut message, "invalid integer `");
                    push_str(&mut message, text_between(chars, i, end).as_str());
                    push_str(&mut message, "` at ");
                    push_position(&mut message, line, column);
                    push_str(&mut message, ": number too large to fit in target type");
                    return Err(lex_error(message));
                },
            }
        } else if c == '"' {
            proof {
                lemma_scan_string_advances(chars@, i + 1, seq![]);
            }
            match scan_string_literal(chars, i) {
                Ok((text, end)) => {
                    let ghost lexed = Lexed { lexeme: Lexeme::Text(text@), line: line as nat, column: column as nat };
                    proof {
                        lemma_after_first(expected, lexed, lex_from(chars@, end as int, line as nat, (column + (end - i)) as nat, true));
                        expected = expected.push(lexed);
                    }
                    tokens.push(Token::new(TokenKind::String(text), Span::new(line, column)));
                    column = column + (end - i);
                    i = end;
                    ends = true;
                },
                Err(None) => {
                    let mut message = String::new();
                    push_str(&mut message, "unterminated string literal at ");
                    push_position(&mut message, line, column);
                    return Err(lex_error(message));
                },
                Err(Some(k)) => {
                    let mut message = String::new();
                    push_str(&mut message, "unsupported escape `\\");
                    push_char(&mut message, chars[k]);
                    push_str(&mut message, "` at ");
                    push_position(&mut message, line, column + (k - i));
                    assert(message@ =~= "unsupported escape `\\"@ + seq![chars@[k as int]] + "` at "@
                        + position_text(line as nat, (column + (k - i)) as nat));
                    return Err(lex_error(message));
                },
            }
        } else if ('a' <= c && c <= 'z') || ('A' <= c && c <= 'Z') || c == '_' {
            let end = scan_word(chars, i);
            proof {
                lemma_runs_advance(chars@, i as int);
            }
            let word = text_between(chars, i, end);
            let kind = word_kind(word);
            let stops = kind.can_end_statement();
            let ghost lexeme = word_lexeme(chars@.subrange(i as int, end as int));
            assert(stops == lexeme_ends_statement(lexeme));
            let ghost lexed = Lexed { lexeme, line: line as nat, column: column as nat };
            proof {
                lemma_after_first(expected, lexed, lex_from(chars@, end as int, line as nat, (column + (end - i)) as nat, stops));
                expected = expected.push(lexed);
            }
            tokens.push(Token::new(kind, Span::new(line, column)));
            column = column + (end - i);
            i = end;
            ends = stops;
        } else {
            match scan_operator(chars, i) {
                Some((kind, width)) => {
                    let stops = kind.can_end_statement();
                    let ghost lexed = Lexed { lexeme: Lexeme::Fixed(kind), line: line as nat, column: column as nat };
                    proof {
                        lemma_after_first(expected, lexed, lex_from(chars@, i + width, line as nat, (column + width) as nat, stops));
                        expected = expected.push(lexed);
                    }
                    tokens.push(Token::new(kind, Span::new(line, column)));
                    i = i + width;
                    column = column + width;
                    ends = stops;
                },
                None => {
                    let mut message = String::new();
                    push_str(&mut message, "unexpected character `");
                    push_char(&mut message, c);
                    push_str(&mut message, "` at ");
                    push_position(&mut message, line, column);
                    assert(message@ =~= "unexpected character `"@ + seq![c] + "` at "@ + position_text(line as nat, column as nat));
                    return Err(lex_error(message));
                },
            }
        }
        assert(tokens_are(tokens@, expected));
    }
    let ghost last = Lexed { lexeme: Lexeme::Fixed(TokenKind::Eof), line: line as nat, column: column as nat };
    tokens.push(Token::new(TokenKind::Eof, Span::new(line, column)));
    proof {
        assert(expected + seq![last] =~= expected.push(last));
        expected = expected.push(last);
    }
    assert(tokens_are(tokens@, expected));
    Ok(tokens)
}

proof fn lemma_digit_run(chars: Seq<char>, i: int, j: int)
    requires
        0 <= i <= j < digits_end(chars, i),
    ensures
        is_digit(chars[j]),
    decreases j - i,
{
    if i < j {
        lemma_digit_run(chars, i + 1, j);
    }
}

/// The tokens of a source file, ending with `Eof`; or why it cannot be read.
pub fn lex(source: &SourceFile) -> (r: Result<Vec<Token>, LexError>)
    requires
        source.contents@.len() < usize::MAX,
    ensures
        match lex_text(source.contents@) {
            Ok(expected) => r is Ok && tokens_are(r->Ok_0@, expected),
            Err(message) => r is Err && r->Err_0.text() == message,
        },
{
    let chars = chars_of(source.contents.as_str());
    lex_chars(&chars)
}

} // verus!
