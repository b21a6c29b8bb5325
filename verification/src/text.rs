//! Building display text: characters, decimal numbers and lossy UTF-8.

use vstd::prelude::*;
use vstd::string::*;
use vstd::utf8::*;

verus! {

/// What `String::from_utf8_lossy` makes of a byte sequence.
pub uninterp spec fn utf8_lossy(bytes: Seq<u8>) -> Seq<char>;

/// Appends one character to `text`.
///
/// Calls `String::push`, which std documents as appending the character to
/// the end of the string; the contract states exactly that.
#[verifier::external_body]
pub(crate) fn push_char(text: &mut String, c: char)
    ensures
        final(text)@ == old(text)@.push(c),
{
    text.push(c);
}

/// Decodes `bytes` as UTF-8, replacing invalid sequences.
///
/// Calls `String::from_utf8_lossy`. The contract names its result and states
/// the one fact that std documents plainly: valid UTF-8 decodes unchanged.
/// How invalid sequences are replaced is left unsaid.
#[verifier::external_body]
pub(crate) fn lossy_text(bytes: &[u8]) -> (text: String)
    ensures
        text@ == utf8_lossy(bytes@),
        valid_utf8(bytes@) ==> text@ == decode_utf8(bytes@),
{
    String::from_utf8_lossy(bytes).into_owned()
}

/// Appends `piece` to `text`.
pub fn push_str(text: &mut String, piece: &str)
    ensures
        final(text)@ == old(text)@ + piece@,
{
    text.append(piece);
}

/// Whether a string is exactly `literal`.
pub fn text_is(s: &String, literal: &str) -> (r: bool)
    ensures
        r == (s@ == literal@),
{
    let mut other = String::new();
    push_str(&mut other, literal);
    *s == other
}

/// The characters `chars[start..end]` as a new string.
pub fn text_between(chars: &Vec<char>, start: usize, end: usize) -> (s: String)
    requires
        start <= end <= chars@.len(),
    ensures
        s@ == chars@.subrange(start as int, end as int),
{
    let mut s = String::new();
    let mut j: usize = start;
    while j < end
        invariant
            start <= j <= end <= chars@.len(),
            s@ == chars@.subrange(start as int, j as int),
        decreases end - j,
    {
        push_char(&mut s, chars[j]);
        j = j + 1;
        assert(s@ =~= chars@.subrange(start as int, j as int));
    }
    s
}

/// The character of a decimal digit.
pub open spec fn digit_char(d: nat) -> char {
    ((48 + d) as u8) as char
}

/// The decimal digits of a natural number, most significant first.
pub open spec fn nat_text(n: nat) -> Seq<char>
    decreases n,
{
    if n < 10 {
        seq![digit_char(n)]
    } else {
        nat_text(n / 10).push(digit_char(n % 10))
    }
}

/// The decimal text of an integer, with a leading `-` when negative.
pub open spec fn int_text(v: int) -> Seq<char> {
    if v < 0 {
        seq!['-'] + nat_text((-v) as nat)
    } else {
        nat_text(v as nat)
    }
}

/// The text `true` or `false`.
pub open spec fn bool_text(b: bool) -> Seq<char> {
    if b {
        seq!['t', 'r', 'u', 'e']
    } else {
        seq!['f', 'a', 'l', 's', 'e']
    }
}

/// Appends the decimal digits of `n`.
pub fn push_nat(text: &mut String, n: u64)
    ensures
        final(text)@ == old(text)@ + nat_text(n as nat),
    decreases n,
{
    if n >= 10 {
        push_nat(text, n / 10);
    }
    let d: u8 = (n % 10) as u8;
    let c: char = (48u8 + d) as char;
    push_char(text, c);
    proof {
        assert(old(text)@ + nat_text(n as nat) =~= old(text)@ + (if n >= 10 { nat_text((n / 10) as nat) } else { Seq::empty() }).push(c));
    }
}

/// Appends the decimal text of `v`.
pub fn push_int(text: &mut String, v: i64)
    ensures
        final(text)@ == old(text)@ + int_text(v as int),
{
    if v < 0 {
        push_char(text, '-');
        let magnitude: u64 = if v == i64::MIN {
            9223372036854775808u64
        } else {
            (-v) as u64
        };
        push_nat(text, magnitude);
        assert(final(text)@ =~= old(text)@ + int_text(v as int));
    } else {
        push_nat(text, v as u64);
    }
}

/// Appends `true` or `false`.
pub fn push_bool(text: &mut String, b: bool)
    ensures
        final(text)@ == old(text)@ + bool_text(b),
{
    if b {
        push_char(text, 't');
        push_char(text, 'r');
        push_char(text, 'u');
        push_char(text, 'e');
    } else {
        push_char(text, 'f');
        push_char(text, 'a');
        push_char(text, 'l');
        push_char(text, 's');
        push_char(text, 'e');
    }
    assert(final(text)@ =~= old(text)@ + bool_text(b));
}

/// The decimal text of an integer as a new string.
pub fn int_string(v: i64) -> (text: String)
    ensures
        text@ == int_text(v as int),
{
    let mut text = String::new();
    push_int(&mut text, v);
    assert(text@ =~= int_text(v as int));
    text
}

/// How one character appears inside a quoted literal.
pub open spec fn escaped_char(c: char) -> Seq<char> {
    if c == '\\' {
        seq!['\\', '\\']
    } else if c == '"' {
        seq!['\\', '"']
    } else if c == '\n' {
        seq!['\\', 'n']
    } else if c == '\t' {
        seq!['\\', 't']
    } else if c == '\r' {
        seq!['\\', 'r']
    } else {
        seq![c]
    }
}

/// The characters of `s`, each escaped.
pub open spec fn escaped_text(s: Seq<char>) -> Seq<char>
    decreases s.len(),
{
    if s.len() == 0 {
        Seq::empty()
    } else {
        escaped_text(s.drop_last()) + escaped_char(s.last())
    }
}

/// `s` written as a double-quoted literal with escapes.
pub open spec fn quoted_text(s: Seq<char>) -> Seq<char> {
    seq!['"'] + escaped_text(s) + seq!['"']
}

/// The parts joined with `separator` between neighbours.
pub open spec fn join_with<T>(parts: Seq<Seq<T>>, separator: Seq<T>) -> Seq<T>
    decreases parts.len(),
{
    if parts.len() == 0 {
        Seq::empty()
    } else if parts.len() == 1 {
        parts[0]
    } else {
        join_with(parts.drop_last(), separator) + separator + parts.last()
    }
}

/// `t` right-aligned in a field three characters wide.
pub open spec fn pad3(t: Seq<char>) -> Seq<char> {
    if t.len() >= 3 {
        t
    } else {
        Seq::new((3 - t.len()) as nat, |i: int| ' ') + t
    }
}

/// Appends `s` as a double-quoted literal with `\\`, `\"`, `\n`, `\t` and
/// `\r` escaped.
pub fn push_quoted(text: &mut String, s: &str)
    ensures
        final(text)@ == old(text)@ + quoted_text(s@),
{
    let chars = chars_of(s);
    push_char(text, '"');
    let mut i: usize = 0;
    while i < chars.len()
        invariant
            i <= chars@.len(),
            chars@ == s@,
            text@ == old(text)@ + seq!['"'] + escaped_text(chars@.take(i as int)),
        decreases chars@.len() - i,
    {
        let c = chars[i];
        if c == '\\' {
            push_char(text, '\\');
            push_char(text, '\\');
        } else if c == '"' {
            push_char(text, '\\');
            push_char(text, '"');
        } else if c == '\n' {
            push_char(text, '\\');
            push_char(text, 'n');
        } else if c == '\t' {
            push_char(text, '\\');
            push_char(text, 't');
        } else if c == '\r' {
            push_char(text, '\\');
            push_char(text, 'r');
        } else {
            push_char(text, c);
        }
        proof {
            assert(chars@.take(i + 1).drop_last() =~= chars@.take(i as int));
            assert(chars@.take(i + 1).last() == c);
        }
        i = i + 1;
        assert(text@ =~= old(text)@ + seq!['"'] + escaped_text(chars@.take(i as int)));
    }
    assert(chars@.take(i as int) =~= s@);
    push_char(text, '"');
    assert(text@ =~= old(text)@ + quoted_text(s@));
}

/// Appends `t` right-aligned in a field three characters wide.
pub fn push_padded3(text: &mut String, t: &str)
    ensures
        final(text)@ == old(text)@ + pad3(t@),
{
    let chars = chars_of(t);
    let mut k: usize = chars.len();
    while k < 3
        invariant
            chars@ == t@,
            chars@.len() <= k <= 3 || (chars@.len() >= 3 && k == chars@.len()),
            text@ == old(text)@ + Seq::new((k - chars@.len()) as nat, |i: int| ' '),
        decreases 3 - k,
    {
        push_char(text, ' ');
        k = k + 1;
        assert(text@ =~= old(text)@ + Seq::new((k - chars@.len()) as nat, |i: int| ' '));
    }
    push_str(text, t);
    if chars.len() >= 3 {
        assert(Seq::new((k - chars@.len()) as nat, |i: int| ' ') =~= Seq::<char>::empty());
    }
    assert(text@ =~= old(text)@ + pad3(t@));
}

/// The characters of `s`, in order.
pub fn chars_of(s: &str) -> (r: Vec<char>)
    ensures
        r@ == s@,
{
    broadcast use vstd::string::axiom_spec_iter;

    let mut out: Vec<char> = Vec::new();
    for c in it: s.chars()
        invariant
            it.seq() == s@,
            out@ == it.seq().take(it.index() as int),
    {
        out.push(c);
        assert(out@ =~= it.seq().take(it.index() + 1));
    }
    assert(out@ =~= s@);
    out
}

/// The decimal text of an unsigned number as a new string.
pub fn nat_string(n: u64) -> (text: String)
    ensures
        text@ == nat_text(n as nat),
{
    let mut text = String::new();
    push_nat(&mut text, n);
    assert(text@ =~= nat_text(n as nat));
    text
}

} // verus!
