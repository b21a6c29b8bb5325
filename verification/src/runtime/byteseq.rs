//! Searching, comparing, joining and repeating byte sequences, the shared
//! ground of byte-oriented strings and byte slices.

use vstd::prelude::*;

verus! {

/// `needle` occurs in `haystack` starting at offset `i`.
pub open spec fn occurs_at(haystack: Seq<u8>, needle: Seq<u8>, i: int) -> bool {
    0 <= i && i + needle.len() <= haystack.len() && haystack.subrange(i, i + needle.len()) == needle
}

/// `i` is the first offset at which `needle` occurs.
pub open spec fn is_first_occurrence(haystack: Seq<u8>, needle: Seq<u8>, i: int) -> bool {
    &&& occurs_at(haystack, needle, i)
    &&& forall|j: int| 0 <= j < i ==> !#[trigger] occurs_at(haystack, needle, j)
}

/// `i` is the last offset at which `needle` occurs.
pub open spec fn is_last_occurrence(haystack: Seq<u8>, needle: Seq<u8>, i: int) -> bool {
    &&& occurs_at(haystack, needle, i)
    &&& forall|j: int| i < j ==> !#[trigger] occurs_at(haystack, needle, j)
}

/// `needle` occurs nowhere in `haystack`.
pub open spec fn never_occurs(haystack: Seq<u8>, needle: Seq<u8>) -> bool {
    forall|j: int| !#[trigger] occurs_at(haystack, needle, j)
}

/// The result of a forward search: the first occurrence, or `None`.
pub open spec fn first_search(haystack: Seq<u8>, needle: Seq<u8>, r: Option<usize>) -> bool {
    match r {
        Some(i) => is_first_occurrence(haystack, needle, i as int),
        None => never_occurs(haystack, needle),
    }
}

/// The result of a backward search: the last occurrence, or `None`.
pub open spec fn last_search(haystack: Seq<u8>, needle: Seq<u8>, r: Option<usize>) -> bool {
    match r {
        Some(i) => is_last_occurrence(haystack, needle, i as int),
        None => never_occurs(haystack, needle),
    }
}

/// `prefix` is a prefix of `s`.
pub open spec fn is_prefix(s: Seq<u8>, prefix: Seq<u8>) -> bool {
    occurs_at(s, prefix, 0)
}

/// `suffix` is a suffix of `s`.
pub open spec fn is_suffix(s: Seq<u8>, suffix: Seq<u8>) -> bool {
    occurs_at(s, suffix, s.len() - suffix.len())
}

/// Three-way lexicographic comparison: -1, 0 or 1.
pub open spec fn lex_compare(a: Seq<u8>, b: Seq<u8>) -> int
    decreases a.len(),
{
    if a.len() == 0 {
        if b.len() == 0 {
            0
        } else {
            -1
        }
    } else if b.len() == 0 {
        1
    } else if a[0] < b[0] {
        -1
    } else if a[0] > b[0] {
        1
    } else {
        lex_compare(a.drop_first(), b.drop_first())
    }
}

/// Lexicographic comparison is zero exactly on equal sequences.
pub proof fn lemma_lex_compare_zero(a: Seq<u8>, b: Seq<u8>)
    ensures
        (lex_compare(a, b) == 0) == (a == b),
    decreases a.len(),
{
    if a.len() > 0 && b.len() > 0 && a[0] == b[0] {
        lemma_lex_compare_zero(a.drop_first(), b.drop_first());
        if a.drop_first() == b.drop_first() {
            assert(a =~= seq![a[0]] + a.drop_first());
            assert(b =~= seq![b[0]] + b.drop_first());
        }
    } else if a.len() == 0 && b.len() > 0 {
        assert(a != b);
    } else if a.len() > 0 && b.len() == 0 {
        assert(a != b);
    } else if a.len() > 0 && b.len() > 0 {
        assert(a[0] != b[0]);
    } else {
        assert(a =~= b);
    }
}

/// Swapping the operands negates the comparison.
pub proof fn lemma_lex_compare_antisym(a: Seq<u8>, b: Seq<u8>)
    ensures
        lex_compare(a, b) == -lex_compare(b, a),
        -1 <= lex_compare(a, b) <= 1,
    decreases a.len(),
{
    if a.len() > 0 && b.len() > 0 && a[0] == b[0] {
        lemma_lex_compare_antisym(a.drop_first(), b.drop_first());
    }
}

/// Lexicographic "less" is transitive.
pub proof fn lemma_lex_compare_trans(a: Seq<u8>, b: Seq<u8>, c: Seq<u8>)
    requires
        lex_compare(a, b) < 0,
        lex_compare(b, c) < 0,
    ensures
        lex_compare(a, c) < 0,
    decreases a.len(),
{
    if a.len() > 0 && b.len() > 0 && c.len() > 0 && a[0] == b[0] && b[0] == c[0] {
        lemma_lex_compare_trans(a.drop_first(), b.drop_first(), c.drop_first());
    }
}

/// The parts joined with `separator` between neighbours.
pub open spec fn join_seqs(parts: Seq<Seq<u8>>, separator: Seq<u8>) -> Seq<u8>
    decreases parts.len(),
{
    if parts.len() == 0 {
        Seq::empty()
    } else if parts.len() == 1 {
        parts[0]
    } else {
        join_seqs(parts.drop_last(), separator) + separator + parts.last()
    }
}

/// `count` copies of `s`, one after another.
pub open spec fn repeat_seq(s: Seq<u8>, count: nat) -> Seq<u8>
    decreases count,
{
    if count == 0 {
        Seq::empty()
    } else {
        repeat_seq(s, (count - 1) as nat) + s
    }
}

/// Repeating the empty sequence gives the empty sequence.
pub proof fn lemma_repeat_empty(count: nat)
    ensures
        repeat_seq(Seq::<u8>::empty(), count) == Seq::<u8>::empty(),
    decreases count,
{
    if count > 0 {
        lemma_repeat_empty((count - 1) as nat);
        assert(repeat_seq(Seq::<u8>::empty(), (count - 1) as nat) + Seq::<u8>::empty() =~= Seq::<u8>::empty());
    }
}

/// The first index holding `b`, or `None`.
pub open spec fn first_byte_search(s: Seq<u8>, b: u8, r: Option<usize>) -> bool {
    match r {
        Some(i) => i < s.len() && s[i as int] == b && forall|j: int| 0 <= j < i ==> s[j] != b,
        None => forall|j: int| 0 <= j < s.len() ==> s[j] != b,
    }
}

/// The last index holding `b`, or `None`.
pub open spec fn last_byte_search(s: Seq<u8>, b: u8, r: Option<usize>) -> bool {
    match r {
        Some(i) => i < s.len() && s[i as int] == b && forall|j: int| i < j < s.len() ==> s[j] != b,
        None => forall|j: int| 0 <= j < s.len() ==> s[j] != b,
    }
}

/// Whether `needle` occurs in `haystack` at offset `i`.
pub fn matches_at(haystack: &[u8], needle: &[u8], i: usize) -> (found: bool)
    requires
        i + needle@.len() <= haystack@.len(),
    ensures
        found == occurs_at(haystack@, needle@, i as int),
{
    let hl = haystack.len();
    let mut k: usize = 0;
    while k < needle.len()
        invariant
            hl == haystack@.len(),
            i + needle@.len() <= haystack@.len(),
            k <= needle@.len(),
            forall|m: int| 0 <= m < k ==> haystack@[i + m] == needle@[m],
        decreases needle@.len() - k,
    {
        if haystack[i + k] != needle[k] {
            assert(haystack@.subrange(i as int, i + needle@.len())[k as int] != needle@[k as int]);
            return false;
        }
        k = k + 1;
    }
    assert(haystack@.subrange(i as int, i + needle@.len()) =~= needle@);
    true
}

/// The first offset at which `needle` occurs in `haystack`; an empty needle
/// is found at offset 0.
pub fn find_first(haystack: &[u8], needle: &[u8]) -> (r: Option<usize>)
    ensures
        first_search(haystack@, needle@, r),
{
    if needle.len() == 0 {
        assert(haystack@.subrange(0, 0) =~= needle@);
        return Some(0);
    }
    if needle.len() > haystack.len() {
        return None;
    }
    let last = haystack.len() - needle.len();
    let mut i: usize = 0;
    while i <= last
        invariant
            last + needle@.len() == haystack@.len(),
            last < usize::MAX,
            i <= last + 1,
            forall|j: int| 0 <= j < i ==> !#[trigger] occurs_at(haystack@, needle@, j),
        decreases last + 1 - i,
    {
        if matches_at(haystack, needle, i) {
            return Some(i);
        }
        i = i + 1;
    }
    None
}

/// Whether `prefix` is a prefix of `s`.
pub fn starts_with(s: &[u8], prefix: &[u8]) -> (r: bool)
    ensures
        r == is_prefix(s@, prefix@),
{
    if prefix.len() > s.len() {
        return false;
    }
    matches_at(s, prefix, 0)
}

/// Whether `suffix` is a suffix of `s`.
pub fn ends_with(s: &[u8], suffix: &[u8]) -> (r: bool)
    ensures
        r == is_suffix(s@, suffix@),
{
    if suffix.len() > s.len() {
        return false;
    }
    matches_at(s, suffix, s.len() - suffix.len())
}

/// The first index holding `b`.
pub fn find_byte(s: &[u8], b: u8) -> (r: Option<usize>)
    ensures
        first_byte_search(s@, b, r),
{
    let mut i: usize = 0;
    while i < s.len()
        invariant
            i <= s@.len(),
            forall|j: int| 0 <= j < i ==> s@[j] != b,
        decreases s@.len() - i,
    {
        if s[i] == b {
            return Some(i);
        }
        i = i + 1;
    }
    None
}

/// The last index holding `b`.
pub fn rfind_byte(s: &[u8], b: u8) -> (r: Option<usize>)
    ensures
        last_byte_search(s@, b, r),
{
    let mut i: usize = s.len();
    while i > 0
        invariant
            i <= s@.len(),
            forall|j: int| i <= j < s@.len() ==> s@[j] != b,
        decreases i,
    {
        if s[i - 1] == b {
            return Some(i - 1);
        }
        i = i - 1;
    }
    None
}

/// Lexicographic comparison of two byte sequences: -1, 0 or 1.
pub fn compare_bytes(a: &[u8], b: &[u8]) -> (r: i64)
    ensures
        r == lex_compare(a@, b@),
{
    let mut i: usize = 0;
    assert(a@.skip(0) =~= a@);
    assert(b@.skip(0) =~= b@);
    while i < a.len() && i < b.len()
        invariant
            i <= a@.len(),
            i <= b@.len(),
            lex_compare(a@, b@) == lex_compare(a@.skip(i as int), b@.skip(i as int)),
        decreases a@.len() - i,
    {
        if a[i] < b[i] {
            return -1;
        }
        if a[i] > b[i] {
            return 1;
        }
        assert(a@.skip(i as int).drop_first() =~= a@.skip(i + 1));
        assert(b@.skip(i as int).drop_first() =~= b@.skip(i + 1));
        i = i + 1;
    }
    if i < a.len() {
        1
    } else if i < b.len() {
        -1
    } else {
        0
    }
}

/// Appends the bytes of `piece` to `out`.
pub fn extend_bytes(out: &mut Vec<u8>, piece: &[u8])
    ensures
        final(out)@ == old(out)@ + piece@,
{
    let mut i: usize = 0;
    while i < piece.len()
        invariant
            i <= piece@.len(),
            out@ == old(out)@ + piece@.take(i as int),
        decreases piece@.len() - i,
    {
        out.push(piece[i]);
        i = i + 1;
        assert(out@ =~= old(out)@ + piece@.take(i as int));
    }
    assert(piece@.take(i as int) =~= piece@);
}

/// A fresh vector holding the bytes of `s`.
pub fn bytes_to_vec(s: &[u8]) -> (r: Vec<u8>)
    ensures
        r@ == s@,
{
    let mut out: Vec<u8> = Vec::new();
    extend_bytes(&mut out, s);
    assert(out@ =~= s@);
    out
}

/// The parts joined with `separator` between neighbours.
pub fn join_byte_parts(parts: &Vec<Vec<u8>>, separator: &[u8]) -> (r: Vec<u8>)
    ensures
        r@ == join_seqs(parts@.map_values(|p: Vec<u8>| p@), separator@),
{
    let ghost views = parts@.map_values(|p: Vec<u8>| p@);
    let mut out: Vec<u8> = Vec::new();
    let mut i: usize = 0;
    while i < parts.len()
        invariant
            i <= parts@.len(),
            views == parts@.map_values(|p: Vec<u8>| p@),
            out@ == join_seqs(views.take(i as int), separator@),
        decreases parts@.len() - i,
    {
        proof {
            assert(views.take(i + 1).drop_last() =~= views.take(i as int));
            assert(views.take(i + 1).last() == parts@[i as int]@);
        }
        if i > 0 {
            extend_bytes(&mut out, separator);
        } else {
            assert(views.take(0) =~= Seq::<Seq<u8>>::empty());
        }
        extend_bytes(&mut out, parts[i].as_slice());
        i = i + 1;
        proof {
            if i == 1 {
                assert(out@ =~= views.take(1)[0]);
            }
        }
    }
    assert(views.take(i as int) =~= views);
    out
}

/// `count` copies of `s`, one after another.
pub fn repeat_bytes(s: &[u8], count: usize) -> (r: Vec<u8>)
    ensures
        r@ == repeat_seq(s@, count as nat),
{
    let mut out: Vec<u8> = Vec::new();
    let mut k: usize = 0;
    while k < count
        invariant
            k <= count,
            out@ == repeat_seq(s@, k as nat),
        decreases count - k,
    {
        extend_bytes(&mut out, s);
        k = k + 1;
    }
    out
}

} // verus!
