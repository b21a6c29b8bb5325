//! Laws that relate the operations on runtime values: what a read gives
//! back after a write, what trimming gives back after joining, and what a
//! channel does once it is closed.

use vstd::prelude::*;

use crate::runtime::byteseq::{is_prefix, is_suffix, lemma_lex_compare_zero, lex_compare};
use crate::bytecode::instruction::Instruction;
use crate::runtime::vm::handlers::{byte_arithmetic, integer_arithmetic, ordering_holds, ArithmeticOp, OrderingOp};
use crate::runtime::vm::step::operation_done;
use crate::runtime::vm::{Fault, VirtualMachine};
use crate::runtime::value::{
    all_bytes, byte_payloads, byte_values, close_outcome, closed_from, entries_after_insert, entries_after_remove,
    key_less, key_position, receive_outcome, received_from, same_key, send_outcome, sorted_entries, ChannelCloseError,
    ChannelReceiveError, ChannelReceiveResult, ChannelSendError, ChannelValue, Heap, MapKey, MapValue, SliceValue,
    StringValue, Value,
};

verus! {

/// `value` is the value stored under `key` among `entries`.
pub open spec fn stored(entries: Seq<(MapKey, Value)>, key: MapKey, value: Value) -> bool {
    exists|i: usize| #[trigger] key_position(entries, key, Some(i)) && entries[i as int].1 == value
}

/// Keys in key order are distinct keys.
pub proof fn lemma_less_not_same(a: MapKey, b: MapKey)
    ensures
        key_less(a, b) ==> !same_key(a, b),
{
    if same_key(a, b) {
        lemma_lex_compare_zero(crate::runtime::value::key_bytes(a), crate::runtime::value::key_bytes(b));
    }
}

/// Reading a map after storing `value` under `key` finds `value` under
/// that key, and every other key reads as it did before.
pub proof fn law_map_read_after_write(
    old: Seq<(MapKey, Value)>,
    new: Seq<(MapKey, Value)>,
    key: MapKey,
    value: Value,
    other: MapKey,
    v: Value,
)
    requires
        entries_after_insert(old, new, key, value),
        new.len() <= usize::MAX,
    ensures
        stored(new, key, value),
        !same_key(other, key) ==> (stored(new, other, v) <==> stored(old, other, v)),
        !same_key(other, key) ==> (key_position(new, other, None) <==> key_position(old, other, None)),
{
    if exists|i: usize| #[trigger] key_position(old, key, Some(i)) && new == old.update(i as int, (key, value)) {
        let i = choose|i: usize| #[trigger] key_position(old, key, Some(i)) && new == old.update(i as int, (key, value));
        assert(key_position(new, key, Some(i)) && new[i as int].1 == value);
        if !same_key(other, key) {
            if stored(new, other, v) {
                let j = choose|j: usize| #[trigger] key_position(new, other, Some(j)) && new[j as int].1 == v;
                assert(j != i);
                assert(key_position(old, other, Some(j)) && old[j as int].1 == v);
            }
            if stored(old, other, v) {
                let j = choose|j: usize| #[trigger] key_position(old, other, Some(j)) && old[j as int].1 == v;
                assert(j != i);
                assert(key_position(new, other, Some(j)) && new[j as int].1 == v);
            }
            if key_position(new, other, None) {
                assert forall|j: int| 0 <= j < old.len() implies !same_key(#[trigger] old[j].0, other) by {
                    if j != i {
                        assert(new[j] == old[j]);
                    }
                }
            }
            if key_position(old, other, None) {
                assert forall|j: int| 0 <= j < new.len() implies !same_key(#[trigger] new[j].0, other) by {
                    if j != i {
                        assert(new[j] == old[j]);
                    }
                }
            }
        }
    } else {
        let i = choose|i: int| 0 <= i <= old.len() && new == #[trigger] old.insert(i, (key, value));
        assert(key_position(new, key, Some(i as usize)) && new[i].1 == value);
        if !same_key(other, key) {
            if stored(new, other, v) {
                let j = choose|j: usize| #[trigger] key_position(new, other, Some(j)) && new[j as int].1 == v;
                assert(j != i);
                if j < i {
                    assert(key_position(old, other, Some(j)) && old[j as int].1 == v);
                } else {
                    assert(new[j as int] == old[j - 1]);
                    assert(key_position(old, other, Some((j - 1) as usize)) && old[j - 1].1 == v);
                }
            }
            if stored(old, other, v) {
                let j = choose|j: usize| #[trigger] key_position(old, other, Some(j)) && old[j as int].1 == v;
                if j < i {
                    assert(key_position(new, other, Some(j)) && new[j as int].1 == v);
                } else {
                    assert(new[j + 1] == old[j as int]);
                    assert(key_position(new, other, Some((j + 1) as usize)) && new[j + 1].1 == v);
                }
            }
            if key_position(new, other, None) {
                assert forall|j: int| 0 <= j < old.len() implies !same_key(#[trigger] old[j].0, other) by {
                    if j < i {
                        assert(new[j] == old[j]);
                    } else {
                        assert(new[j + 1] == old[j]);
                    }
                }
            }
            if key_position(old, other, None) {
                assert forall|j: int| 0 <= j < new.len() implies !same_key(#[trigger] new[j].0, other) by {
                    if j < i {
                        assert(new[j] == old[j]);
                    } else if j > i {
                        assert(new[j] == old[j - 1]);
                    }
                }
            }
        }
    }
}

/// After a key is deleted from a map whose entries are in key order, the
/// key reads as absent, and every other key reads as it did before.
pub proof fn law_map_read_after_delete(
    old: Seq<(MapKey, Value)>,
    new: Seq<(MapKey, Value)>,
    key: MapKey,
    other: MapKey,
    v: Value,
)
    requires
        sorted_entries(old),
        entries_after_remove(old, new, key),
        old.len() <= usize::MAX,
    ensures
        key_position(new, key, None),
        !same_key(other, key) ==> (stored(new, other, v) <==> stored(old, other, v)),
{
    if exists|i: usize| #[trigger] key_position(old, key, Some(i)) && new == old.remove(i as int) {
        let i = choose|i: usize| #[trigger] key_position(old, key, Some(i)) && new == old.remove(i as int);
        assert forall|j: int| 0 <= j < new.len() implies !same_key(#[trigger] new[j].0, key) by {
            let k = if j < i { j } else { j + 1 };
            assert(new[j] == old[k]);
            if k < i {
                assert(key_less(old[k].0, old[i as int].0));
                lemma_less_not_same(old[k].0, old[i as int].0);
            } else {
                assert(key_less(old[i as int].0, old[k].0));
                lemma_less_not_same(old[i as int].0, old[k].0);
            }
        }
        if !same_key(other, key) {
            if stored(new, other, v) {
                let j = choose|j: usize| #[trigger] key_position(new, other, Some(j)) && new[j as int].1 == v;
                if j < i {
                    assert(key_position(old, other, Some(j)) && old[j as int].1 == v);
                } else {
                    assert(new[j as int] == old[j + 1]);
                    assert(key_position(old, other, Some((j + 1) as usize)) && old[j + 1].1 == v);
                }
            }
            if stored(old, other, v) {
                let j = choose|j: usize| #[trigger] key_position(old, other, Some(j)) && old[j as int].1 == v;
                assert(j != i);
                if j < i {
                    assert(key_position(new, other, Some(j)) && new[j as int].1 == v);
                } else {
                    assert(new[j - 1] == old[j as int]);
                    assert(key_position(new, other, Some((j - 1) as usize)) && new[j - 1].1 == v);
                }
            }
        }
    }
}

/// A slice window shares storage with the slice it was cut from: writing
/// element `i` of the window that starts `low` elements in is seen as
/// element `low + i` of the wider slice, and nothing else it shows changes.
pub proof fn law_window_shares_storage(
    before: Heap,
    after: Heap,
    s: SliceValue,
    window: SliceValue,
    low: nat,
    i: nat,
    v: Value,
)
    requires
        before.slice_ok(s),
        window.spec_start() == s.spec_start() + low,
        i < window.spec_len(),
        low + i < s.spec_len(),
        after.cells_view() == before.cells_view().update((window.spec_start() + i) as int, v),
    ensures
        after.elements(s)[(low + i) as int] == v,
        forall|j: int| 0 <= j < s.spec_len() && j != low + i ==> after.elements(s)[j] == before.elements(s)[j],
{
}

/// Trimming a prefix undoes putting it in front: `a + b` begins with `a`,
/// and without it is `b`.
pub proof fn law_trim_prefix_undoes_concat(a: Seq<u8>, b: Seq<u8>)
    ensures
        is_prefix(a + b, a),
        (a + b).skip(a.len() as int) == b,
{
    assert((a + b).subrange(0, a.len() as int) =~= a);
    assert((a + b).skip(a.len() as int) =~= b);
}

/// Trimming a suffix undoes putting it behind: `a + b` ends with `b`, and
/// without it is `a`.
pub proof fn law_trim_suffix_undoes_concat(a: Seq<u8>, b: Seq<u8>)
    ensures
        is_suffix(a + b, b),
        (a + b).take((a + b).len() - b.len()) == a,
{
    assert((a + b).subrange(a.len() as int, (a + b).len() as int) =~= b);
    assert((a + b).take((a + b).len() - b.len()) =~= a);
}

/// A channel hands values out in the order they went in: sending puts a
/// value behind those already buffered, receiving takes the front one.
pub proof fn law_channel_first_in_first_out(buffer: Seq<Value>, v: Value)
    ensures
        buffer.push(v)[0] == (if buffer.len() == 0 { v } else { buffer[0] }),
        buffer.len() > 0 ==> buffer.push(v).drop_first() == buffer.drop_first().push(v),
        buffer.len() == 0 ==> buffer.push(v).drop_first().len() == 0,
{
    if buffer.len() > 0 {
        assert(buffer.push(v).drop_first() =~= buffer.drop_first().push(v));
    }
}

/// Closing a channel shows through every copy of its handle (a copy of a
/// handle is equal to it): afterwards a send through the copy fails as
/// closed, closing it again fails as closed, the buffered values stay,
/// and a receive hands out the front one, or reports the channel closed
/// when none is left.
pub proof fn law_channel_close_seen_by_copies(before: Heap, after: Heap, c: ChannelValue, copy: ChannelValue)
    requires
        copy == c,
        close_outcome(before, c) is Ok,
        closed_from(before, after, c),
    ensures
        send_outcome(after, copy) == Err::<(), ChannelSendError>(ChannelSendError::Closed),
        close_outcome(after, copy) == Err::<(), ChannelCloseError>(ChannelCloseError::Closed),
        after.channel_buffer(copy) == before.channel_buffer(c),
        receive_outcome(after, copy) == (if before.channel_buffer(c).len() > 0 {
            Ok::<ChannelReceiveResult, ChannelReceiveError>(ChannelReceiveResult::Value(before.channel_buffer(c)[0]))
        } else {
            Ok::<ChannelReceiveResult, ChannelReceiveError>(ChannelReceiveResult::ClosedEmpty)
        }),
{
}

/// Receiving repeatedly from a closed channel keeps it closed; before the
/// `i`th receive the buffer holds what it held at first, less the first
/// `i` values.
proof fn lemma_drained_state(heaps: Seq<Heap>, c: ChannelValue, i: int)
    requires
        !c.spec_is_nil(),
        heaps.len() == heaps[0].channel_buffer(c).len() + 1,
        heaps[0].channel_closed(c),
        forall|j: int| 0 <= j < heaps.len() - 1 ==> #[trigger] received_from(heaps[j], heaps[j + 1], c),
        0 <= i < heaps.len(),
    ensures
        heaps[i].channel_closed(c),
        heaps[i].channel_buffer(c) == heaps[0].channel_buffer(c).skip(i),
    decreases i,
{
    let first = heaps[0].channel_buffer(c);
    if i == 0 {
        assert(first.skip(0) =~= first);
    } else {
        lemma_drained_state(heaps, c, i - 1);
        let j = i - 1;
        assert(received_from(heaps[j], heaps[j + 1], c));
        assert(first.skip(i - 1).drop_first() =~= first.skip(i));
    }
}

/// A closed channel hands out what it buffered, front first, one value
/// per receive, and then reports itself closed; it stays closed all along,
/// and every send on it fails as closed.
pub proof fn law_closed_channel_drains(heaps: Seq<Heap>, c: ChannelValue)
    requires
        !c.spec_is_nil(),
        heaps.len() == heaps[0].channel_buffer(c).len() + 1,
        heaps[0].channel_closed(c),
        forall|i: int| 0 <= i < heaps.len() - 1 ==> #[trigger] received_from(heaps[i], heaps[i + 1], c),
    ensures
        forall|i: int| 0 <= i < heaps.len() - 1 ==> #[trigger] receive_outcome(heaps[i], c)
            == Ok::<ChannelReceiveResult, ChannelReceiveError>(ChannelReceiveResult::Value(heaps[0].channel_buffer(c)[i])),
        receive_outcome(heaps.last(), c) == Ok::<ChannelReceiveResult, ChannelReceiveError>(ChannelReceiveResult::ClosedEmpty),
        forall|i: int| 0 <= i < heaps.len() ==> #[trigger] send_outcome(heaps[i], c)
            == Err::<(), ChannelSendError>(ChannelSendError::Closed),
{
    let first = heaps[0].channel_buffer(c);
    assert forall|i: int| 0 <= i < heaps.len() - 1 implies #[trigger] receive_outcome(heaps[i], c)
        == Ok::<ChannelReceiveResult, ChannelReceiveError>(ChannelReceiveResult::Value(first[i])) by {
        lemma_drained_state(heaps, c, i);
        assert(first.skip(i)[0] == first[i]);
    }
    lemma_drained_state(heaps, c, heaps.len() - 1);
    assert forall|i: int| 0 <= i < heaps.len() implies #[trigger] send_outcome(heaps[i], c)
        == Err::<(), ChannelSendError>(ChannelSendError::Closed) by {
        lemma_drained_state(heaps, c, i);
    }
}

/// A string converted to a byte slice converts back to itself: the slice
/// holds only byte values, and their bytes are the string's bytes.
pub proof fn law_string_bytes_round_trip(text: Seq<u8>)
    ensures
        all_bytes(byte_values(text)),
        byte_payloads(byte_values(text)) == text,
{
    assert(byte_payloads(byte_values(text)) =~= text);
}

/// The absolute value of an integer.
pub open spec fn magnitude(x: int) -> int {
    if x < 0 { -x } else { x }
}

/// Integer division truncates toward zero: for a divisor `b` other than
/// zero, the quotient `q` leaves a remainder `a - q * b` smaller than `b`
/// in magnitude and of the sign of `a` (or zero). The one quotient that
/// does not fit, the minimum divided by -1, wraps to the minimum.
pub proof fn law_integer_division_truncates(a: i64, b: i64)
    requires
        b != 0,
    ensures
        integer_arithmetic(ArithmeticOp::Divide, a, b) is Some,
        !(a == i64::MIN && b == -1) ==> ({
            let q = integer_arithmetic(ArithmeticOp::Divide, a, b)->Some_0 as int;
            let r = a - q * b;
            &&& magnitude(r) < magnitude(b as int)
            &&& r == 0 || (r > 0) == (a > 0)
        }),
        a == i64::MIN && b == -1 ==> integer_arithmetic(ArithmeticOp::Divide, a, b) == Some(i64::MIN),
{
    let x = a as int;
    let d = b as int;
    assert(x * -1 == -x && d * -1 == -d);
    if a == i64::MIN && b == -1 {
        assert(((x * -1) / (d * -1)) == x * -1) by (nonlinear_arith)
            requires d == -1;
    } else if x == 0 {
    } else if x > 0 && d > 0 {
        let q = x / d;
        vstd::arithmetic::div_mod::lemma_fundamental_div_mod(x, d);
        vstd::arithmetic::div_mod::lemma_mod_pos_bound(x, d);
        let m = x % d;
        assert(0 <= q <= x && x - q * d == m) by (nonlinear_arith)
            requires x > 0, d > 0, q == x / d, x == d * q + m, 0 <= m < d;
        assert(integer_arithmetic(ArithmeticOp::Divide, a, b) == Some(q as i64));
    } else if x < 0 && d < 0 {
        let q = (-x) / (-d);
        vstd::arithmetic::div_mod::lemma_fundamental_div_mod(-x, -d);
        vstd::arithmetic::div_mod::lemma_mod_pos_bound(-x, -d);
        let m = (-x) % (-d);
        assert(0 <= q <= -x && x - q * d == -m) by (nonlinear_arith)
            requires -x > 0, -d > 0, q == (-x) / (-d), -x == (-d) * q + m, 0 <= m < -d;
        if d == -1 {
            assert(q == -x) by (nonlinear_arith)
                requires -x == (-d) * q + m, 0 <= m < -d, d == -1;
        } else {
            assert(2 * q <= -x) by (nonlinear_arith)
                requires -x == (-d) * q + m, 0 <= m, -d >= 2, q >= 0;
        }
        assert(q <= i64::MAX);
        assert(((x * -1) / (d * -1)) == q);
        assert(integer_arithmetic(ArithmeticOp::Divide, a, b) == Some(q as i64));
    } else if x < 0 {
        let q = (-x) / d;
        vstd::arithmetic::div_mod::lemma_fundamental_div_mod(-x, d);
        vstd::arithmetic::div_mod::lemma_mod_pos_bound(-x, d);
        let m = (-x) % d;
        assert(0 <= q <= -x && x - (-q) * d == -m) by (nonlinear_arith)
            requires -x > 0, d > 0, q == (-x) / d, -x == d * q + m, 0 <= m < d;
        assert((((x * -1) / d) * -1) == -q);
        assert(integer_arithmetic(ArithmeticOp::Divide, a, b) == Some((-q) as i64));
    } else {
        let q = x / (-d);
        vstd::arithmetic::div_mod::lemma_fundamental_div_mod(x, -d);
        vstd::arithmetic::div_mod::lemma_mod_pos_bound(x, -d);
        let m = x % (-d);
        assert(0 <= q <= x && x - (-q) * d == m) by (nonlinear_arith)
            requires x > 0, -d > 0, q == x / (-d), x == (-d) * q + m, 0 <= m < -d;
        assert(((x / (d * -1)) * -1) == -q);
        assert(integer_arithmetic(ArithmeticOp::Divide, a, b) == Some((-q) as i64));
    }
}

/// `a` comes before `b` byte by byte: they agree on their first `k`
/// bytes, and then `a` ends while `b` goes on, or `a`'s next byte is the
/// smaller.
pub open spec fn bytes_before(a: Seq<u8>, b: Seq<u8>) -> bool {
    exists|k: int| #![trigger a.take(k), b.take(k)] 0 <= k <= a.len() && k <= b.len() && a.take(k) == b.take(k) && (
        (k == a.len() && k < b.len()) || (k < a.len() && k < b.len() && a[k] < b[k]))
}

/// The byte comparison of the key order puts `a` first exactly when it
/// comes before `b` byte by byte.
proof fn lemma_lex_less_is_bytes_before(a: Seq<u8>, b: Seq<u8>)
    ensures
        lex_compare(a, b) < 0 <==> bytes_before(a, b),
    decreases a.len(),
{
    if a.len() == 0 {
        if b.len() > 0 {
            assert(a.take(0) =~= b.take(0));
        }
    } else if b.len() == 0 {
    } else if a[0] < b[0] {
        assert(a.take(0) =~= b.take(0));
    } else if a[0] > b[0] {
        if bytes_before(a, b) {
            let k = choose|k: int| #![trigger a.take(k), b.take(k)] 0 <= k <= a.len() && k <= b.len() && a.take(k) == b.take(k) && (
                (k == a.len() && k < b.len()) || (k < a.len() && k < b.len() && a[k] < b[k]));
            if k > 0 {
                assert(a.take(k)[0] == b.take(k)[0]);
            }
        }
    } else {
        let a1 = a.drop_first();
        let b1 = b.drop_first();
        lemma_lex_less_is_bytes_before(a1, b1);
        if bytes_before(a, b) {
            let k = choose|k: int| #![trigger a.take(k), b.take(k)] 0 <= k <= a.len() && k <= b.len() && a.take(k) == b.take(k) && (
                (k == a.len() && k < b.len()) || (k < a.len() && k < b.len() && a[k] < b[k]));
            assert(k > 0);
            assert(a1.take(k - 1) =~= b1.take(k - 1)) by {
                assert forall|n: int| 0 <= n < k - 1 implies #[trigger] a1.take(k - 1)[n] == b1.take(k - 1)[n] by {
                    assert(a.take(k)[n + 1] == b.take(k)[n + 1]);
                }
            }
        }
        if bytes_before(a1, b1) {
            let k = choose|k: int| #![trigger a1.take(k), b1.take(k)] 0 <= k <= a1.len() && k <= b1.len() && a1.take(k) == b1.take(k) && (
                (k == a1.len() && k < b1.len()) || (k < a1.len() && k < b1.len() && a1[k] < b1[k]));
            assert(a.take(k + 1) =~= b.take(k + 1)) by {
                assert forall|n: int| 0 <= n < k + 1 implies #[trigger] a.take(k + 1)[n] == b.take(k + 1)[n] by {
                    if n > 0 {
                        assert(a1.take(k)[n - 1] == b1.take(k)[n - 1]);
                    }
                }
            }
        }
    }
}

/// Map keys are ordered as their payloads are: integers and bytes by `<`,
/// `false` before `true`, and strings byte by byte, a proper prefix first.
pub proof fn law_key_order_follows_payloads(i: i64, j: i64, x: u8, y: u8, s: StringValue, t: StringValue)
    ensures
        key_less(MapKey::Integer(i), MapKey::Integer(j)) <==> i < j,
        key_less(MapKey::Byte(x), MapKey::Byte(y)) <==> x < y,
        key_less(MapKey::Boolean(false), MapKey::Boolean(true)),
        !key_less(MapKey::Boolean(true), MapKey::Boolean(false)),
        key_less(MapKey::String(s), MapKey::String(t)) <==> bytes_before(s@, t@),
{
    lemma_lex_less_is_bytes_before(Seq::empty(), Seq::empty());
    lemma_lex_less_is_bytes_before(s@, t@);
}

/// A map holds its entries in ascending key order: of two entries, the
/// earlier has the smaller key, so integer keys come out smallest first.
pub proof fn law_map_entries_ascending(heap: Heap, m: MapValue, a: int, b: int)
    requires
        heap.wf(),
        heap.map_ok(m),
        0 <= a < b < heap.map_entries(m).len(),
    ensures
        key_less(heap.map_entries(m)[a].0, heap.map_entries(m)[b].0),
        heap.map_entries(m)[a].0 is Integer && heap.map_entries(m)[b].0 is Integer
            ==> heap.map_entries(m)[a].0->Integer_0 < heap.map_entries(m)[b].0->Integer_0,
        heap.map_entries(m)[a].0 is Byte && heap.map_entries(m)[b].0 is Byte
            ==> heap.map_entries(m)[a].0->Byte_0 < heap.map_entries(m)[b].0->Byte_0,
{
    heap.lemma_entries_sorted(m);
    let e = heap.map_entries(m);
    assert(key_less(e[a].0, e[b].0));
    assert(lex_compare(Seq::<u8>::empty(), Seq::<u8>::empty()) == 0);
}

/// The exact result of an addition, subtraction or multiplication.
pub open spec fn exact_result(op: ArithmeticOp, a: int, b: int) -> int {
    match op {
        ArithmeticOp::Add => a + b,
        ArithmeticOp::Subtract => a - b,
        ArithmeticOp::Multiply => a * b,
        ArithmeticOp::Divide => 0,
    }
}

/// Integer addition, subtraction and multiplication wrap around: the
/// result differs from the exact one by a multiple of 2^64, and is the
/// exact one whenever that fits in 64 bits.
pub proof fn law_integer_arithmetic_wraps(op: ArithmeticOp, a: i64, b: i64)
    requires
        op != ArithmeticOp::Divide,
    ensures
        integer_arithmetic(op, a, b) is Some,
        (integer_arithmetic(op, a, b)->Some_0 - exact_result(op, a as int, b as int)) % 0x1_0000_0000_0000_0000int == 0,
        i64::MIN <= exact_result(op, a as int, b as int) <= i64::MAX
            ==> integer_arithmetic(op, a, b)->Some_0 == exact_result(op, a as int, b as int),
{
    let e = exact_result(op, a as int, b as int);
    let r = integer_arithmetic(op, a, b)->Some_0 as int;
    let m: int = 0x1_0000_0000_0000_0000;
    if op == ArithmeticOp::Multiply {
        vstd::arithmetic::div_mod::lemma_fundamental_div_mod(e, m);
        let c = e % m;
        assert(0 <= c < m) by {
            vstd::arithmetic::div_mod::lemma_mod_bound(e, m);
        }
        assert(r == c || r == c - m);
        assert((r - e) % m == 0) by {
            assert(r - e == (r - c) - m * (e / m));
            if r == c {
                vstd::arithmetic::div_mod::lemma_mod_multiples_basic(-(e / m), m);
                assert(-(e / m) * m == -(m * (e / m))) by (nonlinear_arith);
            } else {
                vstd::arithmetic::div_mod::lemma_mod_multiples_basic(-(e / m) - 1, m);
                assert((-(e / m) - 1) * m == -m - m * (e / m)) by (nonlinear_arith);
            }
        }
        if i64::MIN <= e <= i64::MAX {
            if e >= 0 {
                vstd::arithmetic::div_mod::lemma_small_mod(e as nat, m as nat);
            } else {
                vstd::arithmetic::div_mod::lemma_small_mod((e + m) as nat, m as nat);
                vstd::arithmetic::div_mod::lemma_mod_add_multiples_vanish(e, m);
            }
        }
    } else {
        assert(r == e || r == e - m || r == e + m);
    }
}

/// Byte arithmetic wraps around modulo 256, and byte division rounds
/// down: the quotient `q` of `a` by `b` has `q * b <= a < (q + 1) * b`.
pub proof fn law_byte_arithmetic_wraps(op: ArithmeticOp, a: u8, b: u8)
    ensures
        op != ArithmeticOp::Divide ==> byte_arithmetic(op, a, b) is Some
            && (byte_arithmetic(op, a, b)->Some_0 - exact_result(op, a as int, b as int)) % 256int == 0,
        op == ArithmeticOp::Divide ==> (byte_arithmetic(op, a, b) is Some <==> b != 0),
        op == ArithmeticOp::Divide && b != 0 ==> ({
            let q = byte_arithmetic(op, a, b)->Some_0 as int;
            q * b <= a < (q + 1) * b
        }),
{
    if op == ArithmeticOp::Multiply {
        let e = a as int * b as int;
        let r = byte_arithmetic(op, a, b)->Some_0 as int;
        assert(r == e % 256);
        vstd::arithmetic::div_mod::lemma_fundamental_div_mod(e, 256);
        assert(r - e == -(256 * (e / 256)));
        vstd::arithmetic::div_mod::lemma_mod_multiples_basic(-(e / 256), 256);
        assert(-(e / 256) * 256 == -(256 * (e / 256))) by (nonlinear_arith);
    } else if op == ArithmeticOp::Divide && b != 0 {
        let x = a as int;
        let d = b as int;
        vstd::arithmetic::div_mod::lemma_fundamental_div_mod(x, d);
        vstd::arithmetic::div_mod::lemma_mod_pos_bound(x, d);
        let q = x / d;
        assert(q * d <= x < (q + 1) * d) by (nonlinear_arith)
            requires x == d * q + x % d, 0 <= x % d < d;
        assert(0 <= q <= x) by (nonlinear_arith) requires x >= 0, d > 0, q == x / d;
    }
}

/// The ordering comparisons of integers mean what their names say.
pub proof fn law_integer_comparisons(a: i64, b: i64)
    ensures
        ordering_holds(OrderingOp::Less, a, b) <==> a < b,
        ordering_holds(OrderingOp::LessEqual, a, b) <==> !(b < a),
        ordering_holds(OrderingOp::Greater, a, b) <==> b < a,
        ordering_holds(OrderingOp::GreaterEqual, a, b) <==> !(a < b),
{
}

/// The arithmetic and comparison instructions on two integers, `a` below
/// `b` on top of the stack, replace them with what their names say: the
/// sum, difference and product when they fit in 64 bits, the quotient
/// truncated toward zero, and the truth of each comparison; dividing by
/// zero fails.
pub proof fn law_integer_instructions(
    before: VirtualMachine,
    after: VirtualMachine,
    instruction: Instruction,
    top: usize,
    r: Result<(), Fault>,
    a: i64,
    b: i64,
)
    requires
        before.stack@.len() >= 2,
        before.stack@[before.stack@.len() - 2] == Value::Integer(a),
        before.stack@.last() == Value::Integer(b),
        operation_done(before, after, instruction, top, r),
    ensures
        ({
            let rest = before.stack@.drop_last().drop_last();
            &&& instruction == Instruction::Add && i64::MIN <= a + b <= i64::MAX
                ==> r is Ok && after.stack@ == rest.push(Value::Integer((a + b) as i64))
            &&& instruction == Instruction::Subtract && i64::MIN <= a - b <= i64::MAX
                ==> r is Ok && after.stack@ == rest.push(Value::Integer((a - b) as i64))
            &&& instruction == Instruction::Multiply && i64::MIN <= a * b <= i64::MAX
                ==> r is Ok && after.stack@ == rest.push(Value::Integer((a * b) as i64))
            &&& instruction == Instruction::Divide && b != 0 && !(a == i64::MIN && b == -1) ==> {
                &&& r is Ok
                &&& after.stack@.len() == rest.len() + 1
                &&& after.stack@.drop_last() == rest
                &&& after.stack@.last() is Integer
                &&& magnitude(a - after.stack@.last()->Integer_0 * b) < magnitude(b as int)
                &&& a - after.stack@.last()->Integer_0 * b == 0 || (a - after.stack@.last()->Integer_0 * b > 0) == (a > 0)
            }
            &&& instruction == Instruction::Divide && b == 0 ==> r is Err
            &&& instruction == Instruction::Less ==> r is Ok && after.stack@ == rest.push(Value::Boolean(a < b))
            &&& instruction == Instruction::LessEqual ==> r is Ok && after.stack@ == rest.push(Value::Boolean(a <= b))
            &&& instruction == Instruction::Greater ==> r is Ok && after.stack@ == rest.push(Value::Boolean(a > b))
            &&& instruction == Instruction::GreaterEqual ==> r is Ok && after.stack@ == rest.push(Value::Boolean(a >= b))
            &&& instruction == Instruction::Equal ==> r is Ok && after.stack@ == rest.push(Value::Boolean(a == b))
            &&& instruction == Instruction::NotEqual ==> r is Ok && after.stack@ == rest.push(Value::Boolean(a != b))
        }),
{
    if instruction == Instruction::Add {
        law_integer_arithmetic_wraps(ArithmeticOp::Add, a, b);
    } else if instruction == Instruction::Subtract {
        law_integer_arithmetic_wraps(ArithmeticOp::Subtract, a, b);
    } else if instruction == Instruction::Multiply {
        law_integer_arithmetic_wraps(ArithmeticOp::Multiply, a, b);
    } else if instruction == Instruction::Divide {
        if b != 0 {
            law_integer_division_truncates(a, b);
        }
    } else if instruction == Instruction::Equal || instruction == Instruction::NotEqual {
        let fuel = before.heap.render_fuel();
        let text: StringValue = vstd::pervasive::arbitrary();
        before.heap.law_plain_equality(a, b, 0, 0, true, true, text, text, fuel);
    }
}

/// The arithmetic instructions on two bytes, `a` below `b` on top of the
/// stack, replace them with the sum, difference or product modulo 256, or
/// the quotient rounded down; dividing by zero fails.
pub proof fn law_byte_instructions(
    before: VirtualMachine,
    after: VirtualMachine,
    instruction: Instruction,
    top: usize,
    r: Result<(), Fault>,
    a: u8,
    b: u8,
)
    requires
        before.stack@.len() >= 2,
        before.stack@[before.stack@.len() - 2] == Value::Byte(a),
        before.stack@.last() == Value::Byte(b),
        operation_done(before, after, instruction, top, r),
    ensures
        ({
            let rest = before.stack@.drop_last().drop_last();
            let op = if instruction == Instruction::Add {
                ArithmeticOp::Add
            } else if instruction == Instruction::Subtract {
                ArithmeticOp::Subtract
            } else {
                ArithmeticOp::Multiply
            };
            &&& (instruction == Instruction::Add || instruction == Instruction::Subtract
                || instruction == Instruction::Multiply) ==> {
                &&& r is Ok
                &&& after.stack@.len() == rest.len() + 1
                &&& after.stack@.drop_last() == rest
                &&& after.stack@.last() is Byte
                &&& (after.stack@.last()->Byte_0 - exact_result(op, a as int, b as int)) % 256int == 0
            }
            &&& instruction == Instruction::Divide && b != 0 ==> {
                &&& r is Ok
                &&& after.stack@.len() == rest.len() + 1
                &&& after.stack@.drop_last() == rest
                &&& after.stack@.last() is Byte
                &&& after.stack@.last()->Byte_0 * b <= a < (after.stack@.last()->Byte_0 + 1) * b
            }
            &&& instruction == Instruction::Divide && b == 0 ==> r is Err
        }),
{
    if instruction == Instruction::Add {
        law_byte_arithmetic_wraps(ArithmeticOp::Add, a, b);
    } else if instruction == Instruction::Subtract {
        law_byte_arithmetic_wraps(ArithmeticOp::Subtract, a, b);
    } else if instruction == Instruction::Multiply {
        law_byte_arithmetic_wraps(ArithmeticOp::Multiply, a, b);
    } else if instruction == Instruction::Divide {
        law_byte_arithmetic_wraps(ArithmeticOp::Divide, a, b);
    }
}

} // verus!
