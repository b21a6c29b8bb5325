//! The instructions that compute on the operand stack: arithmetic,
//! comparison, indexing and slicing, allocation, maps and channels.

use vstd::prelude::*;

use crate::bytecode::instruction::{sequence_kind_name, SequenceKind, ValueType};
use crate::conversion::ConversionKind;
use crate::runtime::value::{
    all_bytes, byte_payloads, byte_values, key_position, key_value_of, receive_outcome, received_from, same_key,
    send_outcome, ChannelReceiveError,
    ChannelReceiveResult, ChannelSendError, ChannelValue, MapKey, MapValue, SliceValue, StringValue, Value,
};
use crate::runtime::laws::{law_map_read_after_write, stored};
use crate::runtime::vm::support::{
    is_zero_value, normalize_slice_bound, runtime_type_name, slice_bounds_error_message, zero_value_for_type,
};
use crate::runtime::vm::{error_message, key_of_value, numbered_message, value_to_key, Fault, VirtualMachine};
use crate::text::{int_text, push_int, push_str};

verus! {

/// The four arithmetic instructions.
#[derive(Clone, Copy, Debug, PartialEq, Eq, Structural)]
pub enum ArithmeticOp {
    Add,
    Subtract,
    Multiply,
    Divide,
}

/// Integer arithmetic as Go defines it: results wrap around, and the one
/// overflowing quotient, the minimum divided by -1, is the minimum.
/// `None` for division by zero.
pub open spec fn integer_arithmetic(op: ArithmeticOp, a: i64, b: i64) -> Option<i64> {
    match op {
        ArithmeticOp::Add => Some(a.wrapping_add(b)),
        ArithmeticOp::Subtract => Some(a.wrapping_sub(b)),
        ArithmeticOp::Multiply => Some(a.wrapping_mul(b)),
        ArithmeticOp::Divide => if b == 0 {
            None
        } else {
            match a.checked_div(b) {
                Some(q) => Some(q),
                None => Some(i64::MIN),
            }
        },
    }
}

/// Byte arithmetic: results wrap around; `None` for division by zero.
pub open spec fn byte_arithmetic(op: ArithmeticOp, a: u8, b: u8) -> Option<u8> {
    match op {
        ArithmeticOp::Add => Some(a.wrapping_add(b)),
        ArithmeticOp::Subtract => Some(a.wrapping_sub(b)),
        ArithmeticOp::Multiply => Some(a.wrapping_mul(b)),
        ArithmeticOp::Divide => if b == 0 {
            None
        } else {
            Some((a / b) as u8)
        },
    }
}

/// The result of an arithmetic instruction on two operands: a value, or
/// `None` when they are not two integers or two bytes or when dividing by
/// zero.
pub open spec fn arithmetic_value(op: ArithmeticOp, left: Value, right: Value) -> Option<Value> {
    match (left, right) {
        (Value::Integer(a), Value::Integer(b)) => match integer_arithmetic(op, a, b) {
            Some(n) => Some(Value::Integer(n)),
            None => None,
        },
        (Value::Byte(a), Value::Byte(b)) => match byte_arithmetic(op, a, b) {
            Some(n) => Some(Value::Byte(n)),
            None => None,
        },
        _ => None,
    }
}

/// Computes integer arithmetic.
pub fn integer_op(op: ArithmeticOp, a: i64, b: i64) -> (r: Option<i64>)
    ensures
        r == integer_arithmetic(op, a, b),
{
    match op {
        ArithmeticOp::Add => Some(a.wrapping_add(b)),
        ArithmeticOp::Subtract => Some(a.wrapping_sub(b)),
        ArithmeticOp::Multiply => Some(a.wrapping_mul(b)),
        ArithmeticOp::Divide => {
            if b == 0 {
                None
            } else {
                match a.checked_div(b) {
                    Some(q) => Some(q),
                    None => Some(i64::MIN),
                }
            }
        },
    }
}

/// Computes byte arithmetic.
pub fn byte_op(op: ArithmeticOp, a: u8, b: u8) -> (r: Option<u8>)
    ensures
        r == byte_arithmetic(op, a, b),
{
    match op {
        ArithmeticOp::Add => Some(a.wrapping_add(b)),
        ArithmeticOp::Subtract => Some(a.wrapping_sub(b)),
        ArithmeticOp::Multiply => Some(a.wrapping_mul(b)),
        ArithmeticOp::Divide => {
            if b == 0 {
                None
            } else {
                Some(a / b)
            }
        },
    }
}

/// The four integer orderings.
#[derive(Clone, Copy, Debug, PartialEq, Eq, Structural)]
pub enum OrderingOp {
    Less,
    LessEqual,
    Greater,
    GreaterEqual,
}

/// Whether `a op b` holds.
pub open spec fn ordering_holds(op: OrderingOp, a: i64, b: i64) -> bool {
    match op {
        OrderingOp::Less => a < b,
        OrderingOp::LessEqual => a <= b,
        OrderingOp::Greater => a > b,
        OrderingOp::GreaterEqual => a >= b,
    }
}

/// The machine is unchanged but for its stack.
pub open spec fn rest_unchanged(after: VirtualMachine, before: VirtualMachine) -> bool {
    &&& after.frame_count() == before.frame_count()
    &&& after.output_view() == before.output_view()
}

/// What `binary_numeric_op` does, as its contract states.
pub open spec fn binary_numeric_op_done(before_vm: VirtualMachine, after_vm: VirtualMachine, op: ArithmeticOp, r: Result<(), Fault>) -> bool {
    &&& (after_vm.frames@ == before_vm.frames@)
    &&& (after_vm.output@ == before_vm.output@)
    &&& (after_vm.heap == before_vm.heap)
    &&& (after_vm.pending_panic == before_vm.pending_panic)
    &&& (after_vm.panic_depth == before_vm.panic_depth)
    &&& (({
        let s = before_vm.stack@;
        &&& s.len() >= 2 && arithmetic_value(op, s[s.len() - 2], s.last()) is Some
            ==> r is Ok && after_vm.stack@ == s.drop_last().drop_last().push(
            arithmetic_value(op, s[s.len() - 2], s.last())->0)
        &&& !(s.len() >= 2 && arithmetic_value(op, s[s.len() - 2], s.last()) is Some)
            ==> (r is Err && r->Err_0 is Error)
        &&& s.len() >= 2 && op == ArithmeticOp::Divide && (s.last() == Value::Integer(0)
            && s[s.len() - 2] is Integer || s.last() == Value::Byte(0) && s[s.len() - 2] is Byte)
            ==> (r is Err && r->Err_0 is Error && r->Err_0->Error_0@ == "division by zero"@)
    }))
}

/// What `binary_integer_compare` does, as its contract states.
pub open spec fn binary_integer_compare_done(before_vm: VirtualMachine, after_vm: VirtualMachine, op: OrderingOp, r: Result<(), Fault>) -> bool {
    &&& (after_vm.frames@ == before_vm.frames@)
    &&& (after_vm.output@ == before_vm.output@)
    &&& (after_vm.heap == before_vm.heap)
    &&& (after_vm.pending_panic == before_vm.pending_panic)
    &&& (after_vm.panic_depth == before_vm.panic_depth)
    &&& (({
        let s = before_vm.stack@;
        &&& s.len() >= 2 && s.last() is Integer && s[s.len() - 2] is Integer ==> r is Ok
            && after_vm.stack@ == s.drop_last().drop_last().push(Value::Boolean(
            ordering_holds(op, s[s.len() - 2]->Integer_0, s.last()->Integer_0)))
        &&& !(s.len() >= 2 && s.last() is Integer && s[s.len() - 2] is Integer) ==> (r is Err && r->Err_0 is Error)
    }))
}

/// What `concat_strings` does, as its contract states.
pub open spec fn concat_strings_done(before_vm: VirtualMachine, after_vm: VirtualMachine, r: Result<(), Fault>) -> bool {
    &&& (after_vm.frames@ == before_vm.frames@)
    &&& (after_vm.output@ == before_vm.output@)
    &&& (after_vm.heap == before_vm.heap)
    &&& (after_vm.pending_panic == before_vm.pending_panic)
    &&& (after_vm.panic_depth == before_vm.panic_depth)
    &&& (({
        let s = before_vm.stack@;
        &&& s.len() >= 2 && s.last() is String && s[s.len() - 2] is String ==> r is Ok
            && after_vm.stack@.drop_last() == s.drop_last().drop_last()
            && after_vm.stack@.last() is String
            && after_vm.stack@.last()->String_0@ == s[s.len() - 2]->String_0@ + s.last()->String_0@
        &&& !(s.len() >= 2 && s.last() is String && s[s.len() - 2] is String) ==> (r is Err && r->Err_0 is Error)
    }))
}

/// What `build_slice` does, as its contract states.
pub open spec fn build_slice_done(before_vm: VirtualMachine, after_vm: VirtualMachine, count: usize, r: Result<(), Fault>) -> bool {
    &&& (after_vm.heap.wf())
    &&& (after_vm.frames@ == before_vm.frames@)
    &&& (after_vm.output@ == before_vm.output@)
    &&& (after_vm.pending_panic == before_vm.pending_panic)
    &&& (after_vm.panic_depth == before_vm.panic_depth)
    &&& (count <= before_vm.stack@.len() <==> r is Ok)
    &&& (r is Err ==> r matches Err(Fault::Error(_)))
    &&& (r is Ok ==> ({
        let s = before_vm.stack@;
        let n = s.len() - count;
        &&& after_vm.stack@.drop_last() == s.take(n)
        &&& after_vm.stack@.last() is Slice
        &&& after_vm.heap.slice_ok(after_vm.stack@.last()->Slice_0)
        &&& after_vm.heap.elements(after_vm.stack@.last()->Slice_0) == s.skip(n)
        &&& !after_vm.stack@.last()->Slice_0.spec_is_nil()
        &&& after_vm.stack@.last()->Slice_0.spec_start() == before_vm.heap.cells_view().len()
        &&& after_vm.stack@.last()->Slice_0.spec_capacity() == count
        &&& after_vm.heap.cells_view() == before_vm.heap.cells_view() + s.skip(n)
        &&& after_vm.heap.channels_same(before_vm.heap)
        &&& after_vm.heap.maps_same(before_vm.heap)
    }))
}

/// What `make_slice` does, as its contract states.
pub open spec fn make_slice_done(before_vm: VirtualMachine, after_vm: VirtualMachine, element_type: ValueType, has_capacity: bool, r: Result<(), Fault>) -> bool {
    &&& (after_vm.heap.wf())
    &&& (after_vm.frames@ == before_vm.frames@)
    &&& (after_vm.output@ == before_vm.output@)
    &&& (after_vm.pending_panic == before_vm.pending_panic)
    &&& (after_vm.panic_depth == before_vm.panic_depth)
    &&& (r is Err ==> r matches Err(Fault::Error(_)))
    &&& (r is Ok ==> ({
        let s = before_vm.stack@;
        let k: int = if has_capacity { 2 } else { 1 };
        let length = s[s.len() - k]->Integer_0;
        let capacity = if has_capacity { s.last()->Integer_0 } else { length };
        &&& s.len() >= k
        &&& s[s.len() - k] is Integer
        &&& has_capacity ==> s.last() is Integer
        &&& 0 <= length <= capacity
        &&& after_vm.stack@.drop_last() == s.take(s.len() - k)
        &&& after_vm.stack@.last() is Slice
        &&& after_vm.heap.slice_ok(after_vm.stack@.last()->Slice_0)
        &&& after_vm.stack@.last()->Slice_0.spec_len() == length
        &&& after_vm.stack@.last()->Slice_0.spec_capacity() == capacity
        &&& after_vm.stack@.last()->Slice_0.spec_start() == before_vm.heap.cells_view().len()
        &&& after_vm.heap.cells_view().len() == before_vm.heap.cells_view().len() + capacity
        &&& after_vm.heap.cells_view().take(before_vm.heap.cells_view().len() as int) == before_vm.heap.cells_view()
        &&& forall|k: int| before_vm.heap.cells_view().len() <= k < after_vm.heap.cells_view().len()
            ==> is_zero_value(element_type, #[trigger] after_vm.heap.cells_view()[k])
        &&& after_vm.heap.channels_same(before_vm.heap)
        &&& after_vm.heap.maps_same(before_vm.heap)
    }))
    &&& (r is Ok <==> ({
        let s = before_vm.stack@;
        let k: int = if has_capacity { 2 } else { 1 };
        let length = s[s.len() - k]->Integer_0;
        let capacity = if has_capacity { s.last()->Integer_0 } else { length };
        &&& s.len() >= k
        &&& s[s.len() - k] is Integer
        &&& has_capacity ==> s.last() is Integer
        &&& 0 <= length <= capacity
        &&& capacity <= usize::MAX
    }))
    &&& (({
        let s = before_vm.stack@;
        s.len() >= 1 && s.last() is Integer && !has_capacity && s.last()->Integer_0 < 0 ==> (r is Err && r->Err_0 is Error
            && r->Err_0->Error_0@ == "builtin `make` length must be non-negative, found "@ + int_text(s.last()->Integer_0 as int))
    }))
}

/// What `make_chan` does, as its contract states.
pub open spec fn make_chan_done(before_vm: VirtualMachine, after_vm: VirtualMachine, has_buffer: bool, r: Result<(), Fault>) -> bool {
    &&& (after_vm.heap.wf())
    &&& (after_vm.frames@ == before_vm.frames@)
    &&& (after_vm.output@ == before_vm.output@)
    &&& (after_vm.pending_panic == before_vm.pending_panic)
    &&& (after_vm.panic_depth == before_vm.panic_depth)
    &&& (r is Err ==> r matches Err(Fault::Error(_)))
    &&& (r is Ok ==> ({
        let s = before_vm.stack@;
        let capacity: int = if has_buffer { s.last()->Integer_0 as int } else { 0 };
        let rest = if has_buffer { s.drop_last() } else { s };
        &&& has_buffer ==> s.len() >= 1 && s.last() is Integer && s.last()->Integer_0 >= 0
        &&& after_vm.stack@.drop_last() == rest
        &&& after_vm.stack@.last() is Chan
        &&& after_vm.heap.channel_ok(after_vm.stack@.last()->Chan_0)
        &&& after_vm.heap.channel_capacity(after_vm.stack@.last()->Chan_0) == capacity
        &&& after_vm.heap.channel_buffer(after_vm.stack@.last()->Chan_0).len() == 0
        &&& !after_vm.heap.channel_closed(after_vm.stack@.last()->Chan_0)
        &&& !after_vm.stack@.last()->Chan_0.spec_is_nil()
        &&& after_vm.stack@.last()->Chan_0.spec_id() == before_vm.heap.channel_count()
        &&& after_vm.heap.channel_count() == before_vm.heap.channel_count() + 1
        &&& after_vm.heap.cells_view() == before_vm.heap.cells_view()
        &&& after_vm.heap.maps_same(before_vm.heap)
        &&& forall|c: ChannelValue| #[trigger] before_vm.heap.channel_ok(c) ==> {
            &&& after_vm.heap.channel_ok(c)
            &&& after_vm.heap.channel_buffer(c) == before_vm.heap.channel_buffer(c)
            &&& after_vm.heap.channel_capacity(c) == before_vm.heap.channel_capacity(c)
            &&& after_vm.heap.channel_closed(c) == before_vm.heap.channel_closed(c)
        }
    }))
    &&& (r is Ok <==> (!has_buffer || ({
        let s = before_vm.stack@;
        s.len() >= 1 && s.last() is Integer && 0 <= s.last()->Integer_0 <= usize::MAX
    })))
}

/// What `index_value` does, as its contract states.
pub open spec fn index_value_done(before_vm: VirtualMachine, after_vm: VirtualMachine, kind: SequenceKind, r: Result<(), Fault>) -> bool {
    &&& (after_vm.frames@ == before_vm.frames@)
    &&& (after_vm.output@ == before_vm.output@)
    &&& (after_vm.heap == before_vm.heap)
    &&& (after_vm.pending_panic == before_vm.pending_panic)
    &&& (after_vm.panic_depth == before_vm.panic_depth)
    &&& (r is Err ==> r matches Err(Fault::Error(_)))
    &&& (r is Ok ==> ({
        let s = before_vm.stack@;
        let target = s[s.len() - 2];
        let index = s.last()->Integer_0;
        &&& s.len() >= 2
        &&& s.last() is Integer
        &&& after_vm.stack@.drop_last() == s.drop_last().drop_last()
        &&& kind == SequenceKind::Slice ==> target is Slice && before_vm.heap.slice_ok(target->Slice_0)
            && 0 <= index < target->Slice_0.spec_len()
            && after_vm.stack@.last().equiv(before_vm.heap.elements(target->Slice_0)[index as int])
        &&& kind == SequenceKind::String ==> target is String && 0 <= index < target->String_0@.len()
            && after_vm.stack@.last() == Value::Byte(target->String_0@[index as int])
    }))
    &&& (({
        let s = before_vm.stack@;
        s.len() >= 2 && s.last() is Integer && s.last()->Integer_0 < 0 ==> (r is Err && r->Err_0 is Error
            && r->Err_0->Error_0@ == sequence_kind_name(kind)@ + " index "@ + int_text(s.last()->Integer_0 as int)
            + " is out of bounds"@)
    }))
    &&& (r is Ok <==> ({
        let s = before_vm.stack@;
        let target = s[s.len() - 2];
        let index = s.last()->Integer_0;
        &&& s.len() >= 2
        &&& s.last() is Integer
        &&& kind == SequenceKind::Slice ==> target is Slice && before_vm.heap.slice_ok(target->Slice_0)
            && 0 <= index < target->Slice_0.spec_len()
        &&& kind == SequenceKind::String ==> target is String && 0 <= index < target->String_0@.len()
    }))
    &&& (({
        let s = before_vm.stack@;
        let target = s[s.len() - 2];
        let index = s.last()->Integer_0;
        let length: int = if kind == SequenceKind::Slice { target->Slice_0.spec_len() as int } else {
            target->String_0@.len() as int };
        s.len() >= 2 && s.last() is Integer && index >= length
            && (kind == SequenceKind::Slice ==> target is Slice && before_vm.heap.slice_ok(target->Slice_0))
            && (kind == SequenceKind::String ==> target is String)
            ==> (r is Err && r->Err_0 is Error && r->Err_0->Error_0@ == sequence_kind_name(kind)@ + " index "@
            + int_text(index as int) + " is out of bounds"@)
    }))
}

/// What `slice_value` does, as its contract states.
pub open spec fn slice_value_done(before_vm: VirtualMachine, after_vm: VirtualMachine, kind: SequenceKind, has_low: bool, has_high: bool, r: Result<(), Fault>) -> bool {
    &&& (after_vm.frames@ == before_vm.frames@)
    &&& (after_vm.output@ == before_vm.output@)
    &&& (after_vm.heap == before_vm.heap)
    &&& (after_vm.pending_panic == before_vm.pending_panic)
    &&& (after_vm.panic_depth == before_vm.panic_depth)
    &&& (r is Err ==> r matches Err(Fault::Error(_)))
    &&& (r is Ok ==> ({
        let s = before_vm.stack@;
        let k: int = (if has_low { 1int } else { 0int }) + (if has_high { 1int } else { 0int });
        let target = s[s.len() - k - 1];
        let low: int = if has_low { s[s.len() - k]->Integer_0 as int } else { 0 };
        let length: int = if kind == SequenceKind::Slice { target->Slice_0.spec_len() as int } else {
            target->String_0@.len() as int };
        let high: int = if has_high { s.last()->Integer_0 as int } else { length };
        &&& s.len() >= k + 1
        &&& after_vm.stack@.drop_last() == s.take(s.len() - k - 1)
        &&& kind == SequenceKind::Slice ==> target is Slice && 0 <= low <= high
            && high <= target->Slice_0.spec_capacity() && after_vm.stack@.last() is Slice
            && after_vm.stack@.last()->Slice_0.spec_start() == target->Slice_0.spec_start() + low
            && after_vm.stack@.last()->Slice_0.spec_len() == high - low
            && after_vm.stack@.last()->Slice_0.spec_capacity() == target->Slice_0.spec_capacity() - low
        &&& kind == SequenceKind::String ==> target is String && 0 <= low <= high <= length
            && after_vm.stack@.last() is String
            && after_vm.stack@.last()->String_0@ == target->String_0@.subrange(low, high)
    }))
    &&& (r is Ok <==> ({
        let s = before_vm.stack@;
        let k: int = (if has_low { 1int } else { 0int }) + (if has_high { 1int } else { 0int });
        let target = s[s.len() - k - 1];
        let low: int = if has_low { s[s.len() - k]->Integer_0 as int } else { 0 };
        let length: int = if kind == SequenceKind::Slice { target->Slice_0.spec_len() as int } else {
            target->String_0@.len() as int };
        let high: int = if has_high { s.last()->Integer_0 as int } else { length };
        &&& s.len() >= k + 1
        &&& has_low ==> s[s.len() - k] is Integer
        &&& has_high ==> s.last() is Integer
        &&& kind == SequenceKind::Slice ==> target is Slice && length <= i64::MAX && 0 <= low <= high
            && high <= target->Slice_0.spec_capacity()
        &&& kind == SequenceKind::String ==> target is String && length <= i64::MAX && 0 <= low <= high <= length
    }))
}

/// What `convert_value` does, as its contract states.
pub open spec fn convert_value_done(before_vm: VirtualMachine, after_vm: VirtualMachine, conversion: ConversionKind, r: Result<(), Fault>) -> bool {
    &&& (after_vm.heap.wf())
    &&& (after_vm.frames@ == before_vm.frames@)
    &&& (after_vm.output@ == before_vm.output@)
    &&& (after_vm.pending_panic == before_vm.pending_panic)
    &&& (after_vm.panic_depth == before_vm.panic_depth)
    &&& (r is Err ==> r matches Err(Fault::Error(_)))
    &&& (r is Ok ==> ({
        let s = before_vm.stack@;
        &&& s.len() >= 1
        &&& after_vm.stack@.drop_last() == s.drop_last()
        &&& conversion == ConversionKind::StringToBytes ==> s.last() is String && after_vm.stack@.last() is Slice
            && after_vm.heap.slice_ok(after_vm.stack@.last()->Slice_0)
            && after_vm.heap.elements(after_vm.stack@.last()->Slice_0) == byte_values(s.last()->String_0@)
            && after_vm.stack@.last()->Slice_0.spec_start() == before_vm.heap.cells_view().len()
            && after_vm.stack@.last()->Slice_0.spec_capacity() == s.last()->String_0@.len()
            && after_vm.heap.cells_view() == before_vm.heap.cells_view() + byte_values(s.last()->String_0@)
            && after_vm.heap.channels_same(before_vm.heap) && after_vm.heap.maps_same(before_vm.heap)
        &&& conversion == ConversionKind::BytesToString ==> s.last() is Slice
            && before_vm.heap.slice_ok(s.last()->Slice_0) && all_bytes(before_vm.heap.elements(s.last()->Slice_0))
            && after_vm.stack@.last() is String
            && after_vm.stack@.last()->String_0@ == byte_payloads(before_vm.heap.elements(s.last()->Slice_0))
            && after_vm.heap == before_vm.heap
    }))
    &&& (r is Ok <==> ({
        let s = before_vm.stack@;
        &&& s.len() >= 1
        &&& conversion == ConversionKind::StringToBytes ==> s.last() is String
        &&& conversion == ConversionKind::BytesToString ==> s.last() is Slice
            && before_vm.heap.slice_ok(s.last()->Slice_0) && all_bytes(before_vm.heap.elements(s.last()->Slice_0))
    }))
    &&& (r is Err ==> after_vm.heap == before_vm.heap)
}

/// What `set_slice_index` does, as its contract states.
pub open spec fn set_slice_index_done(before_vm: VirtualMachine, after_vm: VirtualMachine, r: Result<(), Fault>) -> bool {
    &&& (after_vm.heap.wf())
    &&& (after_vm.frames@ == before_vm.frames@)
    &&& (after_vm.output@ == before_vm.output@)
    &&& (after_vm.pending_panic == before_vm.pending_panic)
    &&& (after_vm.panic_depth == before_vm.panic_depth)
    &&& (r is Err ==> r matches Err(Fault::Error(_)))
    &&& (r is Ok ==> ({
        let s = before_vm.stack@;
        let target = s[s.len() - 3];
        let index = s[s.len() - 2]->Integer_0;
        &&& s.len() >= 3
        &&& target is Slice
        &&& s[s.len() - 2] is Integer
        &&& 0 <= index < target->Slice_0.spec_len()
        &&& after_vm.stack@ == s.take(s.len() - 3)
        &&& after_vm.heap.cells_view() == before_vm.heap.cells_view().update(
            target->Slice_0.spec_start() + index, s.last())
        &&& after_vm.heap.channels_same(before_vm.heap)
        &&& after_vm.heap.maps_same(before_vm.heap)
    }))
    &&& (r is Ok <==> ({
        let s = before_vm.stack@;
        let target = s[s.len() - 3];
        let index = s[s.len() - 2]->Integer_0;
        s.len() >= 3 && target is Slice && s[s.len() - 2] is Integer && before_vm.heap.slice_ok(target->Slice_0)
            && 0 <= index < target->Slice_0.spec_len()
    }))
    &&& (r is Err ==> after_vm.heap == before_vm.heap)
    &&& (({
        let s = before_vm.stack@;
        let target = s[s.len() - 3];
        let index = s[s.len() - 2]->Integer_0;
        s.len() >= 3 && s[s.len() - 2] is Integer && (index < 0 || target is Slice
            && before_vm.heap.slice_ok(target->Slice_0) && index >= target->Slice_0.spec_len())
            ==> (r matches Err(Fault::Error(m)) && m@ == sequence_kind_name(SequenceKind::Slice)@ + " index "@
            + int_text(index as int) + " is out of bounds"@)
    }))
}

/// What `send` does, as its contract states.
pub open spec fn send_done(before_vm: VirtualMachine, after_vm: VirtualMachine, r: Result<(), Fault>) -> bool {
    &&& (after_vm.heap.wf())
    &&& (after_vm.frames@ == before_vm.frames@)
    &&& (after_vm.output@ == before_vm.output@)
    &&& (after_vm.pending_panic == before_vm.pending_panic)
    &&& (after_vm.panic_depth == before_vm.panic_depth)
    &&& (r is Err ==> r matches Err(Fault::Error(_)))
    &&& (r is Ok ==> ({
        let s = before_vm.stack@;
        let c = s[s.len() - 2]->Chan_0;
        &&& s.len() >= 2
        &&& s[s.len() - 2] is Chan
        &&& after_vm.stack@ == s.take(s.len() - 2)
        &&& after_vm.heap.channel_buffer(c) == before_vm.heap.channel_buffer(c).push(s.last())
    }))
    &&& (({
        let s = before_vm.stack@;
        let c = s[s.len() - 2]->Chan_0;
        s.len() >= 2 && s[s.len() - 2] is Chan && before_vm.heap.channel_ok(c) && !c.spec_is_nil()
            && !before_vm.heap.channel_closed(c)
            && before_vm.heap.channel_buffer(c).len() == before_vm.heap.channel_capacity(c)
            ==> (r is Err && r->Err_0 is Error
            && r->Err_0->Error_0@ == "send would block in the current single-threaded VM"@)
    }))
    &&& (({
        let s = before_vm.stack@;
        let c = s[s.len() - 2]->Chan_0;
        &&& r is Ok <==> (s.len() >= 2 && s[s.len() - 2] is Chan && before_vm.heap.channel_ok(c)
            && send_outcome(before_vm.heap, c) is Ok)
        &&& s.len() >= 2 && s[s.len() - 2] is Chan && before_vm.heap.channel_ok(c) ==> {
            &&& after_vm.heap.only_channel_changed(before_vm.heap, c)
            &&& after_vm.heap.channel_closed(c) == before_vm.heap.channel_closed(c)
            &&& r is Err ==> after_vm.heap.channel_buffer(c) == before_vm.heap.channel_buffer(c)
            &&& c.spec_is_nil() ==> (r matches Err(Fault::Error(m)) && m@ == "send on nil channel would block"@)
            &&& !c.spec_is_nil() && before_vm.heap.channel_closed(c) ==> (r matches Err(Fault::Error(m))
                && m@ == "send on closed channel"@)
        }
    }))
}

/// What `receive` does, as its contract states.
pub open spec fn receive_done(before_vm: VirtualMachine, after_vm: VirtualMachine, element_type: ValueType, r: Result<(), Fault>) -> bool {
    &&& (after_vm.heap.wf())
    &&& (after_vm.frames@ == before_vm.frames@)
    &&& (after_vm.output@ == before_vm.output@)
    &&& (after_vm.pending_panic == before_vm.pending_panic)
    &&& (after_vm.panic_depth == before_vm.panic_depth)
    &&& (r is Err ==> r matches Err(Fault::Error(_)))
    &&& (r is Ok ==> ({
        let s = before_vm.stack@;
        let c = s.last()->Chan_0;
        let buffer = before_vm.heap.channel_buffer(c);
        &&& s.len() >= 1
        &&& s.last() is Chan
        &&& after_vm.stack@.drop_last() == s.drop_last()
        &&& buffer.len() > 0 ==> after_vm.stack@.last() == buffer[0]
            && after_vm.heap.channel_buffer(c) == buffer.drop_first()
        &&& buffer.len() == 0 ==> before_vm.heap.channel_closed(c)
            && is_zero_value(element_type, after_vm.stack@.last())
    }))
    &&& (({
        let s = before_vm.stack@;
        let c = s.last()->Chan_0;
        &&& r is Ok <==> (s.len() >= 1 && s.last() is Chan && before_vm.heap.channel_ok(c)
            && receive_outcome(before_vm.heap, c) is Ok)
        &&& s.len() >= 1 && s.last() is Chan && before_vm.heap.channel_ok(c) ==> {
            &&& received_from(before_vm.heap, after_vm.heap, c)
            &&& c.spec_is_nil() ==> (r matches Err(Fault::Error(m)) && m@ == "receive from nil channel would block"@)
            &&& receive_outcome(before_vm.heap, c) == Err::<ChannelReceiveResult, ChannelReceiveError>(
                ChannelReceiveError::WouldBlock) ==> (r matches Err(Fault::Error(m))
                && m@ == "receive would block in the current single-threaded VM"@)
        }
    }))
}

/// What `make_map` does, as its contract states.
pub open spec fn make_map_done(before_vm: VirtualMachine, after_vm: VirtualMachine, map_type: ValueType, has_hint: bool, r: Result<(), Fault>) -> bool {
    &&& (after_vm.heap.wf())
    &&& (after_vm.frames@ == before_vm.frames@)
    &&& (after_vm.output@ == before_vm.output@)
    &&& (after_vm.pending_panic == before_vm.pending_panic)
    &&& (after_vm.panic_depth == before_vm.panic_depth)
    &&& (r is Err ==> r matches Err(Fault::Error(_)))
    &&& (!(map_type is Mapping) ==> r is Err)
    &&& (r is Ok ==> ({
        let s = before_vm.stack@;
        let rest = if has_hint { s.drop_last() } else { s };
        &&& has_hint ==> s.len() >= 1 && s.last() is Integer && s.last()->Integer_0 >= 0
        &&& after_vm.stack@.drop_last() == rest
        &&& after_vm.stack@.last() is Mapping
        &&& !after_vm.stack@.last()->Mapping_0.spec_is_nil()
        &&& after_vm.heap.map_ok(after_vm.stack@.last()->Mapping_0)
        &&& after_vm.heap.map_entries(after_vm.stack@.last()->Mapping_0).len() == 0
        &&& after_vm.stack@.last()->Mapping_0.spec_id() == before_vm.heap.map_count()
        &&& after_vm.heap.map_count() == before_vm.heap.map_count() + 1
        &&& after_vm.heap.cells_view() == before_vm.heap.cells_view()
        &&& after_vm.heap.channels_same(before_vm.heap)
        &&& forall|x: MapValue| #[trigger] before_vm.heap.map_ok(x) ==> after_vm.heap.map_ok(x)
            && after_vm.heap.map_entries(x) == before_vm.heap.map_entries(x)
    }))
    &&& (r is Ok <==> (map_type is Mapping && (!has_hint || ({
        let s = before_vm.stack@;
        s.len() >= 1 && s.last() is Integer && 0 <= s.last()->Integer_0 <= usize::MAX
    }))))
}

/// The key of the `j`th pair of a run of alternating keys and values, if
/// that key can key a map.
pub open spec fn literal_key(pairs: Seq<Value>, j: int) -> Option<MapKey> {
    key_of_value(pairs[2 * j])
}

/// The value of the last of the first `n` pairs of `pairs` whose key is
/// `k`; `None` when none of them has that key.
pub open spec fn last_literal_value(pairs: Seq<Value>, n: nat, k: MapKey) -> Option<Value>
    decreases n,
{
    if n == 0 {
        None
    } else if literal_key(pairs, n - 1) is Some && same_key(literal_key(pairs, n - 1)->Some_0, k) {
        Some(pairs[2 * (n - 1) + 1])
    } else {
        last_literal_value(pairs, (n - 1) as nat, k)
    }
}

/// `entries` hold the pairs of a map literal: each key that occurs holds
/// the value of its last pair, and no other key occurs.
pub open spec fn holds_literal(entries: Seq<(MapKey, Value)>, pairs: Seq<Value>, n: nat) -> bool {
    forall|k: MapKey| match #[trigger] last_literal_value(pairs, n, k) {
        Some(v) => stored(entries, k, v),
        None => key_position(entries, k, None),
    }
}

/// What `build_map` does, as its contract states.
pub open spec fn build_map_done(before_vm: VirtualMachine, after_vm: VirtualMachine, map_type: ValueType, entry_count: usize, r: Result<(), Fault>) -> bool {
    &&& (after_vm.heap.wf())
    &&& (after_vm.frames@ == before_vm.frames@)
    &&& (after_vm.output@ == before_vm.output@)
    &&& (after_vm.pending_panic == before_vm.pending_panic)
    &&& (after_vm.panic_depth == before_vm.panic_depth)
    &&& (r is Err ==> r matches Err(Fault::Error(_)))
    &&& (!(map_type is Mapping) ==> r is Err)
    &&& (r is Ok ==> ({
        let s = before_vm.stack@;
        let pairs = s.subrange(s.len() - 2 * entry_count, s.len() as int);
        let m = after_vm.stack@.last()->Mapping_0;
        &&& 2 * entry_count <= s.len()
        &&& after_vm.stack@.drop_last() == s.take(s.len() - 2 * entry_count)
        &&& after_vm.stack@.last() is Mapping
        &&& !m.spec_is_nil()
        &&& after_vm.heap.map_ok(m)
        &&& m.spec_id() == before_vm.heap.map_count()
        &&& after_vm.heap.map_count() == before_vm.heap.map_count() + 1
        &&& after_vm.heap.map_entries(m).len() <= entry_count
        &&& holds_literal(after_vm.heap.map_entries(m), pairs, entry_count as nat)
        &&& after_vm.heap.cells_view() == before_vm.heap.cells_view()
        &&& after_vm.heap.channels_same(before_vm.heap)
        &&& forall|x: MapValue| #[trigger] before_vm.heap.map_ok(x) ==> after_vm.heap.map_ok(x)
            && after_vm.heap.map_entries(x) == before_vm.heap.map_entries(x)
    }))
    &&& (r is Ok <==> ({
        let s = before_vm.stack@;
        let pairs = s.subrange(s.len() - 2 * entry_count, s.len() as int);
        &&& map_type is Mapping
        &&& entry_count <= usize::MAX / 2
        &&& 2 * entry_count <= s.len()
        &&& forall|j: int| 0 <= j < entry_count ==> #[trigger] literal_key(pairs, j) is Some
    }))
}

/// What `read_map` does, as its contract states.
pub open spec fn read_map_done(before_vm: VirtualMachine, after_vm: VirtualMachine, map_type: ValueType, r: Result<(Value, bool), Fault>) -> bool {
    &&& (after_vm.frames@ == before_vm.frames@)
    &&& (after_vm.output@ == before_vm.output@)
    &&& (after_vm.heap == before_vm.heap)
    &&& (after_vm.pending_panic == before_vm.pending_panic)
    &&& (after_vm.panic_depth == before_vm.panic_depth)
    &&& (r is Err ==> r matches Err(Fault::Error(_)))
    &&& (r is Ok ==> ({
        let s = before_vm.stack@;
        let m = s[s.len() - 2]->Mapping_0;
        let entries = before_vm.heap.map_entries(m);
        let (value, present) = r->Ok_0;
        &&& s.len() >= 2
        &&& s[s.len() - 2] is Mapping
        &&& key_of_value(s.last()) is Some
        &&& map_type is Mapping
        &&& before_vm.heap.map_ok(m)
        &&& after_vm.stack@ == s.take(s.len() - 2)
        &&& present ==> exists|i: usize| #[trigger] crate::runtime::value::key_position(entries, key_of_value(s.last())->0, Some(i))
            && value.equiv(entries[i as int].1)
        &&& !present ==> crate::runtime::value::key_position(entries, key_of_value(s.last())->0, None)
            && is_zero_value(*map_type->Mapping_value, value)
    }))
    &&& (r is Ok <==> ({
        let s = before_vm.stack@;
        s.len() >= 2 && key_of_value(s.last()) is Some && s[s.len() - 2] is Mapping && map_type is Mapping
            && before_vm.heap.map_ok(s[s.len() - 2]->Mapping_0)
    }))
}

/// What `set_map_index` does, as its contract states.
pub open spec fn set_map_index_done(before_vm: VirtualMachine, after_vm: VirtualMachine, r: Result<(), Fault>) -> bool {
    &&& (after_vm.heap.wf())
    &&& (after_vm.frames@ == before_vm.frames@)
    &&& (after_vm.output@ == before_vm.output@)
    &&& (after_vm.pending_panic == before_vm.pending_panic)
    &&& (after_vm.panic_depth == before_vm.panic_depth)
    &&& (r is Err ==> r matches Err(Fault::Error(_)))
    &&& (({
        let s = before_vm.stack@;
        s.len() >= 3 && s[s.len() - 3] is Mapping && key_of_value(s[s.len() - 2]) is Some
            && s[s.len() - 3]->Mapping_0.spec_is_nil() ==> (r is Err && r->Err_0 is Error
            && r->Err_0->Error_0@ == "assignment to entry in nil map"@)
    }))
    &&& (r is Ok ==> ({
        let s = before_vm.stack@;
        let m = s[s.len() - 3]->Mapping_0;
        let key = key_of_value(s[s.len() - 2])->0;
        let before = before_vm.heap.map_entries(m);
        let after = after_vm.heap.map_entries(m);
        &&& s.len() >= 3
        &&& s[s.len() - 3] is Mapping
        &&& !m.spec_is_nil()
        &&& after_vm.stack@ == s.take(s.len() - 3)
        &&& after_vm.heap.only_map_changed(before_vm.heap, m)
        &&& {
            ||| exists|i: usize| #[trigger] crate::runtime::value::key_position(before, key, Some(i))
                && after == before.update(i as int, (key, s.last()))
            ||| crate::runtime::value::key_position(before, key, None) && exists|i: int| 0 <= i <= before.len()
                && after == #[trigger] before.insert(i, (key, s.last()))
        }
    }))
    &&& (r is Ok <==> ({
        let s = before_vm.stack@;
        s.len() >= 3 && key_of_value(s[s.len() - 2]) is Some && s[s.len() - 3] is Mapping
            && before_vm.heap.map_ok(s[s.len() - 3]->Mapping_0) && !s[s.len() - 3]->Mapping_0.spec_is_nil()
    }))
    &&& (r is Err ==> after_vm.heap == before_vm.heap)
}

/// What `map_keys` does, as its contract states.
pub open spec fn map_keys_done(before_vm: VirtualMachine, after_vm: VirtualMachine, key_type: ValueType, r: Result<(), Fault>) -> bool {
    &&& (after_vm.heap.wf())
    &&& (after_vm.frames@ == before_vm.frames@)
    &&& (after_vm.output@ == before_vm.output@)
    &&& (after_vm.pending_panic == before_vm.pending_panic)
    &&& (after_vm.panic_depth == before_vm.panic_depth)
    &&& (r is Err ==> r matches Err(Fault::Error(_)))
    &&& (!is_scalar_type(key_type) ==> r is Err)
    &&& (r is Ok ==> ({
        let s = before_vm.stack@;
        let m = s.last()->Mapping_0;
        let entries = before_vm.heap.map_entries(m);
        let t = after_vm.stack@.last()->Slice_0;
        &&& s.len() >= 1
        &&& s.last() is Mapping
        &&& after_vm.stack@.drop_last() == s.drop_last()
        &&& after_vm.stack@.last() is Slice
        &&& after_vm.heap.slice_ok(t)
        &&& after_vm.heap.elements(t).len() == entries.len()
        &&& forall|i: int| 0 <= i < entries.len() ==> #[trigger] key_value_of(after_vm.heap.elements(t)[i], entries[i].0)
        &&& t.spec_start() == before_vm.heap.cells_view().len()
        &&& t.spec_capacity() == t.spec_len()
        &&& after_vm.heap.cells_view() == before_vm.heap.cells_view() + after_vm.heap.elements(t)
        &&& after_vm.heap.channels_same(before_vm.heap)
        &&& after_vm.heap.maps_same(before_vm.heap)
    }))
    &&& (r is Ok <==> ({
        let s = before_vm.stack@;
        is_scalar_type(key_type) && s.len() >= 1 && s.last() is Mapping && before_vm.heap.map_ok(s.last()->Mapping_0)
    }))
}

impl VirtualMachine {
    /// An arithmetic instruction: pops two operands and pushes the result.
    pub(super) fn binary_numeric_op(&mut self, op: ArithmeticOp) -> (r: Result<(), Fault>)
        ensures
            binary_numeric_op_done(*old(self), *final(self), op, r),
    {
        let right = self.pop_value()?;
        let left = self.pop_value()?;
        let value = match (&left, &right) {
            (Value::Integer(a), Value::Integer(b)) => match integer_op(op, *a, *b) {
                Some(n) => Value::Integer(n),
                None => {
                    return Err(error_message("division by zero"));
                },
            },
            (Value::Byte(a), Value::Byte(b)) => match byte_op(op, *a, *b) {
                Some(n) => Value::Byte(n),
                None => {
                    return Err(error_message("division by zero"));
                },
            },
            _ => {
                let mut message = String::new();
                push_str(&mut message, "arithmetic expected matching `int` or `byte` operands, found `");
                push_str(&mut message, runtime_type_name(&left));
                push_str(&mut message, "` and `");
                push_str(&mut message, runtime_type_name(&right));
                push_str(&mut message, "`");
                return Err(Fault::Error(message));
            },
        };
        self.stack.push(value);
        Ok(())
    }

    /// An ordering instruction: pops two integers and pushes whether the
    /// ordering holds.
    pub(super) fn binary_integer_compare(&mut self, op: OrderingOp) -> (r: Result<(), Fault>)
        ensures
            binary_integer_compare_done(*old(self), *final(self), op, r),
    {
        let right = self.pop_integer()?;
        let left = self.pop_integer()?;
        let holds = match op {
            OrderingOp::Less => left < right,
            OrderingOp::LessEqual => left <= right,
            OrderingOp::Greater => left > right,
            OrderingOp::GreaterEqual => left >= right,
        };
        self.stack.push(Value::Boolean(holds));
        Ok(())
    }

    /// `concat`: pops two strings and pushes their concatenation.
    pub(super) fn concat_strings(&mut self) -> (r: Result<(), Fault>)
        ensures
            concat_strings_done(*old(self), *final(self), r),
    {
        let right = self.pop_string()?;
        let left = self.pop_string()?;
        self.stack.push(Value::String(left.concat(&right)));
        assert(self.stack@.drop_last() =~= old(self).stack@.drop_last().drop_last());
        Ok(())
    }

    /// `build-slice count`: pops `count` values and pushes a fresh slice of
    /// them in the order they were pushed.
    pub(super) fn build_slice(&mut self, count: usize) -> (r: Result<(), Fault>)
        requires
            old(self).heap.wf(),
        ensures
            build_slice_done(*old(self), *final(self), count, r),
    {
        let elements = self.pop_arguments(count)?;
        let ghost before = self.heap;
        let slice = SliceValue::new(&mut self.heap, elements);
        proof {
            before.lemma_wf_maps_same(self.heap);
        }
        let ghost rest = self.stack@;
        self.stack.push(Value::Slice(slice));
        assert(self.stack@.drop_last() =~= rest);
        assert(old(self).stack@.subrange(old(self).stack@.len() - count, old(self).stack@.len() as int)
            =~= old(self).stack@.skip(old(self).stack@.len() - count));
        assert(old(self).stack@.subrange(0, old(self).stack@.len() - count) =~= old(self).stack@.take(old(self).stack@.len() - count));
        Ok(())
    }

    /// `make-slice`: pops the length (and the capacity, when given) and
    /// pushes a fresh slice of that many zero values of the element type.
    pub(super) fn make_slice(&mut self, element_type: &ValueType, has_capacity: bool) -> (r: Result<(), Fault>)
        requires
            old(self).heap.wf(),
        ensures
            make_slice_done(*old(self), *final(self), *element_type, has_capacity, r),
    {
        let capacity = if has_capacity { self.pop_integer()? } else { 0 };
        let length = self.pop_integer()?;
        let ghost rest = self.stack@;
        if length < 0 {
            return Err(numbered_message("builtin `make` length must be non-negative, found ", length));
        }
        let capacity = if has_capacity { capacity } else { length };
        if capacity < 0 {
            return Err(numbered_message("builtin `make` capacity must be non-negative, found ", capacity));
        }
        if length > capacity {
            let mut message = String::new();
            push_str(&mut message, "builtin `make` length ");
            push_int(&mut message, length);
            push_str(&mut message, " exceeds capacity ");
            push_int(&mut message, capacity);
            return Err(Fault::Error(message));
        }
        if capacity as u64 > usize::MAX as u64 {
            return Err(error_message("builtin `make` capacity could not convert to runtime size"));
        }
        let fill = zero_value_for_type(element_type);
        let ghost before = self.heap;
        let slice = SliceValue::with_len_and_capacity(&mut self.heap, fill, length as usize, capacity as usize);
        proof {
            before.lemma_wf_maps_same(self.heap);
            assert forall|k: int| before.cells_view().len() <= k < self.heap.cells_view().len()
                implies is_zero_value(*element_type, #[trigger] self.heap.cells_view()[k]) by {
                crate::runtime::vm::support::lemma_equiv_zero(*element_type, self.heap.cells_view()[k], fill);
            }
        }
        self.stack.push(Value::Slice(slice));
        assert(self.stack@.drop_last() =~= rest);
        proof {
            let s = old(self).stack@;
            let k: int = if has_capacity { 2 } else { 1 };
            assert(rest =~= s.take(s.len() - k));
        }
        Ok(())
    }

    /// `make-chan`: pops the buffer size, when given, and pushes a new
    /// channel with that capacity (zero without one).
    pub(super) fn make_chan(&mut self, has_buffer: bool) -> (r: Result<(), Fault>)
        requires
            old(self).heap.wf(),
        ensures
            make_chan_done(*old(self), *final(self), has_buffer, r),
    {
        let buffer = if has_buffer { self.pop_integer()? } else { 0 };
        if buffer < 0 {
            return Err(numbered_message("builtin `make` buffer size must be non-negative, found ", buffer));
        }
        if buffer as u64 > usize::MAX as u64 {
            return Err(error_message("builtin `make` buffer size could not convert to runtime size"));
        }
        let ghost before = self.heap;
        let channel = ChannelValue::with_capacity(&mut self.heap, buffer as usize);
        proof {
            assert(self.heap.maps_same(before));
            before.lemma_wf_maps_same(self.heap);
        }
        let ghost rest = self.stack@;
        self.stack.push(Value::Chan(channel));
        assert(self.stack@.drop_last() =~= rest);
        Ok(())
    }
}

} // verus!

verus! {

/// The error for an index outside a slice or a string.
fn index_out_of_bounds(kind: SequenceKind, index: i64) -> (f: Fault)
    ensures
        f matches Fault::Error(m) && m@ == sequence_kind_name(kind)@ + " index "@ + int_text(index as int)
            + " is out of bounds"@,
{
    let mut message = String::new();
    push_str(&mut message, kind.render());
    push_str(&mut message, " index ");
    push_int(&mut message, index);
    push_str(&mut message, " is out of bounds");
    Fault::Error(message)
}

impl VirtualMachine {
    /// `index kind`: pops an index and a slice or string and pushes the
    /// element or byte at that index.
    pub(super) fn index_value(&mut self, kind: SequenceKind) -> (r: Result<(), Fault>)
        ensures
            index_value_done(*old(self), *final(self), kind, r),
    {
        let index = self.pop_integer()?;
        if index < 0 {
            return Err(index_out_of_bounds(kind, index));
        }
        let target = self.pop_value()?;
        let ghost rest = self.stack@;
        let value = match (kind, &target) {
            (SequenceKind::Slice, Value::Slice(slice)) => {
                if !self.heap.check_slice(slice) {
                    return Err(error_message("invalid slice handle"));
                }
                if index as u64 >= slice.len() as u64 {
                    return Err(index_out_of_bounds(kind, index));
                }
                match slice.get(&self.heap, index as usize) {
                    Some(v) => v,
                    None => {
                        return Err(index_out_of_bounds(kind, index));
                    },
                }
            },
            (SequenceKind::String, Value::String(text)) => {
                if index as u64 >= text.len() as u64 {
                    return Err(index_out_of_bounds(kind, index));
                }
                match text.byte_at(index as usize) {
                    Some(b) => Value::Byte(b),
                    None => {
                        return Err(index_out_of_bounds(kind, index));
                    },
                }
            },
            (SequenceKind::Slice, _) => {
                return Err(error_message("index target is not a slice"));
            },
            (SequenceKind::String, _) => {
                return Err(error_message("index target is not a string"));
            },
        };
        self.stack.push(value);
        assert(self.stack@.drop_last() =~= rest);
        Ok(())
    }

    /// `slice kind low? high?`: pops the bounds that are present and the
    /// slice or string, and pushes the window `low .. high` (by default
    /// `0 .. len`). A slice window may reach into the capacity and shares
    /// storage; a string window copies its bytes.
    pub(super) fn slice_value(&mut self, kind: SequenceKind, has_low: bool, has_high: bool) -> (r: Result<(), Fault>)
        ensures
            slice_value_done(*old(self), *final(self), kind, has_low, has_high, r),
    {
        let high = if has_high { Some(self.pop_integer()?) } else { None };
        let low = if has_low { Some(self.pop_integer()?) } else { None };
        let target = self.pop_value()?;
        let ghost rest = self.stack@;
        let result = match (kind, &target) {
            (SequenceKind::Slice, Value::Slice(slice)) => {
                proof {
                    slice.lemma_window_fits_usize();
                }
                if slice.len() as u64 > i64::MAX as u64 {
                    return Err(error_message("slice length could not convert to integer"));
                }
                let low = normalize_slice_bound(low, 0, "lower")?;
                let high = normalize_slice_bound(high, slice.len() as i64, "upper")?;
                match slice.slice(low, high) {
                    Ok(window) => Value::Slice(window),
                    Err(()) => {
                        return Err(slice_bounds_error_message(low, high));
                    },
                }
            },
            (SequenceKind::String, Value::String(text)) => {
                if text.len() as u64 > i64::MAX as u64 {
                    return Err(error_message("string length could not convert to integer"));
                }
                let low = normalize_slice_bound(low, 0, "lower")?;
                let high = normalize_slice_bound(high, text.len() as i64, "upper")?;
                match text.slice(low, high) {
                    Ok(window) => Value::String(window),
                    Err(()) => {
                        return Err(slice_bounds_error_message(low, high));
                    },
                }
            },
            (SequenceKind::Slice, _) => {
                return Err(error_message("slice expression target is not a slice"));
            },
            (SequenceKind::String, _) => {
                return Err(error_message("slice expression target is not a string"));
            },
        };
        self.stack.push(result);
        proof {
            let s = old(self).stack@;
            let k: int = (if has_low { 1int } else { 0int }) + (if has_high { 1int } else { 0int });
            assert(rest =~= s.take(s.len() - k - 1));
            assert(self.stack@.drop_last() =~= rest);
        }
        Ok(())
    }

    /// `convert`: `[]byte(string)` pushes a fresh byte slice of the
    /// string's bytes; `string([]byte)` pushes a string of the slice's
    /// bytes.
    pub(super) fn convert_value(&mut self, conversion: ConversionKind) -> (r: Result<(), Fault>)
        requires
            old(self).heap.wf(),
        ensures
            convert_value_done(*old(self), *final(self), conversion, r),
    {
        let value = self.pop_value()?;
        let ghost rest = self.stack@;
        let converted = match (conversion, &value) {
            (ConversionKind::StringToBytes, Value::String(text)) => {
                let ghost before = self.heap;
                let slice = SliceValue::from_string(&mut self.heap, text);
                proof {
                    before.lemma_wf_maps_same(self.heap);
                }
                Value::Slice(slice)
            },
            (ConversionKind::BytesToString, Value::Slice(slice)) => {
                if !self.heap.check_slice(slice) {
                    return Err(error_message("invalid slice handle"));
                }
                match StringValue::from_byte_slice(slice, &self.heap) {
                    Ok(text) => Value::String(text),
                    Err(()) => {
                        return Err(error_message("conversion `string([]byte)` encountered a non-byte slice"));
                    },
                }
            },
            (ConversionKind::StringToBytes, _) => {
                return Err(error_message("conversion `[]byte(string)` expected a string value"));
            },
            (ConversionKind::BytesToString, _) => {
                return Err(error_message("conversion `string([]byte)` expected a byte slice value"));
            },
        };
        self.stack.push(converted);
        assert(self.stack@.drop_last() =~= rest);
        Ok(())
    }

    /// `set-index`: pops a value, an index and a slice, and stores the value
    /// at that index of the slice's storage.
    pub(super) fn set_slice_index(&mut self) -> (r: Result<(), Fault>)
        requires
            old(self).heap.wf(),
        ensures
            set_slice_index_done(*old(self), *final(self), r),
    {
        let value = self.pop_value()?;
        let index = self.pop_integer()?;
        if index < 0 {
            return Err(index_out_of_bounds(SequenceKind::Slice, index));
        }
        let target = self.pop_value()?;
        let slice = match target {
            Value::Slice(s) => s,
            _ => {
                return Err(error_message("index assignment target is not a slice"));
            },
        };
        if !self.heap.check_slice(&slice) {
            return Err(error_message("invalid slice handle"));
        }
        if index as u64 >= slice.len() as u64 {
            return Err(index_out_of_bounds(SequenceKind::Slice, index));
        }
        let ghost before = self.heap;
        let outcome = slice.set(&mut self.heap, index as usize, value);
        proof {
            before.lemma_wf_maps_same(self.heap);
        }
        match outcome {
            Ok(()) => {
                assert(self.stack@ =~= old(self).stack@.take(old(self).stack@.len() - 3));
                Ok(())
            },
            Err(()) => Err(index_out_of_bounds(SequenceKind::Slice, index)),
        }
    }

    /// `send`: pops a value and a channel and adds the value to the
    /// channel's buffer.
    pub(super) fn send(&mut self) -> (r: Result<(), Fault>)
        requires
            old(self).heap.wf(),
        ensures
            send_done(*old(self), *final(self), r),
    {
        let value = self.pop_value()?;
        let target = self.pop_value()?;
        let channel = match target {
            Value::Chan(c) => c,
            _ => {
                return Err(error_message("send target is not a channel"));
            },
        };
        if !self.heap.check_channel(&channel) {
            return Err(error_message("invalid channel handle"));
        }
        let ghost before = self.heap;
        let outcome = channel.send(&mut self.heap, value);
        proof {
            before.lemma_wf_channel_change(self.heap, channel);
            assert(self.stack@ =~= old(self).stack@.take(old(self).stack@.len() - 2));
        }
        match outcome {
            Ok(()) => Ok(()),
            Err(ChannelSendError::Nil) => Err(error_message("send on nil channel would block")),
            Err(ChannelSendError::Closed) => Err(error_message("send on closed channel")),
            Err(ChannelSendError::WouldBlock) => Err(error_message("send would block in the current single-threaded VM")),
        }
    }

    /// `receive`: pops a channel and pushes the front of its buffer, or the
    /// zero value of the element type once it is closed and drained.
    pub(super) fn receive(&mut self, element_type: &ValueType) -> (r: Result<(), Fault>)
        requires
            old(self).heap.wf(),
        ensures
            receive_done(*old(self), *final(self), *element_type, r),
    {
        let target = self.pop_value()?;
        let channel = match target {
            Value::Chan(c) => c,
            _ => {
                return Err(error_message("receive target is not a channel"));
            },
        };
        if !self.heap.check_channel(&channel) {
            return Err(error_message("invalid channel handle"));
        }
        let ghost before = self.heap;
        let ghost rest = self.stack@;
        let outcome = channel.receive(&mut self.heap);
        proof {
            before.lemma_wf_channel_change(self.heap, channel);
        }
        let value = match outcome {
            Ok(ChannelReceiveResult::Value(v)) => v,
            Ok(ChannelReceiveResult::ClosedEmpty) => zero_value_for_type(element_type),
            Err(ChannelReceiveError::Nil) => {
                return Err(error_message("receive from nil channel would block"));
            },
            Err(ChannelReceiveError::WouldBlock) => {
                return Err(error_message("receive would block in the current single-threaded VM"));
            },
        };
        self.stack.push(value);
        assert(self.stack@.drop_last() =~= rest);
        Ok(())
    }
}

} // verus!

verus! {

/// The key types that maps may have.
pub open spec fn is_scalar_type(t: ValueType) -> bool {
    t == ValueType::Int || t == ValueType::Byte || t == ValueType::Bool || t == ValueType::String
}

impl VirtualMachine {
    /// `make-map`: pops the size hint, when given, and pushes a new empty
    /// map; the hint does not change behaviour.
    pub(super) fn make_map(&mut self, map_type: &ValueType, has_hint: bool) -> (r: Result<(), Fault>)
        requires
            old(self).heap.wf(),
        ensures
            make_map_done(*old(self), *final(self), *map_type, has_hint, r),
    {
        let hint = if has_hint {
            let hint = self.pop_integer()?;
            if hint < 0 {
                return Err(numbered_message("builtin `make` hint must be non-negative, found ", hint));
            }
            if hint as u64 > usize::MAX as u64 {
                return Err(error_message("builtin `make` hint could not convert to runtime size"));
            }
            hint as usize
        } else {
            0
        };
        match map_type {
            ValueType::Mapping { .. } => {},
            _ => {
                return Err(error_message("map allocation expected a map runtime type"));
            },
        }
        let ghost rest = self.stack@;
        let map = MapValue::with_hint(&mut self.heap, hint);
        self.stack.push(Value::Mapping(map));
        assert(self.stack@.drop_last() =~= rest);
        Ok(())
    }

    /// `build-map n`: pops `n` key and value pairs and pushes a new map
    /// holding them; a later pair for the same key replaces an earlier one.
    pub(super) fn build_map(&mut self, map_type: &ValueType, entry_count: usize) -> (r: Result<(), Fault>)
        requires
            old(self).heap.wf(),
        ensures
            build_map_done(*old(self), *final(self), *map_type, entry_count, r),
    {
        match map_type {
            ValueType::Mapping { .. } => {},
            _ => {
                return Err(error_message("build-map expected a map runtime type"));
            },
        }
        if entry_count > usize::MAX / 2 {
            return Err(error_message("stack underflow"));
        }
        let mut pairs = self.pop_arguments(2 * entry_count)?;
        let ghost rest = self.stack@;
        let ghost all = pairs@;
        let ghost start = self.heap;
        let map = MapValue::with_hint(&mut self.heap, entry_count);
        let mut inserted: usize = 0;
        while pairs.len() >= 2
            invariant
                self.heap.wf(),
                self.heap.map_ok(map),
                !map.spec_is_nil(),
                map.spec_id() == start.map_count(),
                self.heap.map_count() == start.map_count() + 1,
                self.heap.cells_view() == start.cells_view(),
                self.heap.channels_same(start),
                forall|x: MapValue| #[trigger] start.map_ok(x) ==> self.heap.map_ok(x)
                    && self.heap.map_entries(x) == start.map_entries(x),
                self.stack@ == rest,
                self.frames@ == old(self).frames@,
                self.output@ == old(self).output@,
                self.pending_panic == old(self).pending_panic,
                self.panic_depth == old(self).panic_depth,
                all.len() == 2 * entry_count,
                2 * entry_count <= old(self).stack@.len(),
                all == old(self).stack@.subrange(old(self).stack@.len() - 2 * entry_count, old(self).stack@.len() as int),
                entry_count <= usize::MAX / 2,
                inserted + pairs@.len() / 2 == entry_count,
                pairs@.len() % 2 == 0,
                pairs@ == all.skip(2 * inserted),
                forall|j: int| 0 <= j < inserted ==> #[trigger] literal_key(all, j) is Some,
                self.heap.map_entries(map).len() <= inserted,
                holds_literal(self.heap.map_entries(map), all, inserted as nat),
            decreases pairs@.len(),
        {
            let key = pairs.remove(0);
            let value = pairs.remove(0);
            assert(key == all[2 * inserted]);
            assert(value == all[2 * inserted + 1]);
            assert(pairs@ =~= all.skip(2 * (inserted + 1)));
            let key = match value_to_key(key) {
                Some(k) => k,
                None => {
                    assert(literal_key(all, inserted as int) is None);
                    assert(all == old(self).stack@.subrange(
                        old(self).stack@.len() - 2 * entry_count,
                        old(self).stack@.len() as int,
                    ));
                    return Err(error_message("map index key is not a comparable scalar value"));
                },
            };
            let ghost before = self.heap;
            let ghost gk = key;
            let ghost gv = value;
            match map.insert(&mut self.heap, key, value) {
                Ok(()) => {},
                Err(()) => {
                    return Err(error_message("map literal construction encountered a nil map"));
                },
            }
            proof {
                self.heap.lemma_map_change(before, map);
                self.heap.lemma_same_trans(before, start);
                let old_e = before.map_entries(map);
                let new_e = self.heap.map_entries(map);
                assert(new_e.len() <= old_e.len() + 1);
                let n = (inserted + 1) as nat;
                assert(literal_key(all, inserted as int) == Some(gk));
                assert forall|k: MapKey| match #[trigger] last_literal_value(all, n, k) {
                    Some(v) => stored(new_e, k, v),
                    None => key_position(new_e, k, None),
                } by {
                    match last_literal_value(all, inserted as nat, k) {
                        Some(v0) => {
                            law_map_read_after_write(old_e, new_e, gk, gv, k, v0);
                        },
                        None => {
                            law_map_read_after_write(old_e, new_e, gk, gv, k, gv);
                        },
                    }
                    if same_key(gk, k) {
                        let i = choose|i: usize| #[trigger] key_position(new_e, gk, Some(i)) && new_e[i as int].1 == gv;
                        assert(key_position(new_e, k, Some(i)));
                    }
                }
                assert forall|x: MapValue| #[trigger] start.map_ok(x) implies self.heap.map_ok(x)
                    && self.heap.map_entries(x) == start.map_entries(x) by {
                    assert(before.map_ok(x));
                }
            }
            inserted = inserted + 1;
        }
        self.stack.push(Value::Mapping(map));
        assert(self.stack@.drop_last() =~= rest);
        Ok(())
    }
}

} // verus!

verus! {

impl VirtualMachine {
    /// Reads a map: pops a key and a map and returns the value stored under
    /// the key, or the zero value of the map's value type, and whether the
    /// key was present. Reading the nil map finds nothing.
    pub(super) fn read_map(&mut self, map_type: &ValueType) -> (r: Result<(Value, bool), Fault>)
        ensures
            read_map_done(*old(self), *final(self), *map_type, r),
    {
        let key = self.pop_map_key()?;
        let target = self.pop_value()?;
        let map = match target {
            Value::Mapping(m) => m,
            _ => {
                return Err(error_message("index target is not a map"));
            },
        };
        let value_type = match map_type.map_value_type() {
            Some(t) => t,
            None => {
                return Err(error_message("index-map expected a map runtime type"));
            },
        };
        if !self.heap.check_map(&map) {
            return Err(error_message("invalid map handle"));
        }
        assert(self.stack@ =~= old(self).stack@.take(old(self).stack@.len() - 2));
        match map.get(&self.heap, &key) {
            Some(v) => {
                proof {
                    let entries = self.heap.map_entries(map);
                    let i = choose|i: usize| #[trigger] crate::runtime::value::key_position(entries, key, Some(i)) && v.equiv(entries[i as int].1);
                    assert(crate::runtime::value::key_position(entries, key, Some(i)) && v.equiv(entries[i as int].1));
                    assert(key_of_value(old(self).stack@.last())->0 == key);
                    assert(old(self).stack@[old(self).stack@.len() - 2] == Value::Mapping(map));
                    assert(crate::runtime::value::key_position(entries, key_of_value(old(self).stack@.last())->0, Some(i)));
                }
                Ok((v, true))
            },
            None => Ok((zero_value_for_type(value_type), false)),
        }
    }

    /// `set-map-index`: pops a value, a key and a map and stores the value
    /// under the key; storing into the nil map fails.
    pub(super) fn set_map_index(&mut self) -> (r: Result<(), Fault>)
        requires
            old(self).heap.wf(),
        ensures
            set_map_index_done(*old(self), *final(self), r),
    {
        let value = self.pop_value()?;
        let key = self.pop_map_key()?;
        let target = self.pop_value()?;
        let map = match target {
            Value::Mapping(m) => m,
            _ => {
                return Err(error_message("index assignment target is not a map"));
            },
        };
        if !self.heap.check_map(&map) {
            return Err(error_message("invalid map handle"));
        }
        assert(self.stack@ =~= old(self).stack@.take(old(self).stack@.len() - 3));
        match map.insert(&mut self.heap, key, value) {
            Ok(()) => Ok(()),
            Err(()) => Err(error_message("assignment to entry in nil map")),
        }
    }

    /// `map-keys`: pops a map and pushes a fresh slice of its keys in
    /// ascending order.
    pub(super) fn map_keys(&mut self, key_type: &ValueType) -> (r: Result<(), Fault>)
        requires
            old(self).heap.wf(),
        ensures
            map_keys_done(*old(self), *final(self), *key_type, r),
    {
        let target = self.pop_value()?;
        let scalar = match key_type {
            ValueType::Int | ValueType::Byte | ValueType::Bool | ValueType::String => true,
            _ => false,
        };
        if !scalar {
            return Err(error_message("map-keys expected a comparable scalar runtime key type"));
        }
        let map = match target {
            Value::Mapping(m) => m,
            _ => {
                return Err(error_message("map-keys target is not a map"));
            },
        };
        if !self.heap.check_map(&map) {
            return Err(error_message("invalid map handle"));
        }
        let keys = map.keys_as_values(&self.heap);
        let ghost before = self.heap;
        let ghost rest = self.stack@;
        let slice = SliceValue::new(&mut self.heap, keys);
        proof {
            before.lemma_wf_maps_same(self.heap);
            before.lemma_maps_same_entries(self.heap, map);
        }
        self.stack.push(Value::Slice(slice));
        assert(self.stack@.drop_last() =~= rest);
        Ok(())
    }
}

} // verus!
