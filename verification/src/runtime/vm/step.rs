//! Executing one instruction of the innermost frame.

use vstd::prelude::*;

use crate::builtin::BuiltinFunction;
use crate::bytecode::instruction::{Instruction, Program, ValueType};
use crate::runtime::value::{byte_values, seq_equiv, ChannelValue, MapValue, SliceValue, StringValue, Value};
use crate::runtime::vm::handlers::{
    binary_integer_compare_done, binary_numeric_op_done, build_map_done, build_slice_done, concat_strings_done,
    convert_value_done, index_value_done, make_chan_done, make_map_done, make_slice_done, map_keys_done,
    read_map_done, receive_done, send_done, set_map_index_done, set_slice_index_done, slice_value_done,
    ArithmeticOp, OrderingOp,
};
use crate::package::PackageFunction;
use crate::runtime::vm::builtins::execute_builtin_call_done;
use crate::runtime::vm::calls::call_user_function_done;
use crate::runtime::vm::interfaces::{box_any_done, has_consistent_payload, panic_payload_for, type_assert_done};
use crate::runtime::vm::packages::execute_package_function_done;
use crate::runtime::vm::unwind::recover_done;
use crate::runtime::vm::{
    pop_bool_done, pop_value_done, CallFrame,
    error_message, DeferredCall, Fault, PanicPayload, ReturnMode, VirtualMachine,
};
use crate::text::{nat_text, push_nat, push_str};

verus! {

/// What `load_local` does, as its contract states.
pub open spec fn load_local_done(before_vm: VirtualMachine, after_vm: VirtualMachine, top: usize, index: usize, r: Result<(), Fault>) -> bool {
    &&& (after_vm.frames@ == before_vm.frames@)
    &&& (after_vm.output@ == before_vm.output@)
    &&& (after_vm.heap == before_vm.heap)
    &&& (after_vm.pending_panic == before_vm.pending_panic)
    &&& (after_vm.panic_depth == before_vm.panic_depth)
    &&& (index < before_vm.frames@[top as int].locals@.len() <==> r is Ok)
    &&& (r is Err ==> r matches Err(Fault::Error(_)))
    &&& (r is Ok ==> after_vm.stack@.drop_last() == before_vm.stack@
        && after_vm.stack@.last().equiv(before_vm.frames@[top as int].locals@[index as int]))
}

/// What `store_local` does, as its contract states.
pub open spec fn store_local_done(before_vm: VirtualMachine, after_vm: VirtualMachine, top: usize, index: usize, r: Result<(), Fault>) -> bool {
    &&& (after_vm.output@ == before_vm.output@)
    &&& (after_vm.heap == before_vm.heap)
    &&& (after_vm.pending_panic == before_vm.pending_panic)
    &&& (after_vm.panic_depth == before_vm.panic_depth)
    &&& (after_vm.frames@.len() == before_vm.frames@.len())
    &&& (r is Err ==> r matches Err(Fault::Error(_)))
    &&& (r is Ok ==> {
        let s = before_vm.stack@;
        let before = before_vm.frames@[top as int];
        let after = after_vm.frames@[top as int];
        &&& s.len() >= 1
        &&& index < before.locals@.len()
        &&& after_vm.stack@ == s.drop_last()
        &&& after.locals@ == before.locals@.update(index as int, s.last())
        &&& after.pc == before.pc
        &&& after.function_index == before.function_index
        &&& after.returning == before.returning
        &&& after.deferred_calls == before.deferred_calls
        &&& forall|i: int| 0 <= i < before_vm.frames@.len() && i != top ==> #[trigger] after_vm.frames@[i] == before_vm.frames@[i]
    })
    &&& (r is Err ==> after_vm.frames@ == before_vm.frames@)
}

/// What `binary_compare` does, as its contract states.
pub open spec fn binary_compare_done(before_vm: VirtualMachine, after_vm: VirtualMachine, negate: bool, r: Result<(), Fault>) -> bool {
    &&& (after_vm.frames@ == before_vm.frames@)
    &&& (after_vm.output@ == before_vm.output@)
    &&& (after_vm.heap == before_vm.heap)
    &&& (after_vm.pending_panic == before_vm.pending_panic)
    &&& (after_vm.panic_depth == before_vm.panic_depth)
    &&& (({
        let s = before_vm.stack@;
        let outcome = crate::runtime::vm::interfaces::equality_outcome(before_vm.heap, s[s.len() - 2], s.last());
        &&& s.len() < 2 ==> (r is Err && r->Err_0 is Error)
        &&& s.len() >= 2 && crate::runtime::vm::interfaces::interface_has_payload(s[s.len() - 2])
            && crate::runtime::vm::interfaces::interface_has_payload(s.last()) ==> {
            &&& outcome is Some ==> r is Ok && after_vm.stack@ == s.drop_last().drop_last().push(
                Value::Boolean(outcome->0 != negate))
            &&& outcome is None ==> r is Err && r->Err_0 is Panic
        }
    }))
}

/// What `pop_spread_arguments` does, as its contract states.
pub open spec fn pop_spread_arguments_done(before_vm: VirtualMachine, after_vm: VirtualMachine, prefix: usize, allow_string: bool, r: Result<Vec<Value>, Fault>) -> bool {
    &&& (after_vm.frames@ == before_vm.frames@)
    &&& (after_vm.output@ == before_vm.output@)
    &&& (after_vm.heap == before_vm.heap)
    &&& (after_vm.pending_panic == before_vm.pending_panic)
    &&& (after_vm.panic_depth == before_vm.panic_depth)
    &&& (r is Err ==> r matches Err(Fault::Error(_)))
    &&& (r is Ok ==> ({
        let s = before_vm.stack@;
        &&& s.len() >= prefix + 1
        &&& after_vm.stack@ == s.take(s.len() - prefix - 1)
        &&& r->Ok_0@.take(prefix as int) == s.subrange(s.len() - prefix - 1, s.len() - 1)
    }))
}

/// What `pop_spread_call_arguments` does, as its contract states.
pub open spec fn pop_spread_call_arguments_done(before_vm: VirtualMachine, after_vm: VirtualMachine, prefix: usize, r: Result<Vec<Value>, Fault>) -> bool {
    &&& (after_vm.frames@ == before_vm.frames@)
    &&& (after_vm.output@ == before_vm.output@)
    &&& (after_vm.heap == before_vm.heap)
    &&& (after_vm.pending_panic == before_vm.pending_panic)
    &&& (after_vm.panic_depth == before_vm.panic_depth)
    &&& (r is Err ==> r matches Err(Fault::Error(_)))
    &&& (r is Ok ==> ({
        let s = before_vm.stack@;
        &&& s.len() >= prefix + 1
        &&& s.last() is Slice
        &&& after_vm.stack@ == s.take(s.len() - prefix - 1)
        &&& r->Ok_0@ == s.skip(s.len() - prefix - 1)
    }))
}

/// What `defer` does, as its contract states.
pub open spec fn defer_done(before_vm: VirtualMachine, after_vm: VirtualMachine, call: DeferredCall) -> bool {
    &&& (after_vm.stack@ == before_vm.stack@)
    &&& (after_vm.output@ == before_vm.output@)
    &&& (after_vm.heap == before_vm.heap)
    &&& (after_vm.pending_panic == before_vm.pending_panic)
    &&& (after_vm.panic_depth == before_vm.panic_depth)
    &&& (after_vm.frames@.len() == before_vm.frames@.len())
    &&& (after_vm.frames@.drop_last() == before_vm.frames@.drop_last())
    &&& (after_vm.frames@.last().deferred_calls@ == before_vm.frames@.last().deferred_calls@.push(call))
    &&& (after_vm.frames@.last().pc == before_vm.frames@.last().pc)
    &&& (after_vm.frames@.last().locals == before_vm.frames@.last().locals)
    &&& (after_vm.frames@.last().returning == before_vm.frames@.last().returning)
    &&& (after_vm.frames@.last().function_index == before_vm.frames@.last().function_index)
}

impl VirtualMachine {
    /// The elements a spread argument passes: the visible elements of a
    /// slice, or, where `allow_string`, the bytes of a string.
    fn spread_elements(&self, value: &Value, allow_string: bool) -> (r: Result<Vec<Value>, Fault>)
        ensures
            value is Slice && self.heap.slice_ok(value->Slice_0) ==> (r matches Ok(elements)
                && seq_equiv(elements@, self.heap.elements(value->Slice_0))),
            value is String && allow_string ==> (r matches Ok(elements)
                && elements@ == byte_values(value->String_0@)),
            !(value is Slice || (value is String && allow_string)) ==> (r matches Err(Fault::Error(_))),
            r is Err ==> r matches Err(Fault::Error(_)),
    {
        match value {
            Value::Slice(s) => {
                if !self.heap.check_slice(s) {
                    return Err(error_message("invalid slice handle"));
                }
                Ok(s.visible_elements(&self.heap))
            },
            Value::String(t) => {
                if !allow_string {
                    return Err(error_message("spread argument must be a slice"));
                }
                let bytes = t.as_bytes();
                let mut out: Vec<Value> = Vec::new();
                let mut i: usize = 0;
                while i < bytes.len()
                    invariant
                        i <= bytes@.len(),
                        out@ == byte_values(bytes@.take(i as int)),
                    decreases bytes@.len() - i,
                {
                    out.push(Value::Byte(bytes[i]));
                    i = i + 1;
                    assert(out@ =~= byte_values(bytes@.take(i as int)));
                }
                assert(bytes@.take(bytes@.len() as int) =~= bytes@);
                Ok(out)
            },
            _ => Err(error_message("spread argument must be a slice or string")),
        }
    }

    /// Pops a spread argument and the `prefix` arguments before it, and
    /// returns the prefix followed by the spread elements.
    fn pop_spread_arguments(&mut self, prefix: usize, allow_string: bool) -> (r: Result<Vec<Value>, Fault>)
        ensures
            pop_spread_arguments_done(*old(self), *final(self), prefix, allow_string, r),
    {
        let spread = self.pop_value()?;
        let mut arguments = self.pop_arguments(prefix)?;
        let mut rest = self.spread_elements(&spread, allow_string)?;
        let ghost fixed = arguments@;
        arguments.append(&mut rest);
        proof {
            let s = old(self).stack@;
            assert(arguments@.take(prefix as int) =~= fixed);
            assert(s.drop_last().subrange(s.len() - 1 - prefix, s.len() - 1) =~= s.subrange(s.len() - prefix - 1, s.len() - 1));
            assert(s.drop_last().subrange(0, s.len() - 1 - prefix) =~= s.take(s.len() - prefix - 1));
        }
        Ok(arguments)
    }

    /// Pops the spread slice of a call of a variadic function and the
    /// `prefix` arguments before it; the slice itself becomes the variadic
    /// parameter.
    fn pop_spread_call_arguments(&mut self, prefix: usize) -> (r: Result<Vec<Value>, Fault>)
        ensures
            pop_spread_call_arguments_done(*old(self), *final(self), prefix, r),
    {
        let spread = self.pop_value()?;
        match spread {
            Value::Slice(_) => {},
            _ => {
                return Err(error_message("spread argument of a variadic call must be a slice"));
            },
        }
        let mut arguments = self.pop_arguments(prefix)?;
        arguments.push(spread);
        proof {
            let s = old(self).stack@;
            assert(arguments@ =~= s.skip(s.len() - prefix - 1));
            assert(self.stack@ =~= s.take(s.len() - prefix - 1));
        }
        Ok(arguments)
    }

    /// Pushes results onto the stack in order.
    fn push_results(&mut self, results: Vec<Value>)
        ensures
            final(self).stack@ == old(self).stack@ + results@,
            final(self).frames@ == old(self).frames@,
            final(self).output@ == old(self).output@,
            final(self).heap == old(self).heap,
            final(self).pending_panic == old(self).pending_panic,
            final(self).panic_depth == old(self).panic_depth,
    {
        let mut results = results;
        self.stack.append(&mut results);
    }

    /// `load-local index`: pushes a copy of local `index` of frame `top`.
    fn load_local(&mut self, top: usize, index: usize) -> (r: Result<(), Fault>)
        requires
            top < old(self).frames@.len(),
        ensures
            load_local_done(*old(self), *final(self), top, index, r),
    {
        if index >= self.frames[top].locals.len() {
            let mut message = String::new();
            push_str(&mut message, "invalid local slot ");
            push_nat(&mut message, index as u64);
            return Err(Fault::Error(message));
        }
        let value = self.frames[top].locals[index].duplicate();
        let ghost rest = self.stack@;
        self.stack.push(value);
        assert(self.stack@.drop_last() =~= rest);
        Ok(())
    }

    /// `store-local index`: pops a value into local `index` of frame `top`.
    fn store_local(&mut self, top: usize, index: usize) -> (r: Result<(), Fault>)
        requires
            top < old(self).frames@.len(),
        ensures
            store_local_done(*old(self), *final(self), top, index, r),
    {
        let value = self.pop_value()?;
        if index >= self.frames[top].locals.len() {
            let mut message = String::new();
            push_str(&mut message, "invalid local slot ");
            push_nat(&mut message, index as u64);
            return Err(Fault::Error(message));
        }
        self.frames[top].locals.set(index, value);
        Ok(())
    }

    /// `equal` or, with `negate`, `not-equal`: pops two values and pushes
    /// whether they are equal (or not), as [`equality_outcome`] states;
    /// comparing uncomparable interface payloads panics.
    fn binary_compare(&mut self, negate: bool) -> (r: Result<(), Fault>)
        ensures
            binary_compare_done(*old(self), *final(self), negate, r),
    {
        let right = self.pop_value()?;
        let left = self.pop_value()?;
        if !has_consistent_payload(&left) || !has_consistent_payload(&right) {
            return Err(error_message("boxed interface value was missing payload"));
        }
        let equal = self.compare_values_for_equality(&left, &right)?;
        self.stack.push(Value::Boolean(equal != negate));
        Ok(())
    }

    /// Fails unless function `callee` exists and is variadic, as a spread
    /// call needs.
    fn check_variadic(&self, program: &Program, callee: usize) -> (r: Result<(), Fault>)
        ensures
            r is Ok <==> callee < program.functions@.len() && program.functions@[callee as int].variadic_element_type is Some,
            r is Err ==> r matches Err(Fault::Error(_)),
    {
        if callee >= program.functions.len() {
            let mut message = String::new();
            push_str(&mut message, "invalid function index ");
            push_nat(&mut message, callee as u64);
            return Err(Fault::Error(message));
        }
        match &program.functions[callee].variadic_element_type {
            Some(_) => Ok(()),
            None => {
                let mut message = String::new();
                push_str(&mut message, "function `");
                push_str(&mut message, program.functions[callee].name.as_str());
                push_str(&mut message, "` is not variadic");
                Err(Fault::Error(message))
            },
        }
    }

    /// Records a deferred call in the innermost frame.
    fn defer(&mut self, call: DeferredCall)
        requires
            old(self).frames@.len() > 0,
        ensures
            defer_done(*old(self), *final(self), call),
    {
        let top = self.frames.len() - 1;
        self.frames[top].deferred_calls.push(call);
        assert(self.frames@.drop_last() =~= old(self).frames@.drop_last());
    }
}

} // verus!

verus! {

/// The machine is unchanged but for its operand stack.
pub open spec fn only_stack_changed(before_vm: VirtualMachine, after_vm: VirtualMachine) -> bool {
    &&& after_vm.frames@ == before_vm.frames@
    &&& after_vm.output@ == before_vm.output@
    &&& after_vm.heap == before_vm.heap
    &&& after_vm.pending_panic == before_vm.pending_panic
    &&& after_vm.panic_depth == before_vm.panic_depth
}

/// `v` is pushed on the operand stack, and nothing else changes.
pub open spec fn pushed(before_vm: VirtualMachine, after_vm: VirtualMachine, v: Value) -> bool {
    &&& only_stack_changed(before_vm, after_vm)
    &&& after_vm.stack@ == before_vm.stack@.push(v)
}

/// What `pop` does: the top of the stack is dropped, or, on an empty
/// stack, a stack underflow.
pub open spec fn pop_done(before_vm: VirtualMachine, after_vm: VirtualMachine, r: Result<(), Fault>) -> bool {
    &&& only_stack_changed(before_vm, after_vm)
    &&& before_vm.stack@.len() > 0 ==> r is Ok && after_vm.stack@ == before_vm.stack@.drop_last()
    &&& before_vm.stack@.len() == 0 ==> (r matches Err(Fault::Error(m)) && m@ == "stack underflow"@)
        && after_vm.stack@ == before_vm.stack@
}

/// What an instruction that neither jumps, calls nor returns does in frame
/// `top`: each kind as the handler that runs it states. An instruction
/// that changes control flow is refused, and the machine left as it was.
pub open spec fn operation_done(
    before_vm: VirtualMachine,
    after_vm: VirtualMachine,
    instruction: Instruction,
    top: usize,
    r: Result<(), Fault>,
) -> bool {
    match instruction {
        Instruction::PushInt(v) => r is Ok && pushed(before_vm, after_vm, Value::Integer(v)),
        Instruction::PushByte(v) => r is Ok && pushed(before_vm, after_vm, Value::Byte(v)),
        Instruction::PushBool(v) => r is Ok && pushed(before_vm, after_vm, Value::Boolean(v)),
        Instruction::PushString(t) => r is Ok && only_stack_changed(before_vm, after_vm)
            && after_vm.stack@.drop_last() == before_vm.stack@ && after_vm.stack@.len() == before_vm.stack@.len() + 1
            && (after_vm.stack@.last() matches Value::String(sv) && sv@ == vstd::utf8::encode_utf8(t@)),
        Instruction::PushNilInterface => r is Ok && only_stack_changed(before_vm, after_vm)
            && after_vm.stack@.drop_last() == before_vm.stack@ && after_vm.stack@.len() == before_vm.stack@.len() + 1
            && (after_vm.stack@.last() matches Value::Interface(i) && i.dynamic_type() is None && i.payload() is None),
        Instruction::PushNilSlice => r is Ok && pushed(before_vm, after_vm, Value::Slice(SliceValue::spec_nil())),
        Instruction::PushNilChan => r is Ok && pushed(before_vm, after_vm, Value::Chan(ChannelValue::spec_nil())),
        Instruction::PushNilMap => r is Ok && pushed(before_vm, after_vm, Value::Mapping(MapValue::spec_nil())),
        Instruction::BuildSlice(count) => build_slice_done(before_vm, after_vm, count, r),
        Instruction::BuildMap { map_type, entry_count } => build_map_done(before_vm, after_vm, map_type, entry_count, r),
        Instruction::MakeSlice { element_type, has_capacity } => make_slice_done(
            before_vm,
            after_vm,
            element_type,
            has_capacity,
            r,
        ),
        Instruction::MakeChan { has_buffer, .. } => make_chan_done(before_vm, after_vm, has_buffer, r),
        Instruction::MakeMap { map_type, has_hint } => make_map_done(before_vm, after_vm, map_type, has_hint, r),
        Instruction::Convert(conversion) => convert_value_done(before_vm, after_vm, conversion, r),
        Instruction::BoxAny(value_type) => box_any_done(before_vm, after_vm, value_type, r),
        Instruction::TypeAssert(value_type) => type_assert_done(before_vm, after_vm, value_type, false, r),
        Instruction::TypeAssertOk(value_type) => type_assert_done(before_vm, after_vm, value_type, true, r),
        Instruction::LoadLocal(index) => load_local_done(before_vm, after_vm, top, index, r),
        Instruction::StoreLocal(index) => store_local_done(before_vm, after_vm, top, index, r),
        Instruction::Add => binary_numeric_op_done(before_vm, after_vm, ArithmeticOp::Add, r),
        Instruction::Subtract => binary_numeric_op_done(before_vm, after_vm, ArithmeticOp::Subtract, r),
        Instruction::Multiply => binary_numeric_op_done(before_vm, after_vm, ArithmeticOp::Multiply, r),
        Instruction::Divide => binary_numeric_op_done(before_vm, after_vm, ArithmeticOp::Divide, r),
        Instruction::Concat => concat_strings_done(before_vm, after_vm, r),
        Instruction::Equal => binary_compare_done(before_vm, after_vm, false, r),
        Instruction::NotEqual => binary_compare_done(before_vm, after_vm, true, r),
        Instruction::Less => binary_integer_compare_done(before_vm, after_vm, OrderingOp::Less, r),
        Instruction::LessEqual => binary_integer_compare_done(before_vm, after_vm, OrderingOp::LessEqual, r),
        Instruction::Greater => binary_integer_compare_done(before_vm, after_vm, OrderingOp::Greater, r),
        Instruction::GreaterEqual => binary_integer_compare_done(before_vm, after_vm, OrderingOp::GreaterEqual, r),
        Instruction::Index(kind) => index_value_done(before_vm, after_vm, kind, r),
        Instruction::Slice { target_kind, has_low, has_high } => slice_value_done(
            before_vm,
            after_vm,
            target_kind,
            has_low,
            has_high,
            r,
        ),
        Instruction::Receive(element_type) => receive_done(before_vm, after_vm, element_type, r),
        Instruction::IndexMap(map_type) => match r {
            Ok(_) => exists|mid: VirtualMachine, v: Value, present: bool|
                #[trigger] read_map_done(before_vm, mid, map_type, Ok((v, present))) && pushed(mid, after_vm, v),
            Err(e) => read_map_done(before_vm, after_vm, map_type, Err(e)),
        },
        Instruction::LookupMap(map_type) => match r {
            Ok(_) => exists|mid: VirtualMachine, v: Value, present: bool|
                #[trigger] read_map_done(before_vm, mid, map_type, Ok((v, present))) && only_stack_changed(mid, after_vm)
                && after_vm.stack@ == mid.stack@.push(v).push(Value::Boolean(present)),
            Err(e) => read_map_done(before_vm, after_vm, map_type, Err(e)),
        },
        Instruction::MapKeys(key_type) => map_keys_done(before_vm, after_vm, key_type, r),
        Instruction::SetIndex => set_slice_index_done(before_vm, after_vm, r),
        Instruction::SetMapIndex => set_map_index_done(before_vm, after_vm, r),
        Instruction::Send => send_done(before_vm, after_vm, r),
        Instruction::Pop => pop_done(before_vm, after_vm, r),
        _ => (r matches Err(Fault::Error(m)) && m@ == "instruction changes control flow"@) && after_vm == before_vm,
    }
}

/// Whether an instruction may jump, call, defer, panic or return.
pub open spec fn is_control(instruction: Instruction) -> bool {
    match instruction {
        Instruction::Jump(_) | Instruction::JumpIfFalse(_) | Instruction::CallBuiltin(..)
        | Instruction::CallBuiltinSpread(..) | Instruction::Panic(_) | Instruction::PanicNil
        | Instruction::CallPackage(..) | Instruction::CallPackageSpread(..) | Instruction::CallFunction(..)
        | Instruction::CallFunctionSpread(..) | Instruction::DeferBuiltin(..) | Instruction::DeferPanic(_)
        | Instruction::DeferPanicNil | Instruction::DeferPackage(..) | Instruction::DeferPackageSpread(..)
        | Instruction::DeferFunction(..) | Instruction::DeferFunctionSpread(..) | Instruction::Return => true,
        _ => false,
    }
}

/// The operand stack is `stack`, and nothing else changes.
pub open spec fn stack_set(before_vm: VirtualMachine, after_vm: VirtualMachine, stack: Seq<Value>) -> bool {
    &&& only_stack_changed(before_vm, after_vm)
    &&& after_vm.stack@ == stack
}

/// `values` are pushed on the operand stack, and nothing else changes.
pub open spec fn appended(before_vm: VirtualMachine, after_vm: VirtualMachine, values: Seq<Value>) -> bool {
    &&& only_stack_changed(before_vm, after_vm)
    &&& after_vm.stack@ == before_vm.stack@ + values
}

/// A frame that goes on at `pc`.
pub open spec fn with_pc(frame: CallFrame, pc: usize) -> CallFrame {
    CallFrame { pc, ..frame }
}

/// Frame `top` goes on at `pc` with `stack` as the operand stack; nothing
/// else changes.
pub open spec fn moved_to(before_vm: VirtualMachine, after_vm: VirtualMachine, top: usize, pc: usize, stack: Seq<Value>) -> bool {
    &&& after_vm.stack@ == stack
    &&& after_vm.output@ == before_vm.output@
    &&& after_vm.heap == before_vm.heap
    &&& after_vm.pending_panic == before_vm.pending_panic
    &&& after_vm.panic_depth == before_vm.panic_depth
    &&& after_vm.frames@ == before_vm.frames@.update(top as int, with_pc(before_vm.frames@[top as int], pc))
}

/// The top `arity` values were popped as `arguments`, in the order they
/// were pushed.
pub open spec fn args_popped(before_vm: VirtualMachine, after_vm: VirtualMachine, arity: usize, arguments: Vec<Value>) -> bool {
    let s = before_vm.stack@;
    &&& arity <= s.len()
    &&& stack_set(before_vm, after_vm, s.take(s.len() - arity))
    &&& arguments@ == s.subrange(s.len() - arity, s.len() as int)
}

/// Fewer than `arity` values were on the stack: a runtime error, and
/// nothing changes.
pub open spec fn args_missing(before_vm: VirtualMachine, after_vm: VirtualMachine, arity: usize, r: Result<bool, Fault>) -> bool {
    &&& arity > before_vm.stack@.len()
    &&& r matches Err(Fault::Error(_))
    &&& stack_set(before_vm, after_vm, before_vm.stack@)
}

/// The builtin ran on `arguments` and its results were pushed, or it
/// failed.
pub open spec fn builtin_called(
    before_vm: VirtualMachine,
    after_vm: VirtualMachine,
    builtin: BuiltinFunction,
    arguments: Vec<Value>,
    r: Result<bool, Fault>,
) -> bool {
    match r {
        Ok(advance) => advance && exists|mid: VirtualMachine, results: Vec<Value>|
            #[trigger] execute_builtin_call_done(before_vm, mid, builtin, arguments, Ok(results)) && appended(
                mid,
                after_vm,
                results@,
            ),
        Err(e) => execute_builtin_call_done(before_vm, after_vm, builtin, arguments, Err(e)),
    }
}

/// The package function ran on `arguments` and its results were pushed,
/// or it failed.
pub open spec fn package_called(
    before_vm: VirtualMachine,
    after_vm: VirtualMachine,
    function: PackageFunction,
    arguments: Vec<Value>,
    r: Result<bool, Fault>,
) -> bool {
    match r {
        Ok(advance) => advance && exists|mid: VirtualMachine, results: Vec<Value>|
            #[trigger] execute_package_function_done(before_vm, mid, function, arguments, Ok(results)) && appended(
                mid,
                after_vm,
                results@,
            ),
        Err(e) => execute_package_function_done(before_vm, after_vm, function, arguments, Err(e)),
    }
}

/// `recover` ran and its value was pushed, or it failed.
pub open spec fn recovered(before_vm: VirtualMachine, after_vm: VirtualMachine, r: Result<bool, Fault>) -> bool {
    match r {
        Ok(advance) => advance && exists|mid: VirtualMachine, v: Value|
            #[trigger] recover_done(before_vm, mid, Ok(v)) && pushed(mid, after_vm, v),
        Err(e) => recover_done(before_vm, after_vm, Err(e)),
    }
}

/// Function `callee` was called from frame `top` with `arguments`, the
/// caller moving on past the call, or the call failed.
pub open spec fn user_called(
    program: Program,
    before_vm: VirtualMachine,
    after_vm: VirtualMachine,
    top: usize,
    callee: usize,
    arguments: Vec<Value>,
    spread: bool,
    r: Result<bool, Fault>,
) -> bool {
    match r {
        Ok(advance) => !advance && call_user_function_done(
            before_vm,
            after_vm,
            program,
            top,
            callee,
            arguments,
            spread,
            ReturnMode::Normal,
            true,
            None,
            Ok(()),
        ),
        Err(e) => call_user_function_done(
            before_vm,
            after_vm,
            program,
            top,
            callee,
            arguments,
            spread,
            ReturnMode::Normal,
            true,
            None,
            Err(e),
        ),
    }
}

/// The arguments of a call with `arity` values on the stack were popped and
/// `then` holds of what follows, or too few values were there.
pub open spec fn with_arguments(
    before_vm: VirtualMachine,
    after_vm: VirtualMachine,
    arity: usize,
    r: Result<bool, Fault>,
    then: spec_fn(VirtualMachine, Vec<Value>) -> bool,
) -> bool {
    if arity > before_vm.stack@.len() {
        args_missing(before_vm, after_vm, arity, r)
    } else {
        exists|mid: VirtualMachine, arguments: Vec<Value>|
            #[trigger] args_popped(before_vm, mid, arity, arguments) && then(mid, arguments)
    }
}

/// The prefix and the spread elements were popped and `then` holds of what
/// follows, or popping them failed.
pub open spec fn with_spread(
    before_vm: VirtualMachine,
    after_vm: VirtualMachine,
    prefix: usize,
    allow_string: bool,
    r: Result<bool, Fault>,
    then: spec_fn(VirtualMachine, Vec<Value>) -> bool,
) -> bool {
    ||| r matches Err(e) && pop_spread_arguments_done(before_vm, after_vm, prefix, allow_string, Err(e))
    ||| exists|mid: VirtualMachine, arguments: Vec<Value>|
        #[trigger] pop_spread_arguments_done(before_vm, mid, prefix, allow_string, Ok(arguments)) && then(mid, arguments)
}

/// A spread call of a variadic function: the callee is checked, the
/// prefix and the spread slice popped, and `then` holds of what follows.
pub open spec fn with_spread_call(
    program: Program,
    before_vm: VirtualMachine,
    after_vm: VirtualMachine,
    callee: usize,
    prefix: usize,
    r: Result<bool, Fault>,
    then: spec_fn(VirtualMachine, Vec<Value>) -> bool,
) -> bool {
    if !(callee < program.functions@.len() && program.functions@[callee as int].variadic_element_type is Some) {
        (r matches Err(Fault::Error(_))) && after_vm == before_vm
    } else {
        ||| r matches Err(e) && pop_spread_call_arguments_done(before_vm, after_vm, prefix, Err(e))
        ||| exists|mid: VirtualMachine, arguments: Vec<Value>|
            #[trigger] pop_spread_call_arguments_done(before_vm, mid, prefix, Ok(arguments)) && then(mid, arguments)
    }
}

/// What a deferred panic records for the popped value: `panic(nil)` for a
/// nil interface, the value otherwise, boxed in `value_type` where it is
/// not an interface.
pub open spec fn panic_payload_spec(value_type: ValueType, value: Value, p: PanicPayload) -> bool {
    &&& (value matches Value::Interface(i) && i.payload() is None ==> p == PanicPayload::NilArgument)
    &&& (value matches Value::Interface(i) && i.payload() is Some ==> p == PanicPayload::Value(value))
    &&& (!(value is Interface) ==> (p matches PanicPayload::Value(Value::Interface(i))
        && i.dynamic_type() == Some(value_type) && i.payload() == Some(value)))
}

/// What an instruction that jumps, calls, defers, panics or returns does in
/// frame `top`, which runs a function with `return_count` results; `Ok`
/// tells whether the program counter still has to move on.
pub open spec fn control_done(
    program: Program,
    before_vm: VirtualMachine,
    after_vm: VirtualMachine,
    instruction: Instruction,
    top: usize,
    return_count: usize,
    r: Result<bool, Fault>,
) -> bool {
    let s = before_vm.stack@;
    match instruction {
        Instruction::Jump(target) => r == Ok::<bool, Fault>(false) && moved_to(before_vm, after_vm, top, target, s),
        Instruction::JumpIfFalse(target) => if s.len() > 0 && s.last() is Boolean {
            if s.last()->Boolean_0 {
                r == Ok::<bool, Fault>(true) && stack_set(before_vm, after_vm, s.drop_last())
            } else {
                r == Ok::<bool, Fault>(false) && moved_to(before_vm, after_vm, top, target, s.drop_last())
            }
        } else {
            r is Err && pop_bool_done(before_vm, after_vm, r)
        },
        Instruction::CallBuiltin(builtin, arity) => with_arguments(
            before_vm,
            after_vm,
            arity,
            r,
            |mid: VirtualMachine, arguments: Vec<Value>|
                if builtin == BuiltinFunction::Recover {
                    recovered(mid, after_vm, r)
                } else {
                    builtin_called(mid, after_vm, builtin, arguments, r)
                },
        ),
        Instruction::CallBuiltinSpread(builtin, prefix) => if builtin != BuiltinFunction::Append {
            (r matches Err(Fault::Error(m)) && m@ == "only builtin `append` accepts a spread argument"@)
                && after_vm == before_vm
        } else {
            with_spread(
                before_vm,
                after_vm,
                prefix,
                true,
                r,
                |mid: VirtualMachine, arguments: Vec<Value>| builtin_called(mid, after_vm, builtin, arguments, r),
            )
        },
        Instruction::Panic(value_type) => if s.len() == 0 {
            r is Err && pop_value_done(before_vm, after_vm, Err(r->Err_0))
        } else {
            (r matches Err(Fault::Panic(p)) && panic_payload_spec(value_type, s.last(), p)) && stack_set(
                before_vm,
                after_vm,
                s.drop_last(),
            )
        },
        Instruction::PanicNil => r == Err::<bool, Fault>(Fault::Panic(PanicPayload::NilArgument)) && after_vm == before_vm,
        Instruction::CallPackage(function, arity) => with_arguments(
            before_vm,
            after_vm,
            arity,
            r,
            |mid: VirtualMachine, arguments: Vec<Value>| package_called(mid, after_vm, function, arguments, r),
        ),
        Instruction::CallPackageSpread(function, prefix) => with_spread(
            before_vm,
            after_vm,
            prefix,
            false,
            r,
            |mid: VirtualMachine, arguments: Vec<Value>| package_called(mid, after_vm, function, arguments, r),
        ),
        Instruction::CallFunction(callee, arity) => with_arguments(
            before_vm,
            after_vm,
            arity,
            r,
            |mid: VirtualMachine, arguments: Vec<Value>|
                user_called(program, mid, after_vm, top, callee, arguments, false, r),
        ),
        Instruction::CallFunctionSpread(callee, prefix) => with_spread_call(
            program,
            before_vm,
            after_vm,
            callee,
            prefix,
            r,
            |mid: VirtualMachine, arguments: Vec<Value>|
                user_called(program, mid, after_vm, top, callee, arguments, true, r),
        ),
        Instruction::DeferBuiltin(builtin, arity) => with_arguments(
            before_vm,
            after_vm,
            arity,
            r,
            |mid: VirtualMachine, arguments: Vec<Value>|
                r == Ok::<bool, Fault>(true) && defer_done(mid, after_vm, DeferredCall::Builtin { builtin, arguments }),
        ),
        Instruction::DeferPanic(value_type) => if s.len() == 0 {
            r is Err && pop_value_done(before_vm, after_vm, Err(r->Err_0))
        } else {
            r == Ok::<bool, Fault>(true) && exists|mid: VirtualMachine, p: PanicPayload|
                #[trigger] stack_set(before_vm, mid, s.drop_last()) && #[trigger] panic_payload_spec(value_type, s.last(), p) && (
                if p is Value {
                    defer_done(mid, after_vm, DeferredCall::PanicValue(p->Value_0))
                } else {
                    defer_done(mid, after_vm, DeferredCall::PanicNil)
                })
        },
        Instruction::DeferPanicNil => r == Ok::<bool, Fault>(true) && defer_done(before_vm, after_vm, DeferredCall::PanicNil),
        Instruction::DeferPackage(function, arity) => with_arguments(
            before_vm,
            after_vm,
            arity,
            r,
            |mid: VirtualMachine, arguments: Vec<Value>|
                r == Ok::<bool, Fault>(true) && defer_done(mid, after_vm, DeferredCall::Package { function, arguments }),
        ),
        Instruction::DeferPackageSpread(function, prefix) => with_spread(
            before_vm,
            after_vm,
            prefix,
            false,
            r,
            |mid: VirtualMachine, arguments: Vec<Value>|
                r == Ok::<bool, Fault>(true) && defer_done(mid, after_vm, DeferredCall::Package { function, arguments }),
        ),
        Instruction::DeferFunction(callee, arity) => with_arguments(
            before_vm,
            after_vm,
            arity,
            r,
            |mid: VirtualMachine, arguments: Vec<Value>|
                r == Ok::<bool, Fault>(true) && defer_done(
                    mid,
                    after_vm,
                    DeferredCall::UserDefined { function_index: callee, arguments, spread: false },
                ),
        ),
        Instruction::DeferFunctionSpread(callee, prefix) => with_spread_call(
            program,
            before_vm,
            after_vm,
            callee,
            prefix,
            r,
            |mid: VirtualMachine, arguments: Vec<Value>|
                r == Ok::<bool, Fault>(true) && defer_done(
                    mid,
                    after_vm,
                    DeferredCall::UserDefined { function_index: callee, arguments, spread: true },
                ),
        ),
        Instruction::Return => with_arguments(
            before_vm,
            after_vm,
            return_count,
            r,
            |mid: VirtualMachine, values: Vec<Value>|
                r == Ok::<bool, Fault>(false) && after_vm.stack@ == mid.stack@ && only_frames_changed(mid, after_vm)
                && after_vm.frames@ == mid.frames@.update(
                    top as int,
                    CallFrame { pending_return_values: Some(values), returning: true, ..mid.frames@[top as int] },
                ),
        ),
        _ => (r matches Err(Fault::Error(m)) && m@ == "instruction does not change control flow"@) && after_vm == before_vm,
    }
}

/// Nothing changes but the call frames.
pub open spec fn only_frames_changed(before_vm: VirtualMachine, after_vm: VirtualMachine) -> bool {
    &&& after_vm.output@ == before_vm.output@
    &&& after_vm.heap == before_vm.heap
    &&& after_vm.pending_panic == before_vm.pending_panic
    &&& after_vm.panic_depth == before_vm.panic_depth
}

/// What executing the instruction at the program counter of the innermost
/// frame does: a runtime error for a frame whose function or program
/// counter is out of range; otherwise the instruction runs as
/// [`control_done`] or [`operation_done`] states, and the counter moves on
/// past it unless it jumped, called or returned.
pub open spec fn instruction_done(program: Program, before_vm: VirtualMachine, after_vm: VirtualMachine, r: Result<(), Fault>) -> bool {
    let top = (before_vm.frames@.len() - 1) as usize;
    let frame = before_vm.frames@[top as int];
    let index = frame.function_index;
    let pc = frame.pc;
    if index >= program.functions@.len() {
        (r matches Err(Fault::Error(m)) && m@ == "invalid function index "@ + nat_text((index as u64) as nat))
            && after_vm == before_vm
    } else if pc >= program.functions@[index as int].instructions@.len() {
        (r matches Err(Fault::Error(m)) && m@ == "instruction pointer "@ + nat_text((pc as u64) as nat)
            + " is out of bounds in function `"@ + program.functions@[index as int].name@ + "`"@) && after_vm == before_vm
    } else {
        let function = program.functions@[index as int];
        let instruction = function.instructions@[pc as int];
        if is_control(instruction) {
            exists|mid: VirtualMachine, outcome: Result<bool, Fault>|
                #[trigger] control_done(program, before_vm, mid, instruction, top, function.return_types@.len() as usize, outcome)
                && match outcome {
                    Ok(true) => r is Ok && moved_to(mid, after_vm, top, (pc + 1) as usize, mid.stack@),
                    Ok(false) => r is Ok && after_vm == mid,
                    Err(e) => r == Err::<(), Fault>(e) && after_vm == mid,
                }
        } else {
            exists|mid: VirtualMachine, outcome: Result<(), Fault>|
                #[trigger] operation_done(before_vm, mid, instruction, top, outcome) && match outcome {
                    Ok(()) => r is Ok && moved_to(mid, after_vm, top, (pc + 1) as usize, mid.stack@),
                    Err(e) => r == Err::<(), Fault>(e) && after_vm == mid,
                }
        }
    }
}

impl VirtualMachine {
    /// Executes an instruction that works on the stack, the heap or a
    /// local of frame `top`, and neither jumps, calls nor returns.
    #[verifier::spinoff_prover]
    fn execute_operation(&mut self, instruction: &Instruction, top: usize) -> (r: Result<(), Fault>)
        requires
            old(self).heap.wf(),
            top < old(self).frames@.len(),
        ensures
            final(self).heap.wf(),
            final(self).frames@.len() == old(self).frames@.len(),
            forall|i: int| 0 <= i < old(self).frames@.len() ==> (#[trigger] final(self).frames@[i]).pc == old(self).frames@[i].pc,
            operation_done(*old(self), *final(self), *instruction, top, r),
    {
        match instruction {
            Instruction::PushInt(value) => {
                self.stack.push(Value::Integer(*value));
                Ok(())
            },
            Instruction::PushByte(value) => {
                self.stack.push(Value::Byte(*value));
                Ok(())
            },
            Instruction::PushBool(value) => {
                self.stack.push(Value::Boolean(*value));
                Ok(())
            },
            Instruction::PushString(value) => {
                self.stack.push(Value::String(StringValue::from(value.as_str())));
                assert(self.stack@.drop_last() =~= old(self).stack@);
                Ok(())
            },
            Instruction::PushNilInterface => {
                self.stack.push(Value::nil_any());
                assert(self.stack@.drop_last() =~= old(self).stack@);
                Ok(())
            },
            Instruction::PushNilSlice => {
                self.stack.push(Value::Slice(SliceValue::nil()));
                Ok(())
            },
            Instruction::PushNilChan => {
                self.stack.push(Value::Chan(ChannelValue::nil()));
                Ok(())
            },
            Instruction::PushNilMap => {
                self.stack.push(Value::Mapping(MapValue::nil()));
                Ok(())
            },
            Instruction::BuildSlice(count) => self.build_slice(*count),
            Instruction::BuildMap { map_type, entry_count } => self.build_map(map_type, *entry_count),
            Instruction::MakeSlice { element_type, has_capacity } => self.make_slice(element_type, *has_capacity),
            Instruction::MakeChan { has_buffer, .. } => self.make_chan(*has_buffer),
            Instruction::MakeMap { map_type, has_hint } => self.make_map(map_type, *has_hint),
            Instruction::Convert(conversion) => self.convert_value(*conversion),
            Instruction::BoxAny(value_type) => self.box_any(value_type),
            Instruction::TypeAssert(value_type) => self.type_assert(value_type, false),
            Instruction::TypeAssertOk(value_type) => self.type_assert(value_type, true),
            Instruction::LoadLocal(index) => self.load_local(top, *index),
            Instruction::StoreLocal(index) => self.store_local(top, *index),
            Instruction::Add => self.binary_numeric_op(ArithmeticOp::Add),
            Instruction::Subtract => self.binary_numeric_op(ArithmeticOp::Subtract),
            Instruction::Multiply => self.binary_numeric_op(ArithmeticOp::Multiply),
            Instruction::Divide => self.binary_numeric_op(ArithmeticOp::Divide),
            Instruction::Concat => self.concat_strings(),
            Instruction::Equal => self.binary_compare(false),
            Instruction::NotEqual => self.binary_compare(true),
            Instruction::Less => self.binary_integer_compare(OrderingOp::Less),
            Instruction::LessEqual => self.binary_integer_compare(OrderingOp::LessEqual),
            Instruction::Greater => self.binary_integer_compare(OrderingOp::Greater),
            Instruction::GreaterEqual => self.binary_integer_compare(OrderingOp::GreaterEqual),
            Instruction::Index(kind) => self.index_value(*kind),
            Instruction::Slice { target_kind, has_low, has_high } => self.slice_value(*target_kind, *has_low, *has_high),
            Instruction::Receive(element_type) => self.receive(element_type),
            Instruction::IndexMap(map_type) => {
                let ghost start = *self;
                match self.read_map(map_type) {
                    Ok((value, present)) => {
                        let ghost mid = *self;
                        self.stack.push(value);
                        assert(read_map_done(start, mid, *map_type, Ok((value, present))));
                        Ok(())
                    },
                    Err(e) => Err(e),
                }
            },
            Instruction::LookupMap(map_type) => {
                let ghost start = *self;
                match self.read_map(map_type) {
                    Ok((value, present)) => {
                        let ghost mid = *self;
                        self.stack.push(value);
                        self.stack.push(Value::Boolean(present));
                        assert(read_map_done(start, mid, *map_type, Ok((value, present))));
                        Ok(())
                    },
                    Err(e) => Err(e),
                }
            },
            Instruction::MapKeys(key_type) => self.map_keys(key_type),
            Instruction::SetIndex => self.set_slice_index(),
            Instruction::SetMapIndex => self.set_map_index(),
            Instruction::Send => self.send(),
            Instruction::Pop => match self.pop_value() {
                Ok(_) => Ok(()),
                Err(e) => Err(e),
            },
            _ => Err(error_message("instruction changes control flow")),
        }
    }

    /// Executes an instruction that may jump, call, defer, panic or return,
    /// in frame `top` running function `function_index`. Returns whether
    /// the program counter still has to move on.
    #[verifier::spinoff_prover]
    #[verifier::rlimit(100)]
    fn execute_control(&mut self, program: &Program, instruction: &Instruction, top: usize, return_count: usize) -> (r: Result<bool, Fault>)
        requires
            old(self).heap.wf(),
            top == old(self).frames@.len() - 1,
            old(self).frames@.len() > 0,
            old(self).frames@[top as int].pc < usize::MAX,
        ensures
            final(self).heap.wf(),
            final(self).frames@.len() >= old(self).frames@.len(),
            r matches Ok(true) ==> final(self).frames@.len() == old(self).frames@.len()
                && final(self).frames@[top as int].pc == old(self).frames@[top as int].pc,
            control_done(*program, *old(self), *final(self), *instruction, top, return_count, r),
    {
        let ghost start = *self;
        match instruction {
            Instruction::Jump(target) => {
                self.frames[top].pc = *target;
                assert(self.frames@ =~= start.frames@.update(top as int, with_pc(start.frames@[top as int], *target)));
                Ok(false)
            },
            Instruction::JumpIfFalse(target) => {
                let condition = match self.pop_bool() {
                    Ok(b) => b,
                    Err(e) => {
                        return Err(e);
                    },
                };
                if !condition {
                    self.frames[top].pc = *target;
                    assert(self.frames@ =~= start.frames@.update(top as int, with_pc(start.frames@[top as int], *target)));
                    Ok(false)
                } else {
                    Ok(true)
                }
            },
            Instruction::CallBuiltin(builtin, arity) => {
                let arguments = match self.pop_arguments(*arity) {
                    Ok(a) => a,
                    Err(e) => {
                        return Err(e);
                    },
                };
                let ghost mid = *self;
                let ghost args = arguments;
                assert(args_popped(start, mid, *arity, args));
                if *builtin == BuiltinFunction::Recover {
                    match self.recover() {
                        Ok(value) => {
                            let ghost after_recover = *self;
                            self.stack.push(value);
                            assert(recover_done(mid, after_recover, Ok(value)) && pushed(after_recover, *self, value));
                            Ok(true)
                        },
                        Err(e) => Err(e),
                    }
                } else {
                    match self.execute_builtin_call(*builtin, arguments) {
                        Ok(results) => {
                            let ghost after_call = *self;
                            let ghost res = results;
                            self.push_results(results);
                            assert(execute_builtin_call_done(mid, after_call, *builtin, args, Ok(res)) && appended(
                                after_call,
                                *self,
                                res@,
                            ));
                            Ok(true)
                        },
                        Err(e) => Err(e),
                    }
                }
            },
            Instruction::CallBuiltinSpread(builtin, prefix) => {
                if *builtin != BuiltinFunction::Append {
                    return Err(error_message("only builtin `append` accepts a spread argument"));
                }
                let arguments = match self.pop_spread_arguments(*prefix, true) {
                    Ok(a) => a,
                    Err(e) => {
                        return Err(e);
                    },
                };
                let ghost mid = *self;
                let ghost args = arguments;
                assert(pop_spread_arguments_done(start, mid, *prefix, true, Ok(args)));
                match self.execute_builtin_call(*builtin, arguments) {
                    Ok(results) => {
                        let ghost after_call = *self;
                        let ghost res = results;
                        self.push_results(results);
                        assert(execute_builtin_call_done(mid, after_call, *builtin, args, Ok(res)) && appended(
                            after_call,
                            *self,
                            res@,
                        ));
                        Ok(true)
                    },
                    Err(e) => Err(e),
                }
            },
            Instruction::Panic(value_type) => {
                let value = match self.pop_value() {
                    Ok(v) => v,
                    Err(e) => {
                        return Err(e);
                    },
                };
                Err(Fault::Panic(panic_payload_for(value_type, value)))
            },
            Instruction::PanicNil => Err(Fault::Panic(PanicPayload::NilArgument)),
            Instruction::CallPackage(package_function, arity) => {
                let arguments = match self.pop_arguments(*arity) {
                    Ok(a) => a,
                    Err(e) => {
                        return Err(e);
                    },
                };
                let ghost mid = *self;
                let ghost args = arguments;
                assert(args_popped(start, mid, *arity, args));
                match self.execute_package_function(*package_function, arguments) {
                    Ok(results) => {
                        let ghost after_call = *self;
                        let ghost res = results;
                        self.push_results(results);
                        assert(execute_package_function_done(mid, after_call, *package_function, args, Ok(res))
                            && appended(after_call, *self, res@));
                        Ok(true)
                    },
                    Err(e) => Err(e),
                }
            },
            Instruction::CallPackageSpread(package_function, prefix) => {
                let arguments = match self.pop_spread_arguments(*prefix, false) {
                    Ok(a) => a,
                    Err(e) => {
                        return Err(e);
                    },
                };
                let ghost mid = *self;
                let ghost args = arguments;
                assert(pop_spread_arguments_done(start, mid, *prefix, false, Ok(args)));
                match self.execute_package_function(*package_function, arguments) {
                    Ok(results) => {
                        let ghost after_call = *self;
                        let ghost res = results;
                        self.push_results(results);
                        assert(execute_package_function_done(mid, after_call, *package_function, args, Ok(res))
                            && appended(after_call, *self, res@));
                        Ok(true)
                    },
                    Err(e) => Err(e),
                }
            },
            Instruction::CallFunction(callee, arity) => {
                let arguments = match self.pop_arguments(*arity) {
                    Ok(a) => a,
                    Err(e) => {
                        return Err(e);
                    },
                };
                let ghost mid = *self;
                let ghost args = arguments;
                assert(args_popped(start, mid, *arity, args));
                match self.call_user_function(program, top, *callee, arguments, false, ReturnMode::Normal, true, None) {
                    Ok(()) => Ok(false),
                    Err(e) => Err(e),
                }
            },
            Instruction::CallFunctionSpread(callee, prefix) => {
                match self.check_variadic(program, *callee) {
                    Ok(()) => {},
                    Err(e) => {
                        return Err(e);
                    },
                }
                let arguments = match self.pop_spread_call_arguments(*prefix) {
                    Ok(a) => a,
                    Err(e) => {
                        return Err(e);
                    },
                };
                let ghost mid = *self;
                let ghost args = arguments;
                assert(pop_spread_call_arguments_done(start, mid, *prefix, Ok(args)));
                match self.call_user_function(program, top, *callee, arguments, true, ReturnMode::Normal, true, None) {
                    Ok(()) => Ok(false),
                    Err(e) => Err(e),
                }
            },
            Instruction::DeferBuiltin(builtin, arity) => {
                let arguments = match self.pop_arguments(*arity) {
                    Ok(a) => a,
                    Err(e) => {
                        return Err(e);
                    },
                };
                let ghost mid = *self;
                let ghost args = arguments;
                assert(args_popped(start, mid, *arity, args));
                self.defer(DeferredCall::Builtin { builtin: *builtin, arguments });
                Ok(true)
            },
            Instruction::DeferPanic(value_type) => {
                let value = match self.pop_value() {
                    Ok(v) => v,
                    Err(e) => {
                        return Err(e);
                    },
                };
                let ghost mid = *self;
                let payload = panic_payload_for(value_type, value);
                let ghost p = payload;
                match payload {
                    PanicPayload::Value(v) => self.defer(DeferredCall::PanicValue(v)),
                    _ => self.defer(DeferredCall::PanicNil),
                }
                assert(stack_set(start, mid, start.stack@.drop_last()) && panic_payload_spec(*value_type, start.stack@.last(), p));
                Ok(true)
            },
            Instruction::DeferPanicNil => {
                self.defer(DeferredCall::PanicNil);
                Ok(true)
            },
            Instruction::DeferPackage(package_function, arity) => {
                let arguments = match self.pop_arguments(*arity) {
                    Ok(a) => a,
                    Err(e) => {
                        return Err(e);
                    },
                };
                let ghost mid = *self;
                let ghost args = arguments;
                assert(args_popped(start, mid, *arity, args));
                self.defer(DeferredCall::Package { function: *package_function, arguments });
                Ok(true)
            },
            Instruction::DeferPackageSpread(package_function, prefix) => {
                let arguments = match self.pop_spread_arguments(*prefix, false) {
                    Ok(a) => a,
                    Err(e) => {
                        return Err(e);
                    },
                };
                let ghost mid = *self;
                let ghost args = arguments;
                assert(pop_spread_arguments_done(start, mid, *prefix, false, Ok(args)));
                self.defer(DeferredCall::Package { function: *package_function, arguments });
                Ok(true)
            },
            Instruction::DeferFunction(callee, arity) => {
                let arguments = match self.pop_arguments(*arity) {
                    Ok(a) => a,
                    Err(e) => {
                        return Err(e);
                    },
                };
                let ghost mid = *self;
                let ghost args = arguments;
                assert(args_popped(start, mid, *arity, args));
                self.defer(DeferredCall::UserDefined { function_index: *callee, arguments, spread: false });
                Ok(true)
            },
            Instruction::DeferFunctionSpread(callee, prefix) => {
                match self.check_variadic(program, *callee) {
                    Ok(()) => {},
                    Err(e) => {
                        return Err(e);
                    },
                }
                let arguments = match self.pop_spread_call_arguments(*prefix) {
                    Ok(a) => a,
                    Err(e) => {
                        return Err(e);
                    },
                };
                let ghost mid = *self;
                let ghost args = arguments;
                assert(pop_spread_call_arguments_done(start, mid, *prefix, Ok(args)));
                self.defer(DeferredCall::UserDefined { function_index: *callee, arguments, spread: true });
                Ok(true)
            },
            Instruction::Return => {
                let values = match self.pop_arguments(return_count) {
                    Ok(a) => a,
                    Err(e) => {
                        return Err(e);
                    },
                };
                let ghost mid = *self;
                let ghost vals = values;
                assert(args_popped(start, mid, return_count, vals));
                self.frames[top].pending_return_values = Some(values);
                self.frames[top].returning = true;
                assert(self.frames@ =~= mid.frames@.update(
                    top as int,
                    CallFrame { pending_return_values: Some(vals), returning: true, ..mid.frames@[top as int] },
                ));
                Ok(false)
            },
            _ => Err(error_message("instruction does not change control flow")),
        }
    }

    /// Whether an instruction may jump, call, defer, panic or return.
    fn changes_control(instruction: &Instruction) -> (r: bool)
        ensures
            r == is_control(*instruction),
    {
        match instruction {
            Instruction::Jump(_) | Instruction::JumpIfFalse(_) | Instruction::CallBuiltin(..)
            | Instruction::CallBuiltinSpread(..) | Instruction::Panic(_) | Instruction::PanicNil
            | Instruction::CallPackage(..) | Instruction::CallPackageSpread(..)
            | Instruction::CallFunction(..) | Instruction::CallFunctionSpread(..)
            | Instruction::DeferBuiltin(..) | Instruction::DeferPanic(_) | Instruction::DeferPanicNil
            | Instruction::DeferPackage(..) | Instruction::DeferPackageSpread(..)
            | Instruction::DeferFunction(..) | Instruction::DeferFunctionSpread(..)
            | Instruction::Return => true,
            _ => false,
        }
    }

    /// Executes the instruction at the program counter of the innermost
    /// frame and moves the counter on, unless the instruction jumped,
    /// called, or returned. A `Fault::Panic` starts a panic; a
    /// `Fault::Error` ends the run.
    pub(super) fn execute_instruction(&mut self, program: &Program) -> (r: Result<(), Fault>)
        requires
            old(self).heap.wf(),
            old(self).frames@.len() > 0,
        ensures
            final(self).heap.wf(),
            final(self).frames@.len() >= old(self).frames@.len(),
            instruction_done(*program, *old(self), *final(self), r),
    {
        let top = self.frames.len() - 1;
        let function_index = self.frames[top].function_index;
        if function_index >= program.functions.len() {
            let mut message = String::new();
            push_str(&mut message, "invalid function index ");
            push_nat(&mut message, function_index as u64);
            return Err(Fault::Error(message));
        }
        let function = &program.functions[function_index];
        let pc = self.frames[top].pc;
        if pc >= function.instructions.len() {
            let mut message = String::new();
            push_str(&mut message, "instruction pointer ");
            push_nat(&mut message, pc as u64);
            push_str(&mut message, " is out of bounds in function `");
            push_str(&mut message, function.name.as_str());
            push_str(&mut message, "`");
            return Err(Fault::Error(message));
        }
        let instruction = &function.instructions[pc];
        let ghost start = *self;
        if Self::changes_control(instruction) {
            let outcome = self.execute_control(program, instruction, top, function.return_types.len());
            let ghost mid = *self;
            assert(control_done(*program, start, mid, *instruction, top, function.return_types@.len() as usize, outcome));
            match outcome {
                Ok(advance) => {
                    if advance {
                        self.frames[top].pc = pc + 1;
                        assert(self.frames@ =~= mid.frames@.update(top as int, with_pc(mid.frames@[top as int], (pc + 1) as usize)));
                    }
                    Ok(())
                },
                Err(e) => Err(e),
            }
        } else {
            let outcome = self.execute_operation(instruction, top);
            let ghost mid = *self;
            assert(operation_done(start, mid, *instruction, top, outcome));
            match outcome {
                Ok(()) => {
                    self.frames[top].pc = pc + 1;
                    assert(self.frames@ =~= mid.frames@.update(top as int, with_pc(mid.frames@[top as int], (pc + 1) as usize)));
                    Ok(())
                },
                Err(e) => Err(e),
            }
        }
    }
}

} // verus!
