//! Values of the empty interface: boxing, equality across interface and
//! concrete values, and type assertions.

use vstd::prelude::*;

use crate::bytecode::instruction::{value_type_text, ValueType};
use crate::runtime::value::{Heap, InterfaceValue, Value};
use crate::runtime::vm::support::{is_zero_value, zero_value_for_type};
use crate::runtime::vm::{error_message, Fault, PanicPayload, VirtualMachine};
use crate::text::push_str;

verus! {

/// The dynamic type of a scalar or string value; `None` for interfaces,
/// slices, channels and maps.
pub open spec fn scalar_type_of(v: Value) -> Option<ValueType> {
    match v {
        Value::Integer(_) => Some(ValueType::Int),
        Value::Byte(_) => Some(ValueType::Byte),
        Value::Boolean(_) => Some(ValueType::Bool),
        Value::String(_) => Some(ValueType::String),
        _ => None,
    }
}

/// The dynamic type of a scalar or string value.
pub fn runtime_value_type(value: &Value) -> (r: Option<ValueType>)
    ensures
        r == scalar_type_of(*value),
{
    match value {
        Value::Integer(_) => Some(ValueType::Int),
        Value::Byte(_) => Some(ValueType::Byte),
        Value::Boolean(_) => Some(ValueType::Bool),
        Value::String(_) => Some(ValueType::String),
        _ => None,
    }
}

/// What `==` gives: `Some(b)` for a result, `None` when comparing two
/// interfaces of one dynamic type whose payload is not comparable, which
/// panics. Two interfaces are equal when both are nil, or when their dynamic
/// types and payloads are equal; an interface equals a concrete value when
/// its dynamic type is the value's type and its payload equals the value.
pub open spec fn equality_outcome(heap: Heap, left: Value, right: Value) -> Option<bool> {
    let fuel = heap.render_fuel();
    match (left, right) {
        (Value::Interface(l), Value::Interface(r)) => match (l.dynamic_type(), r.dynamic_type()) {
            (None, None) => Some(true),
            (Some(a), Some(b)) => if a != b {
                Some(false)
            } else if !l.payload()->0.comparable() {
                None
            } else {
                Some(heap.values_eq(l.payload()->0, r.payload()->0, fuel))
            },
            _ => Some(false),
        },
        (Value::Interface(i), other) => interface_to_value(heap, i, other),
        (other, Value::Interface(i)) => interface_to_value(heap, i, other),
        _ => Some(heap.values_eq(left, right, fuel)),
    }
}

/// Comparing an interface with a concrete value.
pub open spec fn interface_to_value(heap: Heap, i: InterfaceValue, other: Value) -> Option<bool> {
    match (i.dynamic_type(), scalar_type_of(other)) {
        (Some(t), Some(u)) => Some(t == u && heap.values_eq(i.payload()->0, other, heap.render_fuel())),
        _ => Some(false),
    }
}

/// Every interface with a dynamic type holds a payload.
pub open spec fn interface_has_payload(v: Value) -> bool {
    v matches Value::Interface(i) ==> (i.dynamic_type() is Some <==> i.payload() is Some)
}

/// The panic message of a failed type assertion.
pub open spec fn conversion_text(found: Option<ValueType>, target: ValueType) -> Seq<char> {
    "interface conversion: interface {} is "@ + match found {
        Some(t) => value_type_text(t),
        None => "nil"@,
    } + ", not "@ + value_type_text(target)
}

/// Builds the panic of a failed type assertion.
pub fn conversion_panic(found: Option<&ValueType>, target: &ValueType) -> (f: Fault)
    ensures
        f matches Fault::Panic(PanicPayload::Message(m)) && m@ == conversion_text(
            match found {
                Some(t) => Some(*t),
                None => None,
            },
            *target,
        ),
{
    let mut message = String::new();
    push_str(&mut message, "interface conversion: interface {} is ");
    match found {
        Some(t) => {
            let text = t.render();
            push_str(&mut message, text.as_str());
        },
        None => push_str(&mut message, "nil"),
    }
    push_str(&mut message, ", not ");
    let text = target.render();
    push_str(&mut message, text.as_str());
    Fault::Panic(PanicPayload::Message(message))
}

/// What `box_any` does, as its contract states.
pub open spec fn box_any_done(before_vm: VirtualMachine, after_vm: VirtualMachine, value_type: ValueType, r: Result<(), Fault>) -> bool {
    &&& (after_vm.frames@ == before_vm.frames@)
    &&& (after_vm.output@ == before_vm.output@)
    &&& (after_vm.heap == before_vm.heap)
    &&& (after_vm.pending_panic == before_vm.pending_panic)
    &&& (after_vm.panic_depth == before_vm.panic_depth)
    &&& (before_vm.stack@.len() == 0 <==> r is Err)
    &&& (r is Ok ==> after_vm.stack@.drop_last() == before_vm.stack@.drop_last())
    &&& (r is Ok ==> (before_vm.stack@.last() is Interface ==> after_vm.stack@.last() == before_vm.stack@.last()))
    &&& (r is Ok ==> (!(before_vm.stack@.last() is Interface) ==> (after_vm.stack@.last() matches Value::Interface(i)
        && i.dynamic_type() == Some(value_type) && i.payload() == Some(before_vm.stack@.last()))))
    &&& (r is Err ==> r matches Err(Fault::Error(_)))
}

/// What `type_assert` does, as its contract states.
pub open spec fn type_assert_done(before_vm: VirtualMachine, after_vm: VirtualMachine, target: ValueType, comma_ok: bool, r: Result<(), Fault>) -> bool {
    &&& (after_vm.frames@ == before_vm.frames@)
    &&& (after_vm.output@ == before_vm.output@)
    &&& (after_vm.heap == before_vm.heap)
    &&& (after_vm.pending_panic == before_vm.pending_panic)
    &&& (after_vm.panic_depth == before_vm.panic_depth)
    &&& (!(before_vm.stack@.len() > 0 && before_vm.stack@.last() is Interface) ==> r matches Err(Fault::Error(_)))
    &&& (before_vm.stack@.len() > 0 && before_vm.stack@.last() is Interface ==> ({
        let i = before_vm.stack@.last()->Interface_0;
        let rest = before_vm.stack@.drop_last();
        let matched = if target == ValueType::Any {
            i.dynamic_type() is Some
        } else {
            i.dynamic_type() == Some(target) && i.payload() is Some
        };
        let result = if target == ValueType::Any { before_vm.stack@.last() } else { i.payload()->0 };
        if matched {
            &&& r is Ok
            &&& comma_ok ==> after_vm.stack@ == rest.push(result).push(Value::Boolean(true))
            &&& !comma_ok ==> after_vm.stack@ == rest.push(result)
        } else if comma_ok {
            &&& r is Ok
            &&& after_vm.stack@.len() == rest.len() + 2
            &&& after_vm.stack@.take(rest.len() as int) == rest
            &&& is_zero_value(target, after_vm.stack@[rest.len() as int])
            &&& after_vm.stack@.last() == Value::Boolean(false)
        } else {
            r matches Err(Fault::Panic(PanicPayload::Message(m))) && m@ == conversion_text(i.dynamic_type(), target)
        }
    }))
}

impl VirtualMachine {
    /// `==` on two values, as [`equality_outcome`] states it.
    pub(super) fn compare_values_for_equality(&self, left: &Value, right: &Value) -> (r: Result<bool, Fault>)
        requires
            interface_has_payload(*left),
            interface_has_payload(*right),
        ensures
            equality_outcome(self.heap, *left, *right) matches Some(b) ==> r == Ok::<bool, Fault>(b),
            equality_outcome(self.heap, *left, *right) is None ==> (r matches Err(Fault::Panic(PanicPayload::Message(m)))
                && m@ == "runtime error: comparing uncomparable interface value"@),
    {
        let fuel = self.heap.render_budget();
        match (left, right) {
            (Value::Interface(l), Value::Interface(r)) => {
                match (l.value_type(), r.value_type()) {
                    (None, None) => Ok(true),
                    (Some(a), Some(b)) => {
                        if !a.same_as(b) {
                            return Ok(false);
                        }
                        match (l.value(), r.value()) {
                            (Some(p), Some(q)) => {
                                if !p.is_runtime_comparable() {
                                    let mut message = String::new();
                                    push_str(&mut message, "runtime error: comparing uncomparable interface value");
                                    return Err(Fault::Panic(PanicPayload::Message(message)));
                                }
                                Ok(self.heap.equal_values(p, q, fuel))
                            },
                            _ => Ok(false),
                        }
                    },
                    _ => Ok(false),
                }
            },
            (Value::Interface(i), other) => Ok(self.compare_interface_to_value(i, other, fuel)),
            (other, Value::Interface(i)) => Ok(self.compare_interface_to_value(i, other, fuel)),
            _ => Ok(self.heap.equal_values(left, right, fuel)),
        }
    }

    /// Compares an interface with a concrete value.
    fn compare_interface_to_value(&self, interface: &InterfaceValue, other: &Value, fuel: usize) -> (r: bool)
        requires
            fuel == self.heap.render_fuel(),
            interface.dynamic_type() is Some <==> interface.payload() is Some,
        ensures
            interface_to_value(self.heap, *interface, *other) == Some(r),
    {
        let interface_type = match interface.value_type() {
            Some(t) => t,
            None => {
                return false;
            },
        };
        let other_type = match runtime_value_type(other) {
            Some(t) => t,
            None => {
                return false;
            },
        };
        if !interface_type.same_as(&other_type) {
            return false;
        }
        match interface.value() {
            Some(payload) => self.heap.equal_values(payload, other, fuel),
            None => false,
        }
    }

    /// `box-any`: wraps the top of the stack in an interface of the given
    /// dynamic type; a value that already is an interface stays as it is.
    pub(super) fn box_any(&mut self, value_type: &ValueType) -> (r: Result<(), Fault>)
        ensures
            box_any_done(*old(self), *final(self), *value_type, r),
    {
        let value = self.pop_value()?;
        match value {
            Value::Interface(i) => {
                self.stack.push(Value::Interface(i));
            },
            other => {
                self.stack.push(Value::boxed_any(value_type.duplicate(), other));
            },
        }
        assert(self.stack@.drop_last() =~= old(self).stack@.drop_last());
        Ok(())
    }

    /// `type-assert`: the payload of the interface on top of the stack, if
    /// its dynamic type is `target`; the interface itself, if not nil, for
    /// the target `any`. Otherwise it panics, or, with `comma_ok`, pushes the
    /// target's zero value and `false`. With `comma_ok`, success also pushes
    /// `true`.
    pub(super) fn type_assert(&mut self, target: &ValueType, comma_ok: bool) -> (r: Result<(), Fault>)
        ensures
            type_assert_done(*old(self), *final(self), *target, comma_ok, r),
    {
        let value = self.pop_value()?;
        let interface = match value {
            Value::Interface(i) => i,
            _ => {
                return Err(error_message("type assertion operand is not an interface value"));
            },
        };
        let ghost before = self.stack@;
        let is_any = match target {
            ValueType::Any => true,
            _ => false,
        };
        let matched = match interface.value_type() {
            Some(t) => is_any || (t.same_as(target) && !interface.is_nil()),
            None => false,
        };
        if matched {
            if is_any {
                self.stack.push(Value::Interface(interface));
            } else {
                match interface.into_inner() {
                    Some(payload) => self.stack.push(payload),
                    None => self.stack.push(zero_value_for_type(target)),
                }
            }
            if comma_ok {
                self.stack.push(Value::Boolean(true));
            }
            return Ok(());
        }
        if comma_ok {
            self.stack.push(zero_value_for_type(target));
            self.stack.push(Value::Boolean(false));
            assert(self.stack@.take(before.len() as int) =~= before);
            return Ok(());
        }
        Err(conversion_panic(interface.value_type(), target))
    }
}

} // verus!

verus! {

/// Whether an interface value's dynamic type and payload are both present
/// or both absent; true for every other value.
pub fn has_consistent_payload(v: &Value) -> (r: bool)
    ensures
        r == interface_has_payload(*v),
{
    match v {
        Value::Interface(i) => {
            let typed = match i.value_type() {
                Some(_) => true,
                None => false,
            };
            typed == !i.is_nil()
        },
        _ => true,
    }
}

/// A panic's payload for the argument of `panic`: the value boxed with its
/// static type, an interface value as it is, and the nil interface as
/// `panic(nil)`.
pub fn panic_payload_for(value_type: &ValueType, value: Value) -> (p: PanicPayload)
    ensures
        value matches Value::Interface(i) && i.payload() is None ==> p == PanicPayload::NilArgument,
        value matches Value::Interface(i) && i.payload() is Some ==> p == PanicPayload::Value(value),
        !(value is Interface) ==> (p matches PanicPayload::Value(Value::Interface(i))
            && i.dynamic_type() == Some(*value_type) && i.payload() == Some(value)),
{
    match value {
        Value::Interface(i) => {
            if i.is_nil() {
                PanicPayload::NilArgument
            } else {
                PanicPayload::Value(Value::Interface(i))
            }
        },
        other => PanicPayload::Value(Value::boxed_any(value_type.duplicate(), other)),
    }
}

} // verus!
