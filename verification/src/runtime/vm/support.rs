//! Helpers of the machine: type names and zero values, argument checks for
//! builtins and package functions, and the text that `print` writes.

use vstd::prelude::*;

use crate::bytecode::instruction::ValueType;
use crate::package::{package_function_name, PackageFunction};
use crate::runtime::byteseq::{last_search, matches_at};
use crate::runtime::value::{
    all_bytes, all_strings, byte_payloads, ChannelValue, Heap, InterfaceValue, MapValue, SliceValue,
    StringValue, Value,
};
use crate::runtime::vm::{error_message, Fault};
use crate::text::{int_text, nat_text, push_int, push_nat, push_str};

verus! {

/// The name of a value's runtime kind, as error messages show it.
pub open spec fn type_name_of(v: Value) -> &'static str {
    match v {
        Value::Integer(_) => "int",
        Value::Byte(_) => "byte",
        Value::Boolean(_) => "bool",
        Value::String(_) => "string",
        Value::Interface(_) => "any",
        Value::Slice(_) => "slice",
        Value::Chan(_) => "chan",
        Value::Mapping(_) => "map",
    }
}

/// The name of a value's runtime kind.
pub fn runtime_type_name(value: &Value) -> (name: &'static str)
    ensures
        name == type_name_of(*value),
{
    match value {
        Value::Integer(_) => "int",
        Value::Byte(_) => "byte",
        Value::Boolean(_) => "bool",
        Value::String(_) => "string",
        Value::Interface(_) => "any",
        Value::Slice(_) => "slice",
        Value::Chan(_) => "chan",
        Value::Mapping(_) => "map",
    }
}

/// `v` is the zero value of type `t`: zero, false, the empty string, or the
/// nil interface, slice, channel or map.
pub open spec fn is_zero_value(t: ValueType, v: Value) -> bool {
    match t {
        ValueType::Int => v == Value::Integer(0),
        ValueType::Byte => v == Value::Byte(0),
        ValueType::Bool => v == Value::Boolean(false),
        ValueType::String => v matches Value::String(s) && s@.len() == 0,
        ValueType::Any => v matches Value::Interface(i) && i.dynamic_type() is None
            && i.payload() is None,
        ValueType::Slice(_) => v == Value::Slice(SliceValue::spec_nil()),
        ValueType::Chan(_) => v == Value::Chan(ChannelValue::spec_nil()),
        ValueType::Mapping { .. } => v == Value::Mapping(MapValue::spec_nil()),
    }
}

/// A value interchangeable with a zero value is a zero value of the same
/// type.
pub proof fn lemma_equiv_zero(t: ValueType, v: Value, z: Value)
    requires
        is_zero_value(t, z),
        v.equiv(z),
    ensures
        is_zero_value(t, v),
{
    v.lemma_equiv_kind(z);
    match t {
        ValueType::String => {
            if let Value::String(s) = z {
                v.lemma_equiv_string(s);
            }
        },
        ValueType::Any => {
            v.lemma_equiv_nil_interface(z);
        },
        _ => {},
    }
}

/// The zero value of a type.
pub fn zero_value_for_type(value_type: &ValueType) -> (v: Value)
    ensures
        is_zero_value(*value_type, v),
{
    match value_type {
        ValueType::Int => Value::Integer(0),
        ValueType::Byte => Value::Byte(0),
        ValueType::Bool => Value::Boolean(false),
        ValueType::String => Value::String(StringValue::empty()),
        ValueType::Any => Value::Interface(InterfaceValue::nil()),
        ValueType::Slice(_) => Value::Slice(SliceValue::nil()),
        ValueType::Chan(_) => Value::Chan(ChannelValue::nil()),
        ValueType::Mapping { .. } => Value::Mapping(MapValue::nil()),
    }
}

/// A slice bound: the given one, or `default` when absent; fails when
/// negative or too large for a machine index.
pub fn normalize_slice_bound(bound: Option<i64>, default: i64, position: &str) -> (r: Result<usize, Fault>)
    ensures
        ({
            let value = match bound {
                Some(b) => b,
                None => default,
            };
            &&& r is Ok <==> 0 <= value <= usize::MAX
            &&& r matches Ok(n) ==> n == value
            &&& r matches Err(Fault::Error(m)) ==> m@ == "slice "@ + position@ + " bound "@
                + int_text(value as int) + " is out of bounds"@
            &&& r is Err ==> r matches Err(Fault::Error(_))
        }),
{
    let value = match bound {
        Some(b) => b,
        None => default,
    };
    if value < 0 || value as u64 > usize::MAX as u64 {
        let mut message = String::new();
        push_str(&mut message, "slice ");
        push_str(&mut message, position);
        push_str(&mut message, " bound ");
        push_int(&mut message, value);
        push_str(&mut message, " is out of bounds");
        return Err(Fault::Error(message));
    }
    Ok(value as usize)
}

/// The message for slice bounds outside the capacity.
pub fn slice_bounds_error_message(low: usize, high: usize) -> (f: Fault)
    ensures
        f matches Fault::Error(m) && m@ == "slice bounds ["@ + nat_text(low as nat) + ":"@
            + nat_text(high as nat) + "] are out of range"@,
{
    let mut message = String::new();
    push_str(&mut message, "slice bounds [");
    push_nat(&mut message, low as u64);
    push_str(&mut message, ":");
    push_nat(&mut message, high as u64);
    push_str(&mut message, "] are out of range");
    Fault::Error(message)
}

/// The display texts of `values`, separated by `separator`.
pub open spec fn arguments_text(heap: Heap, values: Seq<Value>, separator: Seq<char>) -> Seq<char>
    decreases values.len(),
{
    if values.len() == 0 {
        Seq::empty()
    } else if values.len() == 1 {
        heap.value_text(values[0], heap.render_fuel())
    } else {
        arguments_text(heap, values.drop_last(), separator) + separator + heap.value_text(
            values.last(),
            heap.render_fuel(),
        )
    }
}

/// The text that printing `arguments` writes, with `separator` between
/// them.
pub fn render_arguments(heap: &Heap, arguments: &[Value], separator: &str) -> (text: String)
    ensures
        text@ == arguments_text(*heap, arguments@, separator@),
{
    let mut text = String::new();
    let mut i: usize = 0;
    while i < arguments.len()
        invariant
            i <= arguments@.len(),
            text@ == arguments_text(*heap, arguments@.take(i as int), separator@),
        decreases arguments@.len() - i,
    {
        if i > 0 {
            push_str(&mut text, separator);
        }
        let piece = heap.render_value(&arguments[i]);
        push_str(&mut text, piece.as_str());
        proof {
            let next = arguments@.take(i + 1);
            assert(next.drop_last() =~= arguments@.take(i as int));
            assert(next.last() == arguments@[i as int]);
        }
        i = i + 1;
    }
    assert(arguments@.take(arguments@.len() as int) =~= arguments@);
    text
}

/// The message for a package call with the wrong number of arguments.
pub open spec fn package_arity_text(function: PackageFunction, expected: nat, received: nat) -> Seq<char> {
    "package function `"@ + package_function_name(function)@ + "` expected "@ + nat_text(expected)
        + " arguments, received "@ + nat_text(received)
}

/// Fails unless a package function received exactly `expected` arguments.
pub fn check_package_arity(function: PackageFunction, received: usize, expected: usize) -> (r: Result<(), Fault>)
    ensures
        r is Ok <==> received == expected,
        r matches Err(Fault::Error(m)) ==> m@ == package_arity_text(function, expected as nat, received as nat),
        r is Err ==> r matches Err(Fault::Error(_)),
{
    if received != expected {
        let mut message = String::new();
        push_str(&mut message, "package function `");
        push_str(&mut message, function.render());
        push_str(&mut message, "` expected ");
        push_nat(&mut message, expected as u64);
        push_str(&mut message, " arguments, received ");
        push_nat(&mut message, received as u64);
        return Err(Fault::Error(message));
    }
    Ok(())
}

/// The message for a builtin call with the wrong number of arguments.
pub open spec fn builtin_arity_text(name: Seq<char>, expected: nat, received: nat) -> Seq<char> {
    "builtin `"@ + name + "` expected "@ + nat_text(expected) + " arguments, received "@ + nat_text(
        received,
    )
}

/// Fails unless a builtin received exactly `expected` arguments.
pub fn check_builtin_arity(name: &str, received: usize, expected: usize) -> (r: Result<(), Fault>)
    ensures
        r is Ok <==> received == expected,
        r matches Err(Fault::Error(m)) ==> m@ == builtin_arity_text(name@, expected as nat, received as nat),
        r is Err ==> r matches Err(Fault::Error(_)),
{
    if received != expected {
        let mut message = String::new();
        push_str(&mut message, "builtin `");
        push_str(&mut message, name);
        push_str(&mut message, "` expected ");
        push_nat(&mut message, expected as u64);
        push_str(&mut message, " arguments, received ");
        push_nat(&mut message, received as u64);
        return Err(Fault::Error(message));
    }
    Ok(())
}

/// The message for a package argument of the wrong kind.
pub open spec fn argument_kind_text(position: nat, function: PackageFunction, expected: Seq<char>, found: Seq<char>) -> Seq<char> {
    "argument "@ + nat_text(position) + " in call to `"@ + package_function_name(function)@
        + "` expected `"@ + expected + "`, found "@ + found
}

/// Builds the message for a package argument of the wrong kind; `found`
/// is written as given.
pub fn argument_kind_error(position: usize, function: PackageFunction, expected: &str, found: &str) -> (f: Fault)
    ensures
        f matches Fault::Error(m) && m@ == argument_kind_text(position as nat, function, expected@, found@),
{
    let mut message = String::new();
    push_str(&mut message, "argument ");
    push_nat(&mut message, position as u64);
    push_str(&mut message, " in call to `");
    push_str(&mut message, function.render());
    push_str(&mut message, "` expected `");
    push_str(&mut message, expected);
    push_str(&mut message, "`, found ");
    push_str(&mut message, found);
    Fault::Error(message)
}

/// The quoted kind name of a value, as `found` shows it.
pub open spec fn found_text(v: Value) -> Seq<char> {
    "`"@ + type_name_of(v)@ + "`"@
}

/// Builds the message for an argument `value` that is not of kind
/// `expected`.
pub fn wrong_kind(position: usize, function: PackageFunction, expected: &str, value: &Value) -> (f: Fault)
    ensures
        f matches Fault::Error(m) && m@ == argument_kind_text(position as nat, function, expected@, found_text(*value)),
{
    let mut found = String::new();
    push_str(&mut found, "`");
    push_str(&mut found, runtime_type_name(value));
    push_str(&mut found, "`");
    argument_kind_error(position, function, expected, found.as_str())
}

/// The argument as a string, or the error naming its kind.
pub fn expect_string_argument(function: PackageFunction, position: usize, value: Value) -> (r: Result<StringValue, Fault>)
    ensures
        r matches Ok(s) ==> value == Value::String(s),
        r is Err ==> !(value is String) && (r matches Err(Fault::Error(m)) && m@ == argument_kind_text(
            position as nat,
            function,
            "string"@,
            found_text(value),
        )),
{
    match value {
        Value::String(s) => Ok(s),
        other => Err(wrong_kind(position, function, "string", &other)),
    }
}

/// The argument as an integer, or the error naming its kind.
pub fn expect_integer_argument(function: PackageFunction, position: usize, value: Value) -> (r: Result<i64, Fault>)
    ensures
        r matches Ok(n) ==> value == Value::Integer(n),
        r is Err ==> !(value is Integer) && (r matches Err(Fault::Error(m)) && m@ == argument_kind_text(
            position as nat,
            function,
            "int"@,
            found_text(value),
        )),
{
    match value {
        Value::Integer(n) => Ok(n),
        other => Err(wrong_kind(position, function, "int", &other)),
    }
}

/// The argument as a byte, or the error naming its kind.
pub fn expect_byte_argument(function: PackageFunction, position: usize, value: Value) -> (r: Result<u8, Fault>)
    ensures
        r matches Ok(b) ==> value == Value::Byte(b),
        r is Err ==> !(value is Byte) && (r matches Err(Fault::Error(m)) && m@ == argument_kind_text(
            position as nat,
            function,
            "byte"@,
            found_text(value),
        )),
{
    match value {
        Value::Byte(b) => Ok(b),
        other => Err(wrong_kind(position, function, "byte", &other)),
    }
}

/// The argument as a slice value meant to hold bytes.
pub fn expect_byte_slice_value(function: PackageFunction, position: usize, value: Value) -> (r: Result<SliceValue, Fault>)
    ensures
        r matches Ok(s) ==> value == Value::Slice(s),
        r is Err ==> !(value is Slice) && (r matches Err(Fault::Error(m)) && m@ == argument_kind_text(
            position as nat,
            function,
            "[]byte"@,
            found_text(value),
        )),
{
    match value {
        Value::Slice(s) => Ok(s),
        other => Err(wrong_kind(position, function, "[]byte", &other)),
    }
}

/// The argument as the bytes of a byte slice.
pub fn expect_byte_slice_argument(heap: &Heap, function: PackageFunction, position: usize, value: Value) -> (r: Result<Vec<u8>, Fault>)
    ensures
        r matches Ok(bytes) ==> value matches Value::Slice(s) && heap.slice_ok(s) && all_bytes(heap.elements(s))
            && bytes@ == byte_payloads(heap.elements(s)),
        r is Err ==> !(value matches Value::Slice(s) && heap.slice_ok(s) && all_bytes(heap.elements(s))),
        r is Err ==> r matches Err(Fault::Error(_)),
{
    let slice = expect_byte_slice_value(function, position, value)?;
    if !heap.check_slice(&slice) {
        return Err(error_message("invalid slice handle"));
    }
    match slice.byte_elements(heap) {
        Ok(bytes) => Ok(bytes),
        Err(()) => Err(argument_kind_error(position, function, "[]byte", "a non-byte slice")),
    }
}

/// The argument as the strings of a string slice.
pub fn expect_string_slice_argument(heap: &Heap, function: PackageFunction, position: usize, value: Value) -> (r: Result<Vec<StringValue>, Fault>)
    ensures
        r matches Ok(strings) ==> value matches Value::Slice(s) && heap.slice_ok(s)
            && strings@.len() == heap.elements(s).len()
            && forall|i: int| 0 <= i < strings@.len() ==> (#[trigger] heap.elements(s)[i] matches Value::String(t)
                && t@ == strings@[i]@),
        r is Err ==> !(value matches Value::Slice(s) && heap.slice_ok(s) && all_strings(heap.elements(s))),
        r is Err ==> r matches Err(Fault::Error(_)),
{
    let slice = match value {
        Value::Slice(s) => s,
        other => {
            return Err(wrong_kind(position, function, "[]string", &other));
        },
    };
    if !heap.check_slice(&slice) {
        return Err(error_message("invalid slice handle"));
    }
    let elements = slice.visible_elements(heap);
    let mut strings: Vec<StringValue> = Vec::new();
    let mut i: usize = 0;
    while i < elements.len()
        invariant
            heap.slice_ok(slice),
            value == Value::Slice(slice),
            elements@.len() == heap.elements(slice).len(),
            forall|k: int| 0 <= k < elements@.len() ==> #[trigger] elements@[k].equiv(heap.elements(slice)[k]),
            i <= elements@.len(),
            strings@.len() == i,
            forall|k: int| 0 <= k < i ==> (#[trigger] heap.elements(slice)[k] matches Value::String(t)
                && t@ == strings@[k]@),
        decreases elements@.len() - i,
    {
        match &elements[i] {
            Value::String(s) => {
                proof {
                    elements@[i as int].lemma_equiv_sym(heap.elements(slice)[i as int]);
                    heap.elements(slice)[i as int].lemma_equiv_string(*s);
                }
                let copy = s.duplicate();
                strings.push(copy);
                assert(strings@[i as int]@ == s@);
            },
            other => {
                proof {
                    elements@[i as int].lemma_equiv_kind(heap.elements(slice)[i as int]);
                }
                let mut found = String::new();
                push_str(&mut found, "`[]");
                push_str(&mut found, runtime_type_name(other));
                push_str(&mut found, "`");
                return Err(argument_kind_error(position, function, "[]string", found.as_str()));
            },
        }
        i = i + 1;
    }
    Ok(strings)
}

/// Every value of the run is a valid slice of bytes.
pub open spec fn all_byte_slices(heap: Heap, values: Seq<Value>) -> bool {
    forall|i: int| 0 <= i < values.len() ==> (#[trigger] values[i] matches Value::Slice(t)
        && heap.slice_ok(t) && all_bytes(heap.elements(t)))
}

/// The argument as the byte strings of a slice of byte slices.
pub fn expect_byte_slice_slice_argument(heap: &Heap, function: PackageFunction, position: usize, value: Value) -> (r: Result<Vec<Vec<u8>>, Fault>)
    ensures
        r matches Ok(parts) ==> value matches Value::Slice(s) && heap.slice_ok(s)
            && parts@.len() == heap.elements(s).len()
            && forall|i: int| 0 <= i < parts@.len() ==> (#[trigger] heap.elements(s)[i] matches Value::Slice(t)
                && heap.slice_ok(t) && all_bytes(heap.elements(t)) && parts@[i]@ == byte_payloads(heap.elements(t))),
        r is Err ==> !(value matches Value::Slice(s) && heap.slice_ok(s) && all_byte_slices(*heap, heap.elements(s))),
        r is Err ==> r matches Err(Fault::Error(_)),
{
    let slice = match value {
        Value::Slice(s) => s,
        other => {
            return Err(wrong_kind(position, function, "[][]byte", &other));
        },
    };
    if !heap.check_slice(&slice) {
        return Err(error_message("invalid slice handle"));
    }
    let elements = slice.visible_elements(heap);
    let mut parts: Vec<Vec<u8>> = Vec::new();
    let mut i: usize = 0;
    while i < elements.len()
        invariant
            heap.slice_ok(slice),
            value == Value::Slice(slice),
            elements@.len() == heap.elements(slice).len(),
            forall|k: int| 0 <= k < elements@.len() ==> #[trigger] elements@[k].equiv(heap.elements(slice)[k]),
            i <= elements@.len(),
            parts@.len() == i,
            forall|k: int| 0 <= k < i ==> (#[trigger] heap.elements(slice)[k] matches Value::Slice(t)
                && heap.slice_ok(t) && all_bytes(heap.elements(t)) && parts@[k]@ == byte_payloads(heap.elements(t))),
        decreases elements@.len() - i,
    {
        match &elements[i] {
            Value::Slice(inner) => {
                proof {
                    elements@[i as int].lemma_equiv_sym(heap.elements(slice)[i as int]);
                    heap.elements(slice)[i as int].lemma_equiv_plain(elements@[i as int]);
                }
                if !heap.check_slice(inner) {
                    return Err(error_message("invalid slice handle"));
                }
                match inner.byte_elements(heap) {
                    Ok(bytes) => parts.push(bytes),
                    Err(()) => {
                        return Err(argument_kind_error(
                            position,
                            function,
                            "[][]byte",
                            "a slice with non-byte elements",
                        ));
                    },
                }
            },
            other => {
                proof {
                    elements@[i as int].lemma_equiv_kind(heap.elements(slice)[i as int]);
                }
                let mut found = String::new();
                push_str(&mut found, "`[]");
                push_str(&mut found, runtime_type_name(other));
                push_str(&mut found, "`");
                return Err(argument_kind_error(position, function, "[][]byte", found.as_str()));
            },
        }
        i = i + 1;
    }
    Ok(parts)
}

/// The offset of the last occurrence of `needle` in `haystack`; an empty
/// needle is found at the very end.
pub fn last_subslice_index(haystack: &[u8], needle: &[u8]) -> (r: Option<usize>)
    ensures
        last_search(haystack@, needle@, r),
        needle@.len() == 0 ==> r == Some(haystack@.len() as usize),
{
    if needle.len() == 0 {
        assert(haystack@.subrange(haystack@.len() as int, haystack@.len() as int) =~= needle@);
        return Some(haystack.len());
    }
    if needle.len() > haystack.len() {
        return None;
    }
    let mut i: usize = haystack.len() - needle.len() + 1;
    while i > 0
        invariant
            0 < needle@.len() <= haystack@.len(),
            i <= haystack@.len() - needle@.len() + 1,
            forall|j: int| i <= j ==> !#[trigger] crate::runtime::byteseq::occurs_at(haystack@, needle@, j),
        decreases i,
    {
        i = i - 1;
        if matches_at(haystack, needle, i) {
            return Some(i);
        }
    }
    None
}

} // verus!
