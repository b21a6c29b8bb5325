//! The package functions of `fmt`, `strings` and `bytes`. Strings are byte
//! strings; `bytes` functions read byte slices from the heap, and those that
//! return part of their argument return a view onto the same storage.

use vstd::prelude::*;

use crate::package::PackageFunction;
use crate::runtime::byteseq::{
    compare_bytes, ends_with, find_byte, find_first, first_byte_search, first_search,
    is_prefix, is_suffix, join_byte_parts, join_seqs, last_byte_search, last_search, lex_compare,
    never_occurs, repeat_bytes, repeat_seq, rfind_byte, starts_with,
};
use crate::runtime::value::{all_bytes, all_strings, byte_payloads, byte_values, string_views, Heap, SliceValue, StringValue, Value};
use crate::runtime::vm::support::{
    all_byte_slices, argument_kind_error, arguments_text, check_package_arity, expect_byte_argument,
    expect_byte_slice_argument, expect_byte_slice_value, expect_integer_argument,
    expect_string_argument, expect_string_slice_argument, last_subslice_index, render_arguments,
};
use crate::runtime::vm::builtins::{take_one, take_two};
use crate::runtime::vm::{error_message, only_heap_changed, Fault, VirtualMachine};
use crate::text::push_str;

verus! {

/// A search result as the `Index` functions report it: the offset, or -1.
pub open spec fn search_index(r: Option<usize>) -> i64 {
    match r {
        Some(i) => i as i64,
        None => -1i64,
    }
}

/// The offset found, or -1.
pub fn index_or_minus_one(r: Option<usize>) -> (n: i64)
    ensures
        n == search_index(r),
{
    match r {
        Some(i) => i as i64,
        None => -1,
    }
}

/// A list of one result.
pub fn one_value(v: Value) -> (r: Vec<Value>)
    ensures
        r@ == seq![v],
{
    let mut r: Vec<Value> = Vec::new();
    r.push(v);
    assert(r@ =~= seq![v]);
    r
}

/// A list of two results.
pub fn two_values(v: Value, w: Value) -> (r: Vec<Value>)
    ensures
        r@ == seq![v, w],
{
    let mut r: Vec<Value> = Vec::new();
    r.push(v);
    r.push(w);
    assert(r@ =~= seq![v, w]);
    r
}

/// A list of three results.
pub fn three_values(u: Value, v: Value, w: Value) -> (r: Vec<Value>)
    ensures
        r@ == seq![u, v, w],
{
    let mut r: Vec<Value> = Vec::new();
    r.push(u);
    r.push(v);
    r.push(w);
    assert(r@ =~= seq![u, v, w]);
    r
}

/// `v` is a string value holding exactly `bytes`.
pub open spec fn is_string(v: Value, bytes: Seq<u8>) -> bool {
    v matches Value::String(s) && s@ == bytes
}

/// The `strings` functions that take two strings.
pub open spec fn takes_two_strings(function: PackageFunction) -> bool {
    match function {
        PackageFunction::StringsCompare | PackageFunction::StringsContains
        | PackageFunction::StringsHasPrefix | PackageFunction::StringsHasSuffix
        | PackageFunction::StringsIndex | PackageFunction::StringsLastIndex
        | PackageFunction::StringsCut | PackageFunction::StringsCutPrefix
        | PackageFunction::StringsCutSuffix | PackageFunction::StringsTrimPrefix
        | PackageFunction::StringsTrimSuffix => true,
        _ => false,
    }
}

/// What a two-string `strings` function returns for the strings `a` and
/// `b`.
pub open spec fn string_pair_results(function: PackageFunction, a: Seq<u8>, b: Seq<u8>, results: Seq<Value>) -> bool {
    match function {
        PackageFunction::StringsCompare => results == seq![Value::Integer(lex_compare(a, b) as i64)],
        PackageFunction::StringsContains => results == seq![Value::Boolean(!never_occurs(a, b))],
        PackageFunction::StringsHasPrefix => results == seq![Value::Boolean(is_prefix(a, b))],
        PackageFunction::StringsHasSuffix => results == seq![Value::Boolean(is_suffix(a, b))],
        PackageFunction::StringsIndex => exists|o: Option<usize>| #[trigger] first_search(a, b, o)
            && results == seq![Value::Integer(search_index(o))],
        PackageFunction::StringsLastIndex => exists|o: Option<usize>| #[trigger] last_search(a, b, o)
            && results == seq![Value::Integer(search_index(o))],
        PackageFunction::StringsCut => results.len() == 3 && exists|o: Option<usize>| #[trigger] first_search(a, b, o)
            && match o {
                Some(i) => is_string(results[0], a.take(i as int)) && is_string(results[1], a.skip(i + b.len()))
                    && results[2] == Value::Boolean(true),
                None => is_string(results[0], a) && is_string(results[1], Seq::empty())
                    && results[2] == Value::Boolean(false),
            },
        PackageFunction::StringsCutPrefix => results.len() == 2 && if is_prefix(a, b) {
            is_string(results[0], a.skip(b.len() as int)) && results[1] == Value::Boolean(true)
        } else {
            is_string(results[0], a) && results[1] == Value::Boolean(false)
        },
        PackageFunction::StringsCutSuffix => results.len() == 2 && if is_suffix(a, b) {
            is_string(results[0], a.take(a.len() - b.len())) && results[1] == Value::Boolean(true)
        } else {
            is_string(results[0], a) && results[1] == Value::Boolean(false)
        },
        PackageFunction::StringsTrimPrefix => results.len() == 1 && is_string(
            results[0],
            if is_prefix(a, b) { a.skip(b.len() as int) } else { a },
        ),
        PackageFunction::StringsTrimSuffix => results.len() == 1 && is_string(
            results[0],
            if is_suffix(a, b) { a.take(a.len() - b.len()) } else { a },
        ),
        _ => false,
    }
}

/// `strings.Cut`: the text before and after the first occurrence of the
/// separator, and whether it was found.
pub fn strings_cut(a: &StringValue, b: &StringValue) -> (r: Vec<Value>)
    ensures
        string_pair_results(PackageFunction::StringsCut, a@, b@, r@),
{
    let found = a.index_of(b);
    assert(first_search(a@, b@, found));
    match found {
        Some(index) => {
            assert(crate::runtime::byteseq::occurs_at(a@, b@, index as int));
            let total = a.len();
            let end = index + b.len();
            let before = match a.slice(0, index) {
                Ok(s) => s,
                Err(()) => StringValue::empty(),
            };
            let after = match a.slice(end, total) {
                Ok(s) => s,
                Err(()) => StringValue::empty(),
            };
            assert(before@ =~= a@.take(index as int));
            assert(after@ =~= a@.skip(index + b@.len()));
            let r = three_values(Value::String(before), Value::String(after), Value::Boolean(true));
            assert(r@.len() == 3);
            assert(is_string(r@[0], a@.take(index as int)));
            assert(is_string(r@[1], a@.skip(index + b@.len())));
            r
        },
        None => {
            let r = three_values(Value::String(a.duplicate()), Value::String(StringValue::empty()), Value::Boolean(false));
            assert(is_string(r@[1], Seq::empty()));
            r
        },
    }
}

/// Runs a two-string `strings` function.
pub fn string_pair_function(function: PackageFunction, a: &StringValue, b: &StringValue) -> (r: Vec<Value>)
    requires
        takes_two_strings(function),
    ensures
        string_pair_results(function, a@, b@, r@),
{
    match function {
        PackageFunction::StringsCompare => {
            one_value(Value::Integer(compare_bytes(a.as_bytes(), b.as_bytes())))
        },
        PackageFunction::StringsContains => one_value(Value::Boolean(a.contains(b))),
        PackageFunction::StringsHasPrefix => one_value(Value::Boolean(a.has_prefix(b))),
        PackageFunction::StringsHasSuffix => one_value(Value::Boolean(a.has_suffix(b))),
        PackageFunction::StringsIndex => {
            let found = a.index_of(b);
            let r = one_value(Value::Integer(index_or_minus_one(found)));
            assert(first_search(a@, b@, found));
            r
        },
        PackageFunction::StringsLastIndex => {
            let found = last_subslice_index(a.as_bytes(), b.as_bytes());
            let r = one_value(Value::Integer(index_or_minus_one(found)));
            assert(last_search(a@, b@, found));
            r
        },
        PackageFunction::StringsCut => strings_cut(a, b),
        PackageFunction::StringsCutPrefix => {
            if a.has_prefix(b) {
                let trimmed = match a.trim_prefix(b) {
                    Ok(s) => s,
                    Err(()) => StringValue::empty(),
                };
                two_values(Value::String(trimmed), Value::Boolean(true))
            } else {
                two_values(Value::String(a.duplicate()), Value::Boolean(false))
            }
        },
        PackageFunction::StringsCutSuffix => {
            if a.has_suffix(b) {
                let trimmed = match a.trim_suffix(b) {
                    Ok(s) => s,
                    Err(()) => StringValue::empty(),
                };
                two_values(Value::String(trimmed), Value::Boolean(true))
            } else {
                two_values(Value::String(a.duplicate()), Value::Boolean(false))
            }
        },
        PackageFunction::StringsTrimPrefix => {
            let trimmed = match a.trim_prefix(b) {
                Ok(s) => s,
                Err(()) => StringValue::empty(),
            };
            one_value(Value::String(trimmed))
        },
        _ => {
            let trimmed = match a.trim_suffix(b) {
                Ok(s) => s,
                Err(()) => StringValue::empty(),
            };
            one_value(Value::String(trimmed))
        },
    }
}

/// `strings.IndexByte`: the first offset of the byte, or -1.
pub fn strings_index_byte(function: PackageFunction, first: Value, second: Value) -> (r: Result<Vec<Value>, Fault>)
    ensures
        first is String && second is Byte ==> (r matches Ok(results) && exists|o: Option<usize>|
            #[trigger] first_byte_search(first->String_0@, second->Byte_0, o) && results@ == seq![Value::Integer(search_index(o))]),
        !(first is String && second is Byte) ==> r is Err,
        r is Err ==> r matches Err(Fault::Error(_)),
{
    let value = expect_string_argument(function, 1, first)?;
    let needle = expect_byte_argument(function, 2, second)?;
    let found = find_byte(value.as_bytes(), needle);
    let results = one_value(Value::Integer(index_or_minus_one(found)));
    assert(results@ =~= seq![Value::Integer(search_index(found))]);
    assert(first_byte_search(first->String_0@, second->Byte_0, found));
    Ok(results)
}

/// `strings.LastIndexByte`: the last offset of the byte, or -1.
pub fn strings_last_index_byte(function: PackageFunction, first: Value, second: Value) -> (r: Result<Vec<Value>, Fault>)
    ensures
        first is String && second is Byte ==> (r matches Ok(results) && exists|o: Option<usize>|
            #[trigger] last_byte_search(first->String_0@, second->Byte_0, o) && results@ == seq![Value::Integer(search_index(o))]),
        !(first is String && second is Byte) ==> r is Err,
        r is Err ==> r matches Err(Fault::Error(_)),
{
    let value = expect_string_argument(function, 1, first)?;
    let needle = expect_byte_argument(function, 2, second)?;
    let found = rfind_byte(value.as_bytes(), needle);
    let results = one_value(Value::Integer(index_or_minus_one(found)));
    assert(results@ =~= seq![Value::Integer(search_index(found))]);
    assert(last_byte_search(first->String_0@, second->Byte_0, found));
    Ok(results)
}

/// `strings.Repeat`: the string `count` times; fails for a negative count
/// or a result longer than the address space.
pub fn strings_repeat(function: PackageFunction, first: Value, second: Value) -> (r: Result<Vec<Value>, Fault>)
    ensures
        !(first is String && second is Integer) ==> r is Err,
        first is String && second is Integer ==> ({
            let a = first->String_0@;
            let n = second->Integer_0;
            if n < 0 || n * a.len() > usize::MAX {
                r is Err
            } else {
                r matches Ok(results) && results@.len() == 1 && is_string(results@[0], repeat_seq(a, n as nat))
            }
        }),
        r is Err ==> r matches Err(Fault::Error(_)),
{
    let value = expect_string_argument(function, 1, first)?;
    let count = expect_integer_argument(function, 2, second)?;
    if count < 0 {
        let mut message = String::new();
        push_str(&mut message, "package function `");
        push_str(&mut message, function.render());
        push_str(&mut message, "` requires a non-negative repeat count");
        return Err(Fault::Error(message));
    }
    let length = value.len();
    if length == 0 {
        let empty = StringValue::empty();
        proof {
            crate::runtime::byteseq::lemma_repeat_empty(count as nat);
            assert(value@ =~= Seq::<u8>::empty());
            assert(repeat_seq(first->String_0@, second->Integer_0 as nat) == empty@);
        }
        let results = one_value(Value::String(empty));
        assert(is_string(results@[0], repeat_seq(first->String_0@, second->Integer_0 as nat)));
        return Ok(results);
    }
    if count as u64 > (usize::MAX / length) as u64 {
        let mut message = String::new();
        push_str(&mut message, "package function `");
        push_str(&mut message, function.render());
        push_str(&mut message, "` overflowed the repeated string size");
        proof {
            let m: int = usize::MAX as int;
            let l: int = length as int;
            let c: int = count as int;
            let q: int = m / l;
            assert(c >= q + 1);
            assert(c * l > m) by (nonlinear_arith)
                requires c >= q + 1, l > 0, q == m / l, m >= 0;
        }
        return Err(Fault::Error(message));
    }
    proof {
        let m: int = usize::MAX as int;
        let l: int = length as int;
        let c: int = count as int;
        let q: int = m / l;
        assert(c <= q);
        assert(c * l <= m) by (nonlinear_arith)
            requires c <= q, c >= 0, l > 0, q == m / l, m >= 0;
        assert(c <= m) by (nonlinear_arith)
            requires c * l <= m, c >= 0, l > 0;
    }
    Ok(one_value(Value::String(value.repeat(count as usize))))
}

/// The `strings` functions.
pub open spec fn is_strings_function(function: PackageFunction) -> bool {
    takes_two_strings(function) || function == PackageFunction::StringsClone
        || function == PackageFunction::StringsIndexByte || function == PackageFunction::StringsLastIndexByte
        || function == PackageFunction::StringsJoin || function == PackageFunction::StringsRepeat
}

/// The number of arguments a `strings` function takes.
pub open spec fn strings_arity(function: PackageFunction) -> nat {
    if function == PackageFunction::StringsClone { 1 } else { 2 }
}

/// What `execute_package_function` does, as its contract states.
pub open spec fn execute_package_function_done(before_vm: VirtualMachine, after_vm: VirtualMachine, function: PackageFunction, arguments: Vec<Value>, r: Result<Vec<Value>, Fault>) -> bool {
    &&& (after_vm.heap.wf())
    &&& (after_vm.stack@ == before_vm.stack@)
    &&& (after_vm.frames@ == before_vm.frames@)
    &&& (after_vm.pending_panic == before_vm.pending_panic)
    &&& (after_vm.panic_depth == before_vm.panic_depth)
    &&& (r is Err ==> r matches Err(Fault::Error(_)))
    &&& (function == PackageFunction::FmtPrint ==> (r matches Ok(vs) && vs@.len() == 0)
        && after_vm.output@ == before_vm.output@ + arguments_text(before_vm.heap, arguments@, ""@))
    &&& (function == PackageFunction::FmtPrintln ==> (r matches Ok(vs) && vs@.len() == 0)
        && after_vm.output@ == before_vm.output@ + arguments_text(before_vm.heap, arguments@, " "@) + "\n"@)
    &&& (function == PackageFunction::FmtSprint ==> (r matches Ok(vs) && vs@.len() == 1 && is_string(
        vs@[0],
        vstd::utf8::encode_utf8(arguments_text(before_vm.heap, arguments@, ""@)),
    )) && after_vm.output@ == before_vm.output@)
    &&& (function != PackageFunction::FmtPrint && function != PackageFunction::FmtPrintln
        ==> after_vm.output@ == before_vm.output@)
    &&& (is_strings_function(function) || function == PackageFunction::FmtPrint || function == PackageFunction::FmtPrintln
        || function == PackageFunction::FmtSprint ==> after_vm.heap == before_vm.heap)
    &&& (is_strings_function(function) ==> execute_strings_function_done(before_vm, function, arguments, r))
    &&& (is_bytes_function(function) ==> execute_bytes_function_done(before_vm, after_vm, function, arguments, r))
}

/// What `execute_strings_function` does, as its contract states.
pub open spec fn execute_strings_function_done(vm: VirtualMachine, function: PackageFunction, arguments: Vec<Value>, r: Result<Vec<Value>, Fault>) -> bool {
    &&& (arguments@.len() != strings_arity(function) ==> r is Err)
    &&& (r is Err ==> r matches Err(Fault::Error(_)))
    &&& (takes_two_strings(function) && arguments@.len() == 2 ==> match (arguments@[0], arguments@[1]) {
        (Value::String(a), Value::String(b)) => r matches Ok(results) && string_pair_results(function, a@, b@, results@),
        _ => r is Err,
    })
    &&& (function == PackageFunction::StringsClone && arguments@.len() == 1 ==> match arguments@[0] {
        Value::String(a) => r matches Ok(results) && results@.len() == 1 && is_string(results@[0], a@),
        _ => r is Err,
    })
    &&& (function == PackageFunction::StringsIndexByte && arguments@.len() == 2 ==> match (arguments@[0], arguments@[1]) {
        (Value::String(a), Value::Byte(b)) => r matches Ok(results) && exists|o: Option<usize>|
            #[trigger] first_byte_search(a@, b, o) && results@ == seq![Value::Integer(search_index(o))],
        _ => r is Err,
    })
    &&& (function == PackageFunction::StringsLastIndexByte && arguments@.len() == 2 ==> match (arguments@[0], arguments@[1]) {
        (Value::String(a), Value::Byte(b)) => r matches Ok(results) && exists|o: Option<usize>|
            #[trigger] last_byte_search(a@, b, o) && results@ == seq![Value::Integer(search_index(o))],
        _ => r is Err,
    })
    &&& (function == PackageFunction::StringsRepeat && arguments@.len() == 2 ==> match (arguments@[0], arguments@[1]) {
        (Value::String(a), Value::Integer(n)) => if n < 0 || n * a@.len() > usize::MAX {
            r is Err
        } else {
            r matches Ok(results) && results@.len() == 1 && is_string(results@[0], repeat_seq(a@, n as nat))
        },
        _ => r is Err,
    })
    &&& (function == PackageFunction::StringsJoin && arguments@.len() == 2 ==> (r is Ok <==> (
        arguments@[0] matches Value::Slice(s) && vm.heap.slice_ok(s) && all_strings(vm.heap.elements(s))
        && arguments@[1] is String)))
    &&& (function == PackageFunction::StringsJoin && arguments@.len() == 2 ==> (r matches Ok(results) ==> {
        &&& arguments@[0] matches Value::Slice(s)
        &&& arguments@[1] matches Value::String(sep)
        &&& vm.heap.slice_ok(arguments@[0]->Slice_0)
        &&& results@.len() == 1
        &&& exists|parts: Seq<Seq<u8>>| #[trigger] join_seqs(parts, arguments@[1]->String_0@) == results@[0]->String_0@
            && parts.len() == vm.heap.elements(arguments@[0]->Slice_0).len()
            && forall|i: int| 0 <= i < parts.len() ==> is_string(#[trigger] vm.heap.elements(arguments@[0]->Slice_0)[i], parts[i])
    }))
}

/// What `execute_bytes_function` does, as its contract states.
pub open spec fn execute_bytes_function_done(before_vm: VirtualMachine, after_vm: VirtualMachine, function: PackageFunction, arguments: Vec<Value>, r: Result<Vec<Value>, Fault>) -> bool {
    &&& (after_vm.heap.wf())
    &&& (only_heap_changed(after_vm, before_vm))
    &&& (arguments@.len() != bytes_arity(function) ==> r is Err)
    &&& (r is Err ==> r matches Err(Fault::Error(_)))
    &&& (r is Err || !allocates_bytes(function) ==> after_vm.heap == before_vm.heap)
    &&& (function == PackageFunction::BytesClone && arguments@.len() == 1 && arguments@[0] is Slice
        && arguments@[0]->Slice_0.spec_is_nil() ==> after_vm.heap == before_vm.heap)
    &&& (r is Ok && allocates_bytes(function) && !(function == PackageFunction::BytesClone
        && arguments@[0]->Slice_0.spec_is_nil()) ==> allocated_slice(before_vm.heap, after_vm.heap, r->Ok_0@[0]->Slice_0))
    &&& (takes_two_byte_strings(function) && arguments@.len() == 2 && is_byte_slice(before_vm.heap, arguments@[0])
        && is_byte_slice(before_vm.heap, arguments@[1]) ==> (r matches Ok(results) && byte_pair_results(
        function,
        slice_bytes(before_vm.heap, arguments@[0]),
        slice_bytes(before_vm.heap, arguments@[1]),
        results@,
    )))
    &&& (function == PackageFunction::BytesIndex && arguments@.len() == 2 && is_byte_slice(before_vm.heap, arguments@[0])
        && is_byte_slice(before_vm.heap, arguments@[1]) ==> (r matches Ok(results) && exists|o: Option<usize>|
        #[trigger] first_search(slice_bytes(before_vm.heap, arguments@[0]), slice_bytes(before_vm.heap, arguments@[1]), o)
        && results@ == seq![Value::Integer(search_index(o))]))
    &&& (function == PackageFunction::BytesIndexByte && arguments@.len() == 2 && is_byte_slice(before_vm.heap, arguments@[0])
        && arguments@[1] is Byte ==> (r matches Ok(results) && exists|o: Option<usize>|
        #[trigger] first_byte_search(slice_bytes(before_vm.heap, arguments@[0]), arguments@[1]->Byte_0, o)
        && results@ == seq![Value::Integer(search_index(o))]))
    &&& (function == PackageFunction::BytesLastIndexByte && arguments@.len() == 2 && is_byte_slice(before_vm.heap, arguments@[0])
        && arguments@[1] is Byte ==> (r matches Ok(results) && exists|o: Option<usize>|
        #[trigger] last_byte_search(slice_bytes(before_vm.heap, arguments@[0]), arguments@[1]->Byte_0, o)
        && results@ == seq![Value::Integer(search_index(o))]))
    &&& (function == PackageFunction::BytesCut && arguments@.len() == 2 && is_byte_slice(before_vm.heap, arguments@[0])
        && is_byte_slice(before_vm.heap, arguments@[1]) ==> (r matches Ok(results) && bytes_cut_results(
        arguments@[0]->Slice_0,
        slice_bytes(before_vm.heap, arguments@[0]),
        slice_bytes(before_vm.heap, arguments@[1]),
        results@,
    )))
    &&& (trims_bytes(function) && arguments@.len() == 2 && is_byte_slice(before_vm.heap, arguments@[0])
        && is_byte_slice(before_vm.heap, arguments@[1]) ==> (r matches Ok(results) && bytes_trim_results(
        function,
        arguments@[0]->Slice_0,
        slice_bytes(before_vm.heap, arguments@[0]),
        slice_bytes(before_vm.heap, arguments@[1]),
        results@,
    )))
    &&& (function == PackageFunction::BytesClone && arguments@.len() == 1 && is_byte_slice(before_vm.heap, arguments@[0]) ==> {
        &&& r is Ok
        &&& r->Ok_0@.len() == 1
        &&& r->Ok_0@[0] is Slice
        &&& after_vm.heap.slice_ok(r->Ok_0@[0]->Slice_0)
        &&& arguments@[0]->Slice_0.spec_is_nil() ==> r->Ok_0@[0]->Slice_0 == SliceValue::spec_nil()
        &&& !arguments@[0]->Slice_0.spec_is_nil() ==> after_vm.heap.elements(r->Ok_0@[0]->Slice_0)
            == byte_values(slice_bytes(before_vm.heap, arguments@[0]))
    })
    &&& (function == PackageFunction::BytesRepeat && arguments@.len() == 2 && is_byte_slice(before_vm.heap, arguments@[0])
        && arguments@[1] is Integer ==> ({
        let a = slice_bytes(before_vm.heap, arguments@[0]);
        let n = arguments@[1]->Integer_0;
        if n < 0 || n * a.len() > usize::MAX {
            r is Err
        } else {
            &&& r is Ok
            &&& r->Ok_0@.len() == 1
            &&& r->Ok_0@[0] is Slice
            &&& after_vm.heap.slice_ok(r->Ok_0@[0]->Slice_0)
            &&& after_vm.heap.elements(r->Ok_0@[0]->Slice_0) == byte_values(repeat_seq(a, n as nat))
        }
    }))
    &&& (function == PackageFunction::BytesJoin && arguments@.len() == 2 ==> (r is Ok <==> (
        arguments@[0] matches Value::Slice(s) && before_vm.heap.slice_ok(s)
        && all_byte_slices(before_vm.heap, before_vm.heap.elements(s)) && is_byte_slice(before_vm.heap, arguments@[1]))))
    &&& (function == PackageFunction::BytesJoin && r is Ok ==> {
        let t = r->Ok_0@[0]->Slice_0;
        let s = arguments@[0]->Slice_0;
        &&& r->Ok_0@.len() == 1
        &&& r->Ok_0@[0] is Slice
        &&& after_vm.heap.slice_ok(t)
        &&& exists|parts: Seq<Seq<u8>>| #[trigger] join_seqs(parts, slice_bytes(before_vm.heap, arguments@[1])) == byte_payloads(after_vm.heap.elements(t))
            && parts.len() == before_vm.heap.elements(s).len()
            && forall|i: int| 0 <= i < parts.len() ==> (#[trigger] before_vm.heap.elements(s)[i] matches Value::Slice(e)
                && before_vm.heap.slice_ok(e) && all_bytes(before_vm.heap.elements(e))
                && parts[i] == byte_payloads(before_vm.heap.elements(e)))
    })
}

impl VirtualMachine {
    /// Runs a `strings` function on evaluated arguments.
    pub(super) fn execute_strings_function(&self, function: PackageFunction, arguments: Vec<Value>) -> (r: Result<Vec<Value>, Fault>)
        requires
            is_strings_function(function),
        ensures
            execute_strings_function_done(*self, function, arguments, r),
    {
        check_package_arity(function, arguments.len(), if function == PackageFunction::StringsClone { 1 } else { 2 })?;
        if function == PackageFunction::StringsClone {
            let value = expect_string_argument(function, 1, take_one(arguments))?;
            return Ok(one_value(Value::String(value.duplicate())));
        }
        let (first, second) = take_two(arguments);
        match function {
            PackageFunction::StringsIndexByte => strings_index_byte(function, first, second),
            PackageFunction::StringsLastIndexByte => strings_last_index_byte(function, first, second),
            PackageFunction::StringsJoin => {
                let elements = expect_string_slice_argument(&self.heap, function, 1, first)?;
                let separator = expect_string_argument(function, 2, second)?;
                let joined = StringValue::join(elements.as_slice(), &separator);
                let results = one_value(Value::String(joined));
                proof {
                    let parts = string_views(elements@);
                    let s = first->Slice_0;
                    assert(join_seqs(parts, second->String_0@) == results@[0]->String_0@);
                    assert(parts.len() == self.heap.elements(s).len());
                    assert forall|i: int| 0 <= i < parts.len() implies is_string(#[trigger] self.heap.elements(s)[i], parts[i]) by {
                        assert(parts[i] == elements@[i]@);
                    }
                }
                Ok(results)
            },
            PackageFunction::StringsRepeat => strings_repeat(function, first, second),
            _ => {
                let a = expect_string_argument(function, 1, first)?;
                let b = expect_string_argument(function, 2, second)?;
                Ok(string_pair_function(function, &a, &b))
            },
        }
    }
}

} // verus!

verus! {

/// `v` is a byte slice of `heap`: a valid slice whose elements are bytes.
pub open spec fn is_byte_slice(heap: Heap, v: Value) -> bool {
    v matches Value::Slice(s) && heap.slice_ok(s) && all_bytes(heap.elements(s))
}

/// The bytes that a byte slice shows.
pub open spec fn slice_bytes(heap: Heap, v: Value) -> Seq<u8> {
    byte_payloads(heap.elements(v->Slice_0))
}

/// The `bytes` functions that take two byte slices and return a scalar.
pub open spec fn takes_two_byte_strings(function: PackageFunction) -> bool {
    match function {
        PackageFunction::BytesCompare | PackageFunction::BytesEqual | PackageFunction::BytesContains
        | PackageFunction::BytesHasPrefix | PackageFunction::BytesHasSuffix
        | PackageFunction::BytesLastIndex => true,
        _ => false,
    }
}

/// What a two-slice `bytes` function returns for the bytes `a` and `b`.
pub open spec fn byte_pair_results(function: PackageFunction, a: Seq<u8>, b: Seq<u8>, results: Seq<Value>) -> bool {
    match function {
        PackageFunction::BytesCompare => results == seq![Value::Integer(lex_compare(a, b) as i64)],
        PackageFunction::BytesEqual => results == seq![Value::Boolean(a == b)],
        PackageFunction::BytesContains => results == seq![Value::Boolean(!never_occurs(a, b))],
        PackageFunction::BytesHasPrefix => results == seq![Value::Boolean(is_prefix(a, b))],
        PackageFunction::BytesHasSuffix => results == seq![Value::Boolean(is_suffix(a, b))],
        PackageFunction::BytesLastIndex => exists|o: Option<usize>| #[trigger] last_search(a, b, o)
            && results == seq![Value::Integer(search_index(o))],
        _ => false,
    }
}

/// Runs a two-slice `bytes` function on the bytes of its arguments.
pub fn byte_pair_function(function: PackageFunction, a: &[u8], b: &[u8]) -> (r: Vec<Value>)
    requires
        takes_two_byte_strings(function),
    ensures
        byte_pair_results(function, a@, b@, r@),
{
    match function {
        PackageFunction::BytesCompare => one_value(Value::Integer(compare_bytes(a, b))),
        PackageFunction::BytesEqual => {
            let c = compare_bytes(a, b);
            proof {
                crate::runtime::byteseq::lemma_lex_compare_zero(a@, b@);
            }
            one_value(Value::Boolean(c == 0))
        },
        PackageFunction::BytesContains => {
            let found = find_first(a, b);
            proof {
                if let Some(i) = found {
                    assert(crate::runtime::byteseq::occurs_at(a@, b@, i as int));
                }
            }
            one_value(Value::Boolean(found.is_some()))
        },
        PackageFunction::BytesHasPrefix => one_value(Value::Boolean(starts_with(a, b))),
        PackageFunction::BytesHasSuffix => one_value(Value::Boolean(ends_with(a, b))),
        _ => {
            let found = last_subslice_index(a, b);
            let r = one_value(Value::Integer(index_or_minus_one(found)));
            assert(last_search(a@, b@, found));
            r
        },
    }
}

/// What `bytes.Cut` returns: when the separator occurs, views before and
/// after its first occurrence and `true`; otherwise the value itself, the
/// nil slice and `false`.
pub open spec fn bytes_cut_results(value: SliceValue, a: Seq<u8>, sep: Seq<u8>, results: Seq<Value>) -> bool {
    results.len() == 3 && exists|o: Option<usize>| #[trigger] first_search(a, sep, o) && match o {
        Some(i) => {
            &&& results[0] matches Value::Slice(before) && before.spec_start() == value.spec_start()
                && before.spec_len() == i
            &&& results[1] matches Value::Slice(after) && after.spec_start() == value.spec_start() + i + sep.len()
                && after.spec_len() == a.len() - i - sep.len()
            &&& results[2] == Value::Boolean(true)
        },
        None => results[0] == Value::Slice(value) && results[1] == Value::Slice(SliceValue::spec_nil())
            && results[2] == Value::Boolean(false),
    }
}

/// The `bytes` functions that drop a prefix or suffix.
pub open spec fn trims_bytes(function: PackageFunction) -> bool {
    match function {
        PackageFunction::BytesCutPrefix | PackageFunction::BytesCutSuffix
        | PackageFunction::BytesTrimPrefix | PackageFunction::BytesTrimSuffix => true,
        _ => false,
    }
}

/// The view left after dropping `affix` from the front (`front`) or back
/// of `value` when it is there; `value` itself otherwise.
pub open spec fn trimmed_view(value: SliceValue, a: Seq<u8>, affix: Seq<u8>, front: bool, t: SliceValue) -> bool {
    if affix.len() == 0 {
        t == value
    } else if front && is_prefix(a, affix) {
        &&& t.spec_start() == value.spec_start() + affix.len()
        &&& t.spec_len() == value.spec_len() - affix.len()
        &&& t.spec_capacity() == value.spec_capacity() - affix.len()
    } else if !front && is_suffix(a, affix) {
        &&& t.spec_start() == value.spec_start()
        &&& t.spec_len() == value.spec_len() - affix.len()
        &&& t.spec_capacity() == value.spec_capacity()
    } else {
        t == value
    }
}

/// Whether a trimming function works at the front.
pub open spec fn trims_front(function: PackageFunction) -> bool {
    function == PackageFunction::BytesCutPrefix || function == PackageFunction::BytesTrimPrefix
}

/// Whether a trimming function also reports whether it found the affix.
pub open spec fn reports_found(function: PackageFunction) -> bool {
    function == PackageFunction::BytesCutPrefix || function == PackageFunction::BytesCutSuffix
}

/// What a trimming `bytes` function returns.
pub open spec fn bytes_trim_results(function: PackageFunction, value: SliceValue, a: Seq<u8>, affix: Seq<u8>, results: Seq<Value>) -> bool {
    let found = if trims_front(function) { is_prefix(a, affix) } else { is_suffix(a, affix) };
    &&& results.len() == (if reports_found(function) { 2int } else { 1int })
    &&& results[0] matches Value::Slice(t) && trimmed_view(value, a, affix, trims_front(function), t)
    &&& reports_found(function) ==> results[1] == Value::Boolean(found)
}

impl VirtualMachine {
    /// `bytes.IndexByte` or, with `last`, `bytes.LastIndexByte`.
    fn bytes_index_byte(&self, function: PackageFunction, first: Value, second: Value, last: bool) -> (r: Result<Vec<Value>, Fault>)
        ensures
            is_byte_slice(self.heap, first) && second is Byte ==> (r matches Ok(results) && exists|o: Option<usize>|
                #![trigger first_byte_search(slice_bytes(self.heap, first), second->Byte_0, o)]
                #![trigger last_byte_search(slice_bytes(self.heap, first), second->Byte_0, o)]
                (if last {
                    last_byte_search(slice_bytes(self.heap, first), second->Byte_0, o)
                } else {
                    first_byte_search(slice_bytes(self.heap, first), second->Byte_0, o)
                }) && results@ == seq![Value::Integer(search_index(o))]),
            !(first is Slice && second is Byte) ==> r is Err,
            r is Err ==> r matches Err(Fault::Error(_)),
    {
        let bytes = expect_byte_slice_argument(&self.heap, function, 1, first)?;
        let needle = expect_byte_argument(function, 2, second)?;
        let found = if last {
            rfind_byte(bytes.as_slice(), needle)
        } else {
            find_byte(bytes.as_slice(), needle)
        };
        let results = one_value(Value::Integer(index_or_minus_one(found)));
        proof {
            assert(bytes@ == slice_bytes(self.heap, first));
            if last {
                assert(last_byte_search(slice_bytes(self.heap, first), second->Byte_0, found));
            } else {
                assert(first_byte_search(slice_bytes(self.heap, first), second->Byte_0, found));
            }
        }
        Ok(results)
    }

    /// `bytes.Index`: an empty needle is found at 0 without reading the
    /// value's elements.
    fn bytes_index(&self, function: PackageFunction, first: Value, second: Value) -> (r: Result<Vec<Value>, Fault>)
        ensures
            is_byte_slice(self.heap, first) && is_byte_slice(self.heap, second) ==> (r matches Ok(results)
                && exists|o: Option<usize>| #[trigger] first_search(slice_bytes(self.heap, first), slice_bytes(self.heap, second), o)
                    && results@ == seq![Value::Integer(search_index(o))]),
            !(first is Slice && second is Slice) ==> r is Err,
            r is Err ==> r matches Err(Fault::Error(_)),
    {
        let value = expect_byte_slice_value(function, 1, first)?;
        let needle = expect_byte_slice_argument(&self.heap, function, 2, second)?;
        if !self.heap.check_slice(&value) {
            return Err(error_message("invalid slice handle"));
        }
        match value.byte_index_of(&self.heap, needle.as_slice()) {
            Ok(found) => {
                let results = one_value(Value::Integer(index_or_minus_one(found)));
                proof {
                    if needle@.len() == 0 {
                        assert(found == Some(0usize));
                        assert(slice_bytes(self.heap, first).subrange(0, 0) =~= needle@);
                    }
                    assert(first_search(slice_bytes(self.heap, first), slice_bytes(self.heap, second), found));
                }
                Ok(results)
            },
            Err(()) => Err(argument_kind_error(1, function, "[]byte", "a non-byte slice")),
        }
    }

    /// `bytes.Cut`.
    fn bytes_cut(&self, function: PackageFunction, first: Value, second: Value) -> (r: Result<Vec<Value>, Fault>)
        ensures
            is_byte_slice(self.heap, first) && is_byte_slice(self.heap, second) ==> (r matches Ok(results)
                && bytes_cut_results(first->Slice_0, slice_bytes(self.heap, first), slice_bytes(self.heap, second), results@)),
            !(first is Slice && second is Slice) ==> r is Err,
            r is Err ==> r matches Err(Fault::Error(_)),
    {
        let value = expect_byte_slice_value(function, 1, first)?;
        let separator = expect_byte_slice_argument(&self.heap, function, 2, second)?;
        if !self.heap.check_slice(&value) {
            return Err(error_message("invalid slice handle"));
        }
        let bytes = match value.byte_elements(&self.heap) {
            Ok(b) => b,
            Err(()) => {
                return Err(argument_kind_error(1, function, "[]byte", "a non-byte slice"));
            },
        };
        let found = find_first(bytes.as_slice(), separator.as_slice());
        match found {
            Some(index) => {
                assert(crate::runtime::byteseq::occurs_at(bytes@, separator@, index as int));
                let total = bytes.len();
                let end = index + separator.len();
                let before = match value.slice(0, index) {
                    Ok(s) => s,
                    Err(()) => {
                        return Err(error_message("bytes.Cut produced an invalid prefix slice"));
                    },
                };
                let after = match value.slice(end, value.len()) {
                    Ok(s) => s,
                    Err(()) => {
                        return Err(error_message("bytes.Cut produced an invalid suffix slice"));
                    },
                };
                let results = three_values(Value::Slice(before), Value::Slice(after), Value::Boolean(true));
                assert(first_search(slice_bytes(self.heap, first), slice_bytes(self.heap, second), found));
                Ok(results)
            },
            None => {
                let results = three_values(Value::Slice(value), Value::Slice(SliceValue::nil()), Value::Boolean(false));
                assert(first_search(slice_bytes(self.heap, first), slice_bytes(self.heap, second), found));
                Ok(results)
            },
        }
    }

    /// `bytes.CutPrefix`, `bytes.CutSuffix`, `bytes.TrimPrefix` and
    /// `bytes.TrimSuffix`: the results are views onto the value's storage.
    fn bytes_trim(&self, function: PackageFunction, first: Value, second: Value) -> (r: Result<Vec<Value>, Fault>)
        requires
            trims_bytes(function),
        ensures
            is_byte_slice(self.heap, first) && is_byte_slice(self.heap, second) ==> (r matches Ok(results)
                && bytes_trim_results(function, first->Slice_0, slice_bytes(self.heap, first), slice_bytes(self.heap, second), results@)),
            !(first is Slice && second is Slice) ==> r is Err,
            r is Err ==> r matches Err(Fault::Error(_)),
    {
        let value = expect_byte_slice_value(function, 1, first)?;
        let affix = expect_byte_slice_argument(&self.heap, function, 2, second)?;
        if !self.heap.check_slice(&value) {
            return Err(error_message("invalid slice handle"));
        }
        let front = function == PackageFunction::BytesCutPrefix || function == PackageFunction::BytesTrimPrefix;
        let trimmed = if front {
            value.trim_byte_prefix(&self.heap, affix.as_slice())
        } else {
            value.trim_byte_suffix(&self.heap, affix.as_slice())
        };
        let t = match trimmed {
            Ok(t) => t,
            Err(()) => {
                return Err(argument_kind_error(1, function, "[]byte", "a non-byte slice"));
            },
        };
        let found = if affix.len() == 0 {
            true
        } else if front {
            match value.has_byte_prefix(&self.heap, affix.as_slice()) {
                Ok(b) => b,
                Err(()) => false,
            }
        } else {
            match value.has_byte_suffix(&self.heap, affix.as_slice()) {
                Ok(b) => b,
                Err(()) => false,
            }
        };
        proof {
            if affix@.len() == 0 {
                let a = slice_bytes(self.heap, first);
                assert(a.subrange(0, 0) =~= affix@);
                assert(a.subrange(a.len() as int, a.len() as int) =~= affix@);
            }
        }
        if function == PackageFunction::BytesCutPrefix || function == PackageFunction::BytesCutSuffix {
            Ok(two_values(Value::Slice(t), Value::Boolean(found)))
        } else {
            Ok(one_value(Value::Slice(t)))
        }
    }
}

} // verus!

verus! {

/// The `bytes` functions.
pub open spec fn is_bytes_function(function: PackageFunction) -> bool {
    takes_two_byte_strings(function) || trims_bytes(function) || function == PackageFunction::BytesClone
        || function == PackageFunction::BytesIndex || function == PackageFunction::BytesIndexByte
        || function == PackageFunction::BytesLastIndexByte || function == PackageFunction::BytesCut
        || function == PackageFunction::BytesJoin || function == PackageFunction::BytesRepeat
}

/// The number of arguments a `bytes` function takes.
pub open spec fn bytes_arity(function: PackageFunction) -> nat {
    if function == PackageFunction::BytesClone { 1 } else { 2 }
}

/// `t` is a fresh slice at the end of the cells: `after` is `before` with
/// the elements of `t` added after the cells, and the same channels and
/// maps.
pub open spec fn allocated_slice(before: Heap, after: Heap, t: SliceValue) -> bool {
    &&& t.spec_start() == before.cells_view().len()
    &&& t.spec_capacity() == t.spec_len()
    &&& after.cells_view() == before.cells_view() + after.elements(t)
    &&& after.channels_same(before)
    &&& after.maps_same(before)
}

/// The `bytes` functions that return a fresh slice.
pub open spec fn allocates_bytes(function: PackageFunction) -> bool {
    function == PackageFunction::BytesClone || function == PackageFunction::BytesRepeat
        || function == PackageFunction::BytesJoin
}

impl VirtualMachine {
    /// `bytes.Clone`: nil for nil, otherwise a fresh slice holding the same
    /// bytes.
    fn bytes_clone(&mut self, function: PackageFunction, first: Value) -> (r: Result<Vec<Value>, Fault>)
        requires
            old(self).heap.wf(),
        ensures
            final(self).heap.wf(),
            only_heap_changed(*final(self), *old(self)),
            is_byte_slice(old(self).heap, first) ==> {
                &&& r is Ok
                &&& r->Ok_0@.len() == 1
                &&& r->Ok_0@[0] is Slice
                &&& final(self).heap.slice_ok(r->Ok_0@[0]->Slice_0)
                &&& first->Slice_0.spec_is_nil() ==> r->Ok_0@[0]->Slice_0 == SliceValue::spec_nil()
                &&& !first->Slice_0.spec_is_nil() ==> !r->Ok_0@[0]->Slice_0.spec_is_nil()
                    && final(self).heap.elements(r->Ok_0@[0]->Slice_0) == byte_values(slice_bytes(old(self).heap, first))
            },
            !(first is Slice) ==> r is Err,
            r is Err ==> r matches Err(Fault::Error(_)),
            r is Err || first->Slice_0.spec_is_nil() ==> final(self).heap == old(self).heap,
            r is Ok && !first->Slice_0.spec_is_nil() ==> allocated_slice(old(self).heap, final(self).heap, r->Ok_0@[0]->Slice_0),
    {
        let value = expect_byte_slice_value(function, 1, first)?;
        if !self.heap.check_slice(&value) {
            return Err(error_message("invalid slice handle"));
        }
        let bytes = match value.byte_elements(&self.heap) {
            Ok(b) => b,
            Err(()) => {
                return Err(argument_kind_error(1, function, "[]byte", "a non-byte slice"));
            },
        };
        if value.is_nil() {
            return Ok(one_value(Value::Slice(SliceValue::nil())));
        }
        let ghost before = self.heap;
        let copy = SliceValue::from_bytes(&mut self.heap, bytes.as_slice());
        proof {
            before.lemma_wf_maps_same(self.heap);
        }
        Ok(one_value(Value::Slice(copy)))
    }

    /// `bytes.Join`: a fresh slice holding the parts with the separator
    /// between neighbours.
    fn bytes_join(&mut self, function: PackageFunction, first: Value, second: Value) -> (r: Result<Vec<Value>, Fault>)
        requires
            old(self).heap.wf(),
        ensures
            final(self).heap.wf(),
            only_heap_changed(*final(self), *old(self)),
            r is Ok ==> {
                let t = r->Ok_0@[0]->Slice_0;
                let s = first->Slice_0;
                &&& r->Ok_0@.len() == 1
                &&& r->Ok_0@[0] is Slice
                &&& final(self).heap.slice_ok(t)
                &&& is_byte_slice(old(self).heap, second)
                &&& first is Slice
                &&& old(self).heap.slice_ok(s)
                &&& exists|parts: Seq<Seq<u8>>| #[trigger] join_seqs(parts, slice_bytes(old(self).heap, second)) == byte_payloads(final(self).heap.elements(t))
                    && parts.len() == old(self).heap.elements(s).len()
                    && forall|i: int| 0 <= i < parts.len() ==> (#[trigger] old(self).heap.elements(s)[i] matches Value::Slice(e)
                        && old(self).heap.slice_ok(e) && all_bytes(old(self).heap.elements(e))
                        && parts[i] == byte_payloads(old(self).heap.elements(e)))
            },
            r is Ok <==> (first matches Value::Slice(s) && old(self).heap.slice_ok(s)
                && all_byte_slices(old(self).heap, old(self).heap.elements(s)) && is_byte_slice(old(self).heap, second)),
            r is Err ==> r matches Err(Fault::Error(_)),
            r is Err ==> final(self).heap == old(self).heap,
            r matches Ok(vs) ==> allocated_slice(old(self).heap, final(self).heap, vs@[0]->Slice_0),
    {
        let parts = crate::runtime::vm::support::expect_byte_slice_slice_argument(&self.heap, function, 1, first)?;
        let separator = expect_byte_slice_argument(&self.heap, function, 2, second)?;
        let joined = join_byte_parts(&parts, separator.as_slice());
        let ghost before = self.heap;
        let result = SliceValue::from_bytes(&mut self.heap, joined.as_slice());
        proof {
            before.lemma_wf_maps_same(self.heap);
            let views = parts@.map_values(|p: Vec<u8>| p@);
            assert(byte_payloads(self.heap.elements(result)) =~= joined@);
            assert(views.len() == before.elements(first->Slice_0).len());
            assert forall|i: int| 0 <= i < views.len() implies (#[trigger] before.elements(first->Slice_0)[i] matches Value::Slice(e)
                && before.slice_ok(e) && all_bytes(before.elements(e)) && views[i] == byte_payloads(before.elements(e))) by {
                assert(views[i] == parts@[i]@);
            }
            assert(join_seqs(views, slice_bytes(before, second)) == byte_payloads(self.heap.elements(result)));
        }
        Ok(one_value(Value::Slice(result)))
    }

    /// `bytes.Repeat`: a fresh slice holding the bytes `count` times; fails
    /// for a negative count or a result longer than the address space.
    fn bytes_repeat(&mut self, function: PackageFunction, first: Value, second: Value) -> (r: Result<Vec<Value>, Fault>)
        requires
            old(self).heap.wf(),
        ensures
            final(self).heap.wf(),
            only_heap_changed(*final(self), *old(self)),
            is_byte_slice(old(self).heap, first) && second is Integer ==> ({
                let a = slice_bytes(old(self).heap, first);
                let n = second->Integer_0;
                if n < 0 || n * a.len() > usize::MAX {
                    r is Err
                } else {
                    &&& r is Ok
                    &&& r->Ok_0@.len() == 1
                    &&& r->Ok_0@[0] is Slice
                    &&& final(self).heap.slice_ok(r->Ok_0@[0]->Slice_0)
                    &&& final(self).heap.elements(r->Ok_0@[0]->Slice_0) == byte_values(repeat_seq(a, n as nat))
                }
            }),
            !(first is Slice && second is Integer) ==> r is Err,
            r is Err ==> r matches Err(Fault::Error(_)),
            r is Err ==> final(self).heap == old(self).heap,
            r matches Ok(vs) ==> allocated_slice(old(self).heap, final(self).heap, vs@[0]->Slice_0),
    {
        let bytes = expect_byte_slice_argument(&self.heap, function, 1, first)?;
        let count = expect_integer_argument(function, 2, second)?;
        if count < 0 {
            let mut message = String::new();
            push_str(&mut message, "package function `");
            push_str(&mut message, function.render());
            push_str(&mut message, "` requires a non-negative repeat count");
            return Err(Fault::Error(message));
        }
        let length = bytes.len();
        let times: usize = if length == 0 {
            0
        } else if count as u64 > (usize::MAX / length) as u64 {
            let mut message = String::new();
            push_str(&mut message, "package function `");
            push_str(&mut message, function.render());
            push_str(&mut message, "` overflowed the repeated byte slice size");
            proof {
                let m: int = usize::MAX as int;
                let l: int = length as int;
                let c: int = count as int;
                let q: int = m / l;
                assert(c * l > m) by (nonlinear_arith)
                    requires c >= q + 1, l > 0, q == m / l, m >= 0;
            }
            return Err(Fault::Error(message));
        } else {
            proof {
                let m: int = usize::MAX as int;
                let l: int = length as int;
                let c: int = count as int;
                let q: int = m / l;
                assert(c * l <= m) by (nonlinear_arith)
                    requires c <= q, c >= 0, l > 0, q == m / l, m >= 0;
                assert(c <= m) by (nonlinear_arith)
                    requires c * l <= m, c >= 0, l > 0;
            }
            count as usize
        };
        let repeated = repeat_bytes(bytes.as_slice(), times);
        proof {
            if length == 0 {
                crate::runtime::byteseq::lemma_repeat_empty(count as nat);
                crate::runtime::byteseq::lemma_repeat_empty(0);
                assert(bytes@ =~= Seq::<u8>::empty());
            } else {
                assert(times as nat == count as nat);
            }
            assert(repeated@ == repeat_seq(slice_bytes(self.heap, first), count as nat));
        }
        let ghost before = self.heap;
        let result = SliceValue::from_bytes(&mut self.heap, repeated.as_slice());
        proof {
            before.lemma_wf_maps_same(self.heap);
        }
        Ok(one_value(Value::Slice(result)))
    }
}

} // verus!

verus! {

impl VirtualMachine {
    /// Runs a `bytes` function on evaluated arguments.
    pub(super) fn execute_bytes_function(&mut self, function: PackageFunction, arguments: Vec<Value>) -> (r: Result<Vec<Value>, Fault>)
        requires
            old(self).heap.wf(),
            is_bytes_function(function),
        ensures
            execute_bytes_function_done(*old(self), *final(self), function, arguments, r),
    {
        check_package_arity(function, arguments.len(), if function == PackageFunction::BytesClone { 1 } else { 2 })?;
        if function == PackageFunction::BytesClone {
            return self.bytes_clone(function, take_one(arguments));
        }
        let (first, second) = take_two(arguments);
        match function {
            PackageFunction::BytesIndex => self.bytes_index(function, first, second),
            PackageFunction::BytesIndexByte => self.bytes_index_byte(function, first, second, false),
            PackageFunction::BytesLastIndexByte => self.bytes_index_byte(function, first, second, true),
            PackageFunction::BytesCut => self.bytes_cut(function, first, second),
            PackageFunction::BytesCutPrefix | PackageFunction::BytesCutSuffix
            | PackageFunction::BytesTrimPrefix | PackageFunction::BytesTrimSuffix => {
                self.bytes_trim(function, first, second)
            },
            PackageFunction::BytesJoin => self.bytes_join(function, first, second),
            PackageFunction::BytesRepeat => self.bytes_repeat(function, first, second),
            _ => {
                let a = expect_byte_slice_argument(&self.heap, function, 1, first)?;
                let b = expect_byte_slice_argument(&self.heap, function, 2, second)?;
                Ok(byte_pair_function(function, a.as_slice(), b.as_slice()))
            },
        }
    }

    /// Runs a package function on evaluated arguments and returns its
    /// results. `fmt.Print` writes the arguments' texts back to back,
    /// `fmt.Println` separates them with spaces and ends the line, and
    /// `fmt.Sprint` returns what `fmt.Print` would write.
    pub(super) fn execute_package_function(&mut self, function: PackageFunction, arguments: Vec<Value>) -> (r: Result<Vec<Value>, Fault>)
        requires
            old(self).heap.wf(),
        ensures
            execute_package_function_done(*old(self), *final(self), function, arguments, r),
    {
        match function {
            PackageFunction::FmtPrint => {
                let text = render_arguments(&self.heap, arguments.as_slice(), "");
                push_str(&mut self.output, text.as_str());
                Ok(Vec::new())
            },
            PackageFunction::FmtPrintln => {
                let text = render_arguments(&self.heap, arguments.as_slice(), " ");
                push_str(&mut self.output, text.as_str());
                push_str(&mut self.output, "\n");
                Ok(Vec::new())
            },
            PackageFunction::FmtSprint => {
                let text = render_arguments(&self.heap, arguments.as_slice(), "");
                Ok(one_value(Value::String(StringValue::from(text.as_str()))))
            },
            PackageFunction::StringsCompare | PackageFunction::StringsClone
            | PackageFunction::StringsContains | PackageFunction::StringsHasPrefix
            | PackageFunction::StringsHasSuffix | PackageFunction::StringsIndex
            | PackageFunction::StringsLastIndex | PackageFunction::StringsIndexByte
            | PackageFunction::StringsLastIndexByte | PackageFunction::StringsCut
            | PackageFunction::StringsCutPrefix | PackageFunction::StringsCutSuffix
            | PackageFunction::StringsTrimPrefix | PackageFunction::StringsTrimSuffix
            | PackageFunction::StringsJoin | PackageFunction::StringsRepeat => {
                self.execute_strings_function(function, arguments)
            },
            _ => self.execute_bytes_function(function, arguments),
        }
    }
}

} // verus!
