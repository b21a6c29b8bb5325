//! The builtin functions: printing, lengths, copying, appending, deleting,
//! closing and clearing.

use vstd::prelude::*;

use crate::builtin::{builtin_name, BuiltinFunction};
use crate::runtime::value::{entries_after_remove, seq_equiv, ChannelCloseError, Heap, MapKey, SliceValue, Value};
use crate::runtime::vm::support::{arguments_text, builtin_arity_text, check_builtin_arity, render_arguments};
use crate::runtime::vm::{error_message, key_of_value, only_heap_changed, value_to_key, Fault, VirtualMachine};
use crate::text::push_str;

verus! {

/// The length that `len` reports for a value; `None` for a value without
/// one.
pub open spec fn length_of(heap: Heap, v: Value) -> Option<int> {
    match v {
        Value::String(s) => Some(s@.len() as int),
        Value::Slice(s) => Some(s.spec_len() as int),
        Value::Chan(c) => Some(heap.channel_buffer(c).len() as int),
        Value::Mapping(m) => Some(heap.map_entries(m).len() as int),
        _ => None,
    }
}

/// The capacity that `cap` reports for a value; `None` for a value without
/// one.
pub open spec fn capacity_of(heap: Heap, v: Value) -> Option<int> {
    match v {
        Value::Slice(s) => Some(s.spec_capacity() as int),
        Value::Chan(c) => Some(heap.channel_capacity(c) as int),
        _ => None,
    }
}

/// Whether the handle that `v` holds, if it is a channel or a map, refers
/// to the heap.
pub open spec fn handle_ok(heap: Heap, v: Value) -> bool {
    match v {
        Value::Chan(c) => heap.channel_ok(c),
        Value::Mapping(m) => heap.map_ok(m),
        _ => true,
    }
}

/// The number of elements `copy` moves into `destination` from `source`.
pub open spec fn copy_count(destination: SliceValue, source: Value) -> int {
    let available = match source {
        Value::Slice(s) => s.spec_len() as int,
        Value::String(s) => s@.len() as int,
        _ => 0,
    };
    if (destination.spec_len() as int) < available {
        destination.spec_len() as int
    } else {
        available
    }
}

/// `v` is what `copy` puts at position `i` of the destination: element `i`
/// of a source slice, or byte `i` of a source string.
pub open spec fn copied_element(heap: Heap, source: Value, i: int, v: Value) -> bool {
    match source {
        Value::Slice(s) => v.equiv(heap.elements(s)[i]),
        Value::String(s) => v == Value::Byte(s@[i]),
        _ => false,
    }
}

/// The one value of a successful call that returns one, as the result of
/// the builtin.
pub open spec fn single_result(r: Result<Vec<Value>, Fault>) -> Result<Value, Fault> {
    match r {
        Ok(vs) => Ok(vs@[0]),
        Err(e) => Err(e),
    }
}

/// A call that returns nothing, as the result of the builtin.
pub open spec fn unit_result(r: Result<Vec<Value>, Fault>) -> Result<(), Fault> {
    match r {
        Ok(_) => Ok(()),
        Err(e) => Err(e),
    }
}

/// What `len(argument)` gives.
pub open spec fn builtin_len_done(heap: Heap, argument: Value, r: Result<Value, Fault>) -> bool {
    &&& (r is Ok <==> (length_of(heap, argument) is Some && handle_ok(heap, argument)))
    &&& (r matches Ok(v) ==> v == Value::Integer(length_of(heap, argument)->Some_0 as i64))
    &&& (r is Err ==> r matches Err(Fault::Error(_)))
    &&& (length_of(heap, argument) is None ==> (r matches Err(Fault::Error(m))
        && m@ == "builtin `len` expected a string, slice, chan, or map argument"@))
}

/// What `cap(argument)` gives.
pub open spec fn builtin_cap_done(heap: Heap, argument: Value, r: Result<Value, Fault>) -> bool {
    &&& (r is Ok <==> (capacity_of(heap, argument) is Some && handle_ok(heap, argument)))
    &&& (r matches Ok(v) ==> v == Value::Integer(capacity_of(heap, argument)->Some_0 as i64))
    &&& (r is Err ==> r matches Err(Fault::Error(_)))
    &&& (capacity_of(heap, argument) is None ==> (r matches Err(Fault::Error(m))
        && m@ == "builtin `cap` expected a slice or chan argument"@))
}

/// What `copy(destination, source)` does: the first `copy_count` elements
/// of the destination become those of the source, every other cell stays,
/// and the count is the result.
pub open spec fn builtin_copy_done(before: VirtualMachine, after: VirtualMachine, destination: Value, source: Value, r: Result<Value, Fault>) -> bool {
    &&& after.heap.wf()
    &&& only_heap_changed(after, before)
    &&& (r is Ok <==> (destination matches Value::Slice(d) && before.heap.slice_ok(d)
        && ((source matches Value::Slice(s) && before.heap.slice_ok(s)) || source is String)))
    &&& (r is Err ==> after.heap == before.heap && r matches Err(Fault::Error(_)))
    &&& (!(destination is Slice) ==> (r matches Err(Fault::Error(m))
        && m@ == "builtin `copy` expected a slice as argument 1"@))
    &&& (destination matches Value::Slice(d) && before.heap.slice_ok(d) && !(source is Slice) && !(source is String)
        ==> (r matches Err(Fault::Error(m)) && m@ == "builtin `copy` expected a slice or string as argument 2"@))
    &&& (r is Ok ==> {
        let d = destination->Slice_0;
        let n = copy_count(d, source);
        &&& r->Ok_0 == Value::Integer(n as i64)
        &&& after.heap.cells_view().len() == before.heap.cells_view().len()
        &&& after.heap.channels_same(before.heap)
        &&& after.heap.maps_same(before.heap)
        &&& forall|k: int| #![trigger after.heap.cells_view()[k]] d.spec_start() <= k < d.spec_start() + n
            ==> copied_element(before.heap, source, k - d.spec_start(), after.heap.cells_view()[k])
        &&& forall|k: int| #![trigger after.heap.cells_view()[k]] 0 <= k < before.heap.cells_view().len()
            && !(d.spec_start() <= k < d.spec_start() + n) ==> after.heap.cells_view()[k] == before.heap.cells_view()[k]
    })
}

/// What `append(first, rest...)` does: the result shows the old elements
/// followed by the new ones; it shares the old storage while the capacity
/// suffices, and is a fresh exact-size copy otherwise.
pub open spec fn builtin_append_done(before: VirtualMachine, after: VirtualMachine, first: Value, rest: Seq<Value>, r: Result<Value, Fault>) -> bool {
    &&& after.heap.wf()
    &&& only_heap_changed(after, before)
    &&& (r is Ok <==> (first matches Value::Slice(s) && before.heap.slice_ok(s) && s.spec_len() + rest.len() <= usize::MAX))
    &&& (r is Err ==> after.heap == before.heap && r matches Err(Fault::Error(_)))
    &&& (!(first is Slice) ==> (r matches Err(Fault::Error(m))
        && m@ == "builtin `append` expected a slice as the first argument"@))
    &&& (first matches Value::Slice(s) && before.heap.slice_ok(s) && s.spec_len() + rest.len() > usize::MAX
        ==> (r matches Err(Fault::Error(m)) && m@ == "builtin `append` overflowed the slice length"@))
    &&& (r is Ok ==> {
        let s = first->Slice_0;
        let t = r->Ok_0->Slice_0;
        &&& r->Ok_0 is Slice
        &&& after.heap.slice_ok(t)
        &&& after.heap.channels_same(before.heap)
        &&& after.heap.maps_same(before.heap)
        &&& seq_equiv(after.heap.elements(t), before.heap.elements(s) + rest)
        &&& (rest.len() == 0 ==> t == s && after.heap.cells_view() == before.heap.cells_view())
        &&& (rest.len() > 0 ==> t.spec_len() == s.spec_len() + rest.len() && !t.spec_is_nil())
        &&& (rest.len() > 0 && s.spec_len() + rest.len() <= s.spec_capacity() ==> {
            &&& t.spec_start() == s.spec_start()
            &&& t.spec_capacity() == s.spec_capacity()
            &&& after.heap.cells_view().len() == before.heap.cells_view().len()
            &&& forall|k: int| #![trigger after.heap.cells_view()[k]] 0 <= k < before.heap.cells_view().len()
                && !(s.spec_start() + s.spec_len() <= k < s.spec_start() + t.spec_len())
                ==> after.heap.cells_view()[k] == before.heap.cells_view()[k]
        })
        &&& (rest.len() > 0 && s.spec_len() + rest.len() > s.spec_capacity() ==> {
            &&& t.spec_start() == before.heap.cells_view().len()
            &&& t.spec_capacity() == t.spec_len()
            &&& after.heap.cells_view() == before.heap.cells_view() + after.heap.elements(t)
        })
    })
}

/// What `delete(target, key)` does: the key's entry leaves the map, if it
/// had one, and nothing else changes.
pub open spec fn builtin_delete_done(before: VirtualMachine, after: VirtualMachine, target: Value, key: Value, r: Result<(), Fault>) -> bool {
    &&& after.heap.wf()
    &&& only_heap_changed(after, before)
    &&& (r is Ok <==> (target matches Value::Mapping(m) && key_of_value(key) is Some && before.heap.map_ok(m)))
    &&& (r is Ok ==> after.heap.only_map_changed(before.heap, target->Mapping_0) && entries_after_remove(
        before.heap.map_entries(target->Mapping_0),
        after.heap.map_entries(target->Mapping_0),
        key_of_value(key)->Some_0,
    ))
    &&& (r is Err ==> after.heap == before.heap && r matches Err(Fault::Error(_)))
    &&& (!(target is Mapping) ==> (r matches Err(Fault::Error(m)) && m@ == "builtin `delete` expected a map as argument 1"@))
    &&& (target is Mapping && key_of_value(key) is None ==> (r matches Err(Fault::Error(m))
        && m@ == "builtin `delete` expected a comparable scalar key as argument 2"@))
}

/// What `close(target)` does: a channel that is open becomes closed;
/// closing the nil channel or a closed one fails.
pub open spec fn builtin_close_done(before: VirtualMachine, after: VirtualMachine, target: Value, r: Result<(), Fault>) -> bool {
    &&& after.heap.wf()
    &&& only_heap_changed(after, before)
    &&& (r is Ok <==> (target matches Value::Chan(c) && before.heap.channel_ok(c) && !c.spec_is_nil()
        && !before.heap.channel_closed(c)))
    &&& (target is Chan && before.heap.channel_ok(target->Chan_0) ==> {
        let c = target->Chan_0;
        &&& after.heap.only_channel_changed(before.heap, c)
        &&& after.heap.channel_buffer(c) == before.heap.channel_buffer(c)
        &&& !c.spec_is_nil() ==> after.heap.channel_closed(c)
    })
    &&& (r is Err ==> r matches Err(Fault::Error(_)))
    &&& (!(target is Chan) ==> after.heap == before.heap && (r matches Err(Fault::Error(m))
        && m@ == "builtin `close` expected a chan as argument 1"@))
    &&& (target matches Value::Chan(c) && c.spec_is_nil() ==> (r matches Err(Fault::Error(m)) && m@ == "close of nil channel"@))
    &&& (target matches Value::Chan(c) && before.heap.channel_ok(c) && !c.spec_is_nil() && before.heap.channel_closed(c)
        ==> (r matches Err(Fault::Error(m)) && m@ == "close of closed channel"@))
}

/// What `clear(target)` does: a map loses every entry; the visible elements
/// of a slice become zero values and every other cell stays.
pub open spec fn builtin_clear_done(before: VirtualMachine, after: VirtualMachine, target: Value, r: Result<(), Fault>) -> bool {
    &&& after.heap.wf()
    &&& only_heap_changed(after, before)
    &&& (r is Ok <==> ((target matches Value::Slice(s) && before.heap.slice_ok(s))
        || (target matches Value::Mapping(m) && before.heap.map_ok(m))))
    &&& (r is Ok ==> (target matches Value::Mapping(m) ==> after.heap.only_map_changed(before.heap, m)
        && after.heap.map_entries(m) == Seq::<(MapKey, Value)>::empty()))
    &&& (r is Ok ==> (target matches Value::Slice(s) ==> {
        &&& after.heap.cells_view().len() == before.heap.cells_view().len()
        &&& after.heap.channels_same(before.heap)
        &&& after.heap.maps_same(before.heap)
        &&& forall|k: int| #![trigger after.heap.cells_view()[k]] s.spec_start() <= k < s.spec_start() + s.spec_len()
            ==> before.heap.cells_view()[k].zero_like(after.heap.cells_view()[k])
        &&& forall|k: int| #![trigger after.heap.cells_view()[k]] 0 <= k < before.heap.cells_view().len()
            && !(s.spec_start() <= k < s.spec_start() + s.spec_len()) ==> after.heap.cells_view()[k] == before.heap.cells_view()[k]
    }))
    &&& (r is Err ==> after.heap == before.heap && r matches Err(Fault::Error(_)))
    &&& (!(target is Slice) && !(target is Mapping) ==> (r matches Err(Fault::Error(m))
        && m@ == "builtin `clear` expected a slice or map argument"@))
}

/// The one argument of a call checked to have exactly one.
pub fn take_one(arguments: Vec<Value>) -> (r: Value)
    requires
        arguments@.len() == 1,
    ensures
        r == arguments@[0],
{
    let mut rest = arguments;
    match rest.pop() {
        Some(v) => v,
        None => Value::Integer(0),
    }
}

/// The two arguments of a call checked to have exactly two.
pub fn take_two(arguments: Vec<Value>) -> (r: (Value, Value))
    requires
        arguments@.len() == 2,
    ensures
        r.0 == arguments@[0],
        r.1 == arguments@[1],
{
    let mut rest = arguments;
    let second = match rest.pop() {
        Some(v) => v,
        None => Value::Integer(0),
    };
    let first = match rest.pop() {
        Some(v) => v,
        None => Value::Integer(0),
    };
    (first, second)
}

/// What `execute_builtin_call` does, as its contract states.
pub open spec fn execute_builtin_call_done(before_vm: VirtualMachine, after_vm: VirtualMachine, builtin: BuiltinFunction, arguments: Vec<Value>, r: Result<Vec<Value>, Fault>) -> bool {
    &&& (after_vm.heap.wf())
    &&& (after_vm.stack@ == before_vm.stack@)
    &&& (after_vm.frames@ == before_vm.frames@)
    &&& (after_vm.pending_panic == before_vm.pending_panic)
    &&& (after_vm.panic_depth == before_vm.panic_depth)
    &&& (builtin == BuiltinFunction::Print ==> (r matches Ok(vs) && vs@.len() == 0)
        && after_vm.output@ == before_vm.output@ + arguments_text(before_vm.heap, arguments@, " "@))
    &&& (builtin == BuiltinFunction::Println ==> (r matches Ok(vs) && vs@.len() == 0)
        && after_vm.output@ == before_vm.output@ + arguments_text(before_vm.heap, arguments@, " "@) + "\n"@)
    &&& (builtin != BuiltinFunction::Print && builtin != BuiltinFunction::Println ==> after_vm.output@ == before_vm.output@)
    &&& ((builtin == BuiltinFunction::Len || builtin == BuiltinFunction::Cap || builtin == BuiltinFunction::Copy
        || builtin == BuiltinFunction::Append) && r is Ok ==> r->Ok_0@.len() == 1)
    &&& ((builtin == BuiltinFunction::Delete || builtin == BuiltinFunction::Close || builtin == BuiltinFunction::Clear)
        && r is Ok ==> r->Ok_0@.len() == 0)
    &&& ((builtin == BuiltinFunction::Print || builtin == BuiltinFunction::Println || builtin == BuiltinFunction::Len
        || builtin == BuiltinFunction::Cap || builtin == BuiltinFunction::Make || builtin == BuiltinFunction::Panic)
        ==> after_vm.heap == before_vm.heap)
    &&& (r is Err ==> after_vm.heap == before_vm.heap || builtin == BuiltinFunction::Close)
    &&& (builtin == BuiltinFunction::Len && arguments@.len() == 1 ==> builtin_len_done(before_vm.heap, arguments@[0], single_result(r)))
    &&& (builtin == BuiltinFunction::Cap && arguments@.len() == 1 ==> builtin_cap_done(before_vm.heap, arguments@[0], single_result(r)))
    &&& (builtin == BuiltinFunction::Copy && arguments@.len() == 2 ==> builtin_copy_done(
        before_vm, after_vm, arguments@[0], arguments@[1], single_result(r)))
    &&& (builtin == BuiltinFunction::Append && arguments@.len() == 0 ==> (r matches Err(Fault::Error(m))
        && m@ == "builtin `append` expected at least 1 argument"@))
    &&& (builtin == BuiltinFunction::Append && arguments@.len() > 0 ==> builtin_append_done(
        before_vm, after_vm, arguments@[0], arguments@.subrange(1, arguments@.len() as int), single_result(r)))
    &&& (builtin == BuiltinFunction::Delete && arguments@.len() == 2 ==> builtin_delete_done(
        before_vm, after_vm, arguments@[0], arguments@[1], unit_result(r)))
    &&& (builtin == BuiltinFunction::Close && arguments@.len() == 1 ==> builtin_close_done(
        before_vm, after_vm, arguments@[0], unit_result(r)))
    &&& (builtin == BuiltinFunction::Clear && arguments@.len() == 1 ==> builtin_clear_done(
        before_vm, after_vm, arguments@[0], unit_result(r)))
    &&& ((builtin == BuiltinFunction::Len || builtin == BuiltinFunction::Cap || builtin == BuiltinFunction::Close
        || builtin == BuiltinFunction::Clear) && arguments@.len() != 1 ==> (r matches Err(Fault::Error(m))
        && m@ == builtin_arity_text(builtin_name(builtin)@, 1, arguments@.len() as nat)))
    &&& ((builtin == BuiltinFunction::Copy || builtin == BuiltinFunction::Delete) && arguments@.len() != 2
        ==> (r matches Err(Fault::Error(m)) && m@ == builtin_arity_text(builtin_name(builtin)@, 2, arguments@.len() as nat)))
    &&& (builtin == BuiltinFunction::Make || builtin == BuiltinFunction::Panic ==> r is Err)
    &&& (r is Err ==> r matches Err(Fault::Error(_)))
}

impl VirtualMachine {
    /// `len(v)`.
    fn builtin_len(&self, argument: Value) -> (r: Result<Value, Fault>)
        ensures
            builtin_len_done(self.heap, argument, r),
    {
        match argument {
            Value::String(s) => Ok(Value::Integer(s.len() as i64)),
            Value::Slice(s) => Ok(Value::Integer(s.len() as i64)),
            Value::Chan(c) => {
                if !self.heap.check_channel(&c) {
                    return Err(error_message("invalid channel handle"));
                }
                Ok(Value::Integer(c.len(&self.heap) as i64))
            },
            Value::Mapping(m) => {
                if !self.heap.check_map(&m) {
                    return Err(error_message("invalid map handle"));
                }
                Ok(Value::Integer(m.len(&self.heap) as i64))
            },
            _ => Err(error_message("builtin `len` expected a string, slice, chan, or map argument")),
        }
    }

    /// `cap(v)`.
    fn builtin_cap(&self, argument: Value) -> (r: Result<Value, Fault>)
        ensures
            builtin_cap_done(self.heap, argument, r),
    {
        match argument {
            Value::Slice(s) => Ok(Value::Integer(s.capacity() as i64)),
            Value::Chan(c) => {
                if !self.heap.check_channel(&c) {
                    return Err(error_message("invalid channel handle"));
                }
                Ok(Value::Integer(c.capacity(&self.heap) as i64))
            },
            _ => Err(error_message("builtin `cap` expected a slice or chan argument")),
        }
    }

    /// `copy(destination, source)`: the number of elements copied.
    fn builtin_copy(&mut self, destination: Value, source: Value) -> (r: Result<Value, Fault>)
        requires
            old(self).heap.wf(),
        ensures
            builtin_copy_done(*old(self), *final(self), destination, source, r),
    {
        let target = match destination {
            Value::Slice(s) => s,
            _ => {
                return Err(error_message("builtin `copy` expected a slice as argument 1"));
            },
        };
        if !self.heap.check_slice(&target) {
            return Err(error_message("invalid slice handle"));
        }
        let ghost before = self.heap;
        let copied = match &source {
            Value::Slice(s) => {
                if !self.heap.check_slice(s) {
                    return Err(error_message("invalid slice handle"));
                }
                target.copy_from(&mut self.heap, s)
            },
            Value::String(s) => target.copy_from_string(&mut self.heap, s),
            _ => {
                return Err(error_message("builtin `copy` expected a slice or string as argument 2"));
            },
        };
        proof {
            before.lemma_wf_maps_same(self.heap);
        }
        Ok(Value::Integer(copied as i64))
    }

    /// `append(first, rest...)`.
    fn builtin_append(&mut self, first: Value, rest: Vec<Value>) -> (r: Result<Value, Fault>)
        requires
            old(self).heap.wf(),
        ensures
            builtin_append_done(*old(self), *final(self), first, rest@, r),
    {
        let slice = match first {
            Value::Slice(s) => s,
            _ => {
                return Err(error_message("builtin `append` expected a slice as the first argument"));
            },
        };
        if !self.heap.check_slice(&slice) {
            return Err(error_message("invalid slice handle"));
        }
        if rest.len() > usize::MAX - slice.len() {
            return Err(error_message("builtin `append` overflowed the slice length"));
        }
        let ghost before = self.heap;
        let grown = slice.append(&mut self.heap, rest.as_slice());
        proof {
            before.lemma_wf_maps_same(self.heap);
            if rest@.len() == 0 {
                assert(old(self).heap.elements(slice) + rest@ =~= old(self).heap.elements(slice));
                assert forall|i: int| 0 <= i < self.heap.elements(grown).len() implies #[trigger] self.heap.elements(grown)[i].equiv(
                    (old(self).heap.elements(slice) + rest@)[i]) by {
                    self.heap.elements(grown)[i].lemma_equiv_refl();
                }
            }
        }
        Ok(Value::Slice(grown))
    }

    /// `delete(map, key)`; deleting from the nil map or a missing key does
    /// nothing.
    fn builtin_delete(&mut self, target: Value, key: Value) -> (r: Result<(), Fault>)
        requires
            old(self).heap.wf(),
        ensures
            builtin_delete_done(*old(self), *final(self), target, key, r),
    {
        let map = match target {
            Value::Mapping(m) => m,
            _ => {
                return Err(error_message("builtin `delete` expected a map as argument 1"));
            },
        };
        let key = match value_to_key(key) {
            Some(k) => k,
            None => {
                return Err(error_message("builtin `delete` expected a comparable scalar key as argument 2"));
            },
        };
        if !self.heap.check_map(&map) {
            return Err(error_message("invalid map handle"));
        }
        map.remove(&mut self.heap, &key);
        Ok(())
    }

    /// `close(channel)`.
    fn builtin_close(&mut self, target: Value) -> (r: Result<(), Fault>)
        requires
            old(self).heap.wf(),
        ensures
            builtin_close_done(*old(self), *final(self), target, r),
    {
        let channel = match target {
            Value::Chan(c) => c,
            _ => {
                return Err(error_message("builtin `close` expected a chan as argument 1"));
            },
        };
        if !self.heap.check_channel(&channel) {
            return Err(error_message("invalid channel handle"));
        }
        let ghost before = self.heap;
        let outcome = channel.close(&mut self.heap);
        proof {
            before.lemma_wf_channel_change(self.heap, channel);
        }
        match outcome {
            Ok(()) => Ok(()),
            Err(ChannelCloseError::Nil) => Err(error_message("close of nil channel")),
            Err(ChannelCloseError::Closed) => Err(error_message("close of closed channel")),
        }
    }

    /// `clear(v)`: zeroes the visible elements of a slice, or removes every
    /// entry of a map.
    fn builtin_clear(&mut self, target: Value) -> (r: Result<(), Fault>)
        requires
            old(self).heap.wf(),
        ensures
            builtin_clear_done(*old(self), *final(self), target, r),
    {
        match target {
            Value::Slice(s) => {
                if !self.heap.check_slice(&s) {
                    return Err(error_message("invalid slice handle"));
                }
                let ghost before = self.heap;
                s.clear(&mut self.heap);
                proof {
                    before.lemma_wf_maps_same(self.heap);
                }
                Ok(())
            },
            Value::Mapping(m) => {
                if !self.heap.check_map(&m) {
                    return Err(error_message("invalid map handle"));
                }
                m.clear(&mut self.heap);
                Ok(())
            },
            _ => Err(error_message("builtin `clear` expected a slice or map argument")),
        }
    }

    /// Runs a builtin on evaluated arguments and returns its results.
    /// `recover` is not handled here: it depends on the call frames.
    pub(super) fn execute_builtin_call(&mut self, builtin: BuiltinFunction, arguments: Vec<Value>) -> (r: Result<Vec<Value>, Fault>)
        requires
            old(self).heap.wf(),
            builtin != BuiltinFunction::Recover,
        ensures
            execute_builtin_call_done(*old(self), *final(self), builtin, arguments, r),
    {
        let name = builtin.render();
        match builtin {
            BuiltinFunction::Print => {
                let text = render_arguments(&self.heap, arguments.as_slice(), " ");
                push_str(&mut self.output, text.as_str());
                Ok(Vec::new())
            },
            BuiltinFunction::Println => {
                let text = render_arguments(&self.heap, arguments.as_slice(), " ");
                push_str(&mut self.output, text.as_str());
                push_str(&mut self.output, "\n");
                assert(self.output@ =~= old(self).output@ + text@ + "\n"@);
                Ok(Vec::new())
            },
            BuiltinFunction::Len => {
                check_builtin_arity(name, arguments.len(), 1)?;
                let v = self.builtin_len(take_one(arguments))?;
                let out = vec![v];
                assert(out@ =~= seq![v]);
                Ok(out)
            },
            BuiltinFunction::Cap => {
                check_builtin_arity(name, arguments.len(), 1)?;
                let v = self.builtin_cap(take_one(arguments))?;
                let out = vec![v];
                assert(out@ =~= seq![v]);
                Ok(out)
            },
            BuiltinFunction::Copy => {
                check_builtin_arity(name, arguments.len(), 2)?;
                let (destination, source) = take_two(arguments);
                let v = self.builtin_copy(destination, source)?;
                let out = vec![v];
                assert(out@ =~= seq![v]);
                Ok(out)
            },
            BuiltinFunction::Append => {
                if arguments.len() == 0 {
                    return Err(error_message("builtin `append` expected at least 1 argument"));
                }
                let mut first_part = arguments;
                let rest = first_part.split_off(1);
                let first = take_one(first_part);
                assert(rest@ =~= arguments@.subrange(1, arguments@.len() as int));
                let v = self.builtin_append(first, rest)?;
                let out = vec![v];
                assert(out@ =~= seq![v]);
                Ok(out)
            },
            BuiltinFunction::Make => {
                Err(error_message("builtin `make` is lowered into dedicated allocation bytecode"))
            },
            BuiltinFunction::Delete => {
                check_builtin_arity(name, arguments.len(), 2)?;
                let (target, key) = take_two(arguments);
                self.builtin_delete(target, key)?;
                Ok(Vec::new())
            },
            BuiltinFunction::Close => {
                check_builtin_arity(name, arguments.len(), 1)?;
                self.builtin_close(take_one(arguments))?;
                Ok(Vec::new())
            },
            BuiltinFunction::Clear => {
                check_builtin_arity(name, arguments.len(), 1)?;
                self.builtin_clear(take_one(arguments))?;
                Ok(Vec::new())
            },
            BuiltinFunction::Panic => {
                Err(error_message("builtin `panic` is lowered into dedicated panic bytecode"))
            },
            BuiltinFunction::Recover => Ok(Vec::new()),
        }
    }
}

} // verus!
