//! Returning and panicking. A returning frame runs its deferred calls last
//! in, first out, then hands its results to the caller. A panic runs the
//! deferred calls of each frame from the innermost outwards; a deferred
//! function called for the panicking frame may stop the panic with
//! `recover`, and that frame then returns normally with its named results.

use vstd::prelude::*;

use crate::builtin::BuiltinFunction;
use crate::bytecode::instruction::{Program, ValueType};
use crate::runtime::value::{Heap, StringValue, Value};
use crate::runtime::vm::support::{is_zero_value, zero_value_for_type};
use crate::runtime::vm::{
    panic_started, CallFrame,
    error_message, synthesized_results, DeferredCall, Fault, PanicPayload, ReturnMode, RuntimeError, VirtualMachine,
};
use crate::runtime::vm::builtins::execute_builtin_call_done;
use crate::runtime::vm::calls::call_user_function_done;
use crate::runtime::vm::packages::execute_package_function_done;
use crate::text::push_str;

verus! {

/// The message that a panic ends the run with.
pub open spec fn payload_text(heap: Heap, payload: PanicPayload) -> Seq<char> {
    match payload {
        PanicPayload::Value(v) => heap.value_text(v, heap.render_fuel()),
        PanicPayload::NilArgument => "panic called with nil argument"@,
        PanicPayload::Message(m) => m@,
    }
}

/// What `recover` does, as its contract states.
pub open spec fn recover_done(before_vm: VirtualMachine, after_vm: VirtualMachine, r: Result<Value, Fault>) -> bool {
    &&& (after_vm.stack@ == before_vm.stack@)
    &&& (after_vm.output@ == before_vm.output@)
    &&& (after_vm.heap == before_vm.heap)
    &&& (after_vm.frames@.len() == before_vm.frames@.len())
    &&& (forall|i: int| 0 <= i < before_vm.frames@.len() ==> (#[trigger] after_vm.frames@[i]).pc == before_vm.frames@[i].pc)
    &&& (r is Err ==> r matches Err(Fault::Error(_)))
    &&& (({
        let target = before_vm.frames@.last().recover_target;
        let active = target is Some && before_vm.pending_panic is Some
            && before_vm.panic_depth == target->0 + 1;
        &&& !active ==> (r matches Ok(v) && v matches Value::Interface(i) && i.dynamic_type() is None
            && i.payload() is None) && after_vm == before_vm
        &&& active && r is Ok ==> {
            &&& after_vm.pending_panic is None
            &&& recovered_value(before_vm.pending_panic->0, r->Ok_0)
            &&& after_vm.frames@[target->0 as int].returning
        }
    }))
}

/// A frame the same as `frame` in all but its deferred calls.
pub open spec fn same_but_deferred(after: CallFrame, before: CallFrame) -> bool {
    &&& after.function_index == before.function_index
    &&& after.pc == before.pc
    &&& after.locals == before.locals
    &&& after.pending_return_values == before.pending_return_values
    &&& after.return_mode == before.return_mode
    &&& after.returning == before.returning
    &&& after.parameter_count == before.parameter_count
    &&& after.return_types == before.return_types
    &&& after.has_named_results == before.has_named_results
    &&& after.recover_target == before.recover_target
}

/// The most recently deferred call of the innermost frame is taken off its
/// list, and nothing else changes.
pub open spec fn deferred_popped(before_vm: VirtualMachine, after_vm: VirtualMachine) -> bool {
    let top = before_vm.frames@.len() - 1;
    &&& after_vm.stack@ == before_vm.stack@
    &&& after_vm.output@ == before_vm.output@
    &&& after_vm.heap == before_vm.heap
    &&& after_vm.pending_panic == before_vm.pending_panic
    &&& after_vm.panic_depth == before_vm.panic_depth
    &&& after_vm.frames@.len() == before_vm.frames@.len()
    &&& forall|i: int| 0 <= i < top ==> #[trigger] after_vm.frames@[i] == before_vm.frames@[i]
    &&& same_but_deferred(after_vm.frames@[top], before_vm.frames@[top])
    &&& after_vm.frames@[top].deferred_calls@ == before_vm.frames@[top].deferred_calls@.drop_last()
}

/// What `resume_return` does, as its contract states.
pub open spec fn resume_return_done(before_vm: VirtualMachine, after_vm: VirtualMachine, program: Program, r: Result<(), Fault>) -> bool {
    &&& (after_vm.heap.wf())
    &&& (after_vm.pending_panic == before_vm.pending_panic)
    &&& (after_vm.panic_depth == before_vm.panic_depth)
    &&& (before_vm.frames@.last().deferred_calls@.len() == 0 ==> {
        let frame = before_vm.frames@.last();
        &&& after_vm.frames@ == before_vm.frames@.drop_last()
        &&& after_vm.output@ == before_vm.output@
        &&& after_vm.heap == before_vm.heap
        &&& frame.pending_return_values is None ==> (r matches Err(Fault::Error(_)))
        &&& frame.pending_return_values is Some ==> r is Ok && (if frame.return_mode == ReturnMode::Normal {
            after_vm.stack@ == before_vm.stack@ + frame.pending_return_values->0@
        } else {
            after_vm.stack@ == before_vm.stack@
        })
    })
    &&& (before_vm.frames@.last().deferred_calls@.len() > 0 ==> {
        &&& after_vm.stack@ == before_vm.stack@
        &&& after_vm.frames@.len() >= before_vm.frames@.len()
        &&& after_vm.frames@[before_vm.frames@.len() - 1].deferred_calls@
            == before_vm.frames@.last().deferred_calls@.drop_last()
        &&& exists|mid: VirtualMachine| #[trigger] deferred_popped(before_vm, mid) && execute_deferred_call_done(
            mid,
            after_vm,
            program,
            (before_vm.frames@.len() - 1) as usize,
            before_vm.frames@.last().deferred_calls@.last(),
            r,
        )
    })
}

/// What `resume_panic_unwind` does, as its contract states.
pub open spec fn resume_panic_unwind_done(before_vm: VirtualMachine, after_vm: VirtualMachine, program: Program, r: Result<(), Fault>) -> bool {
    &&& (after_vm.heap.wf())
    &&& (before_vm.frames@.last().deferred_calls@.len() == 0 ==> {
        &&& after_vm.frames@ == before_vm.frames@.drop_last()
        &&& after_vm.stack@ == before_vm.stack@
        &&& after_vm.output@ == before_vm.output@
        &&& after_vm.heap == before_vm.heap
        &&& before_vm.frames@.len() == 1 ==> r == Err::<(), Fault>(Fault::Panic(before_vm.pending_panic->0))
            && after_vm.pending_panic is None && after_vm.panic_depth == 0
        &&& before_vm.frames@.len() > 1 ==> r is Ok && after_vm.panic_depth == before_vm.frames@.len() - 1
            && after_vm.pending_panic == before_vm.pending_panic
    })
    &&& (before_vm.frames@.last().deferred_calls@.len() > 0 ==> {
        &&& after_vm.stack@ == before_vm.stack@
        &&& after_vm.frames@.len() >= before_vm.frames@.len()
        &&& after_vm.frames@[before_vm.frames@.len() - 1].deferred_calls@
            == before_vm.frames@.last().deferred_calls@.drop_last()
        &&& (r is Err ==> r matches Err(Fault::Error(_)))
        &&& exists|mid: VirtualMachine, ran: VirtualMachine, outcome: Result<(), Fault>|
            #[trigger] execute_deferred_call_done(
                mid,
                ran,
                program,
                (before_vm.frames@.len() - 1) as usize,
                before_vm.frames@.last().deferred_calls@.last(),
                outcome,
            ) && deferred_popped(before_vm, mid) && match outcome {
                Ok(()) => r is Ok && after_vm == ran,
                Err(Fault::Panic(p)) => r is Ok && panic_started(ran, after_vm, p),
                Err(Fault::Error(m)) => r == Err::<(), Fault>(Fault::Error(m)) && after_vm == ran,
            }
    })
}

/// What `execute_deferred_call` does, as its contract states.
pub open spec fn execute_deferred_call_done(before_vm: VirtualMachine, after_vm: VirtualMachine, program: Program, frame_index: usize, call: DeferredCall, r: Result<(), Fault>) -> bool {
    &&& (after_vm.heap.wf())
    &&& (after_vm.stack@ == before_vm.stack@)
    &&& (after_vm.pending_panic == before_vm.pending_panic)
    &&& (after_vm.panic_depth == before_vm.panic_depth)
    &&& (call matches DeferredCall::PanicValue(v) ==> r == Err::<(), Fault>(Fault::Panic(PanicPayload::Value(v))))
    &&& (call is PanicNil ==> r == Err::<(), Fault>(Fault::Panic(PanicPayload::NilArgument)))
    &&& (!(call is PanicValue || call is PanicNil) ==> (r is Err ==> r matches Err(Fault::Error(_))))
    &&& (!(call is UserDefined) ==> after_vm.frames@ == before_vm.frames@)
    &&& (call is UserDefined && r is Ok ==> {
        &&& after_vm.frames@.len() == before_vm.frames@.len() + 1
        &&& after_vm.frames@.take(before_vm.frames@.len() as int) == before_vm.frames@
        &&& after_vm.frames@.last().return_mode == ReturnMode::Discard
        &&& after_vm.frames@.last().recover_target == Some(frame_index)
        &&& after_vm.frames@.last().function_index == call->UserDefined_function_index
    })
    &&& (call is UserDefined && r is Err ==> after_vm.frames@ == before_vm.frames@)
    &&& (call matches DeferredCall::Builtin { builtin, .. } && builtin == BuiltinFunction::Recover ==> r is Ok
        && after_vm == before_vm)
    &&& (call matches DeferredCall::Builtin { builtin, arguments } ==> (builtin != BuiltinFunction::Recover ==> match r {
        Ok(()) => exists|results: Vec<Value>|
            #[trigger] execute_builtin_call_done(before_vm, after_vm, builtin, arguments, Ok(results)),
        Err(e) => execute_builtin_call_done(before_vm, after_vm, builtin, arguments, Err(e)),
    }))
    &&& (call matches DeferredCall::Package { function, arguments } ==> match r {
        Ok(()) => exists|results: Vec<Value>|
            #[trigger] execute_package_function_done(before_vm, after_vm, function, arguments, Ok(results)),
        Err(e) => execute_package_function_done(before_vm, after_vm, function, arguments, Err(e)),
    })
    &&& (call matches DeferredCall::UserDefined { function_index, arguments, spread } ==> call_user_function_done(
        before_vm,
        after_vm,
        program,
        frame_index,
        function_index,
        arguments,
        spread,
        ReturnMode::Discard,
        false,
        Some(frame_index),
        r,
    ))
}

impl VirtualMachine {
    /// Renders what a panic carries.
    pub(super) fn render_payload(&self, payload: &PanicPayload) -> (text: String)
        ensures
            text@ == payload_text(self.heap, *payload),
    {
        match payload {
            PanicPayload::Value(v) => self.heap.render_value(v),
            PanicPayload::NilArgument => {
                let mut text = String::new();
                push_str(&mut text, "panic called with nil argument");
                text
            },
            PanicPayload::Message(m) => m.clone(),
        }
    }

    /// The error that ends the run: a panic message or a runtime error,
    /// after the output written so far.
    pub(super) fn into_runtime_error(&self, fault: Fault) -> (e: RuntimeError)
        ensures
            e.output_view() == self.output@,
            fault matches Fault::Error(m) ==> e.message_view() == m@ && !e.panicked_view(),
            fault matches Fault::Panic(p) ==> e.message_view() == payload_text(self.heap, p) && e.panicked_view(),
    {
        match fault {
            Fault::Error(message) => RuntimeError { message, panicked: false, output: self.output.clone() },
            Fault::Panic(payload) => {
                let message = self.render_payload(&payload);
                RuntimeError { message, panicked: true, output: self.output.clone() }
            },
        }
    }

    /// Starts unwinding from the innermost frame; a panic raised while
    /// another unwinds replaces it.
    pub(super) fn begin_panic(&mut self, payload: PanicPayload)
        ensures
            final(self).pending_panic == Some(payload),
            final(self).panic_depth == old(self).frames@.len(),
            final(self).stack@ == old(self).stack@,
            final(self).frames@ == old(self).frames@,
            final(self).output@ == old(self).output@,
            final(self).heap == old(self).heap,
    {
        self.pending_panic = Some(payload);
        self.panic_depth = self.frames.len();
    }

    /// Whether a panic is unwinding the innermost frame.
    pub(super) fn panic_ready_to_unwind(&self) -> (r: bool)
        ensures
            r == (self.pending_panic is Some && self.panic_depth > 0 && self.frames@.len() == self.panic_depth),
    {
        match &self.pending_panic {
            Some(_) => self.panic_depth > 0 && self.frames.len() == self.panic_depth,
            None => false,
        }
    }

    /// The results of frame `frame_index` when it finishes without a
    /// `return` of its own.
    pub(super) fn synthesize_return_values(&self, frame_index: usize) -> (r: Result<Vec<Value>, Fault>)
        requires
            frame_index < self.frames@.len(),
        ensures
            r matches Ok(values) ==> synthesized_results(self.frames@[frame_index as int], values@),
            r is Err ==> r matches Err(Fault::Error(_)),
    {
        let frame = &self.frames[frame_index];
        let n = frame.return_types.len();
        let mut values: Vec<Value> = Vec::new();
        let mut k: usize = 0;
        while k < n
            invariant
                frame == self.frames@[frame_index as int],
                n == frame.return_types@.len(),
                k <= n,
                values@.len() == k,
                frame.has_named_results ==> forall|j: int| 0 <= j < k
                    ==> #[trigger] values@[j].equiv(frame.locals@[frame.parameter_count + j]),
                !frame.has_named_results ==> forall|j: int| 0 <= j < k
                    ==> is_zero_value(frame.return_types@[j], #[trigger] values@[j]),
            decreases n - k,
        {
            if frame.has_named_results {
                if frame.parameter_count >= frame.locals.len() || k >= frame.locals.len() - frame.parameter_count {
                    return Err(error_message("missing named result local slot"));
                }
                let v = frame.locals[frame.parameter_count + k].duplicate();
                values.push(v);
            } else {
                values.push(zero_value_for_type(&frame.return_types[k]));
            }
            k = k + 1;
        }
        Ok(values)
    }
}

/// The text of a panic that `recover` turns into a string: `panic(nil)` and
/// panics raised by the machine.
pub open spec fn recovered_text(payload: PanicPayload) -> Seq<char> {
    match payload {
        PanicPayload::Message(m) => m@,
        _ => "panic called with nil argument"@,
    }
}

/// The value that `recover` returns for a panic: the panic's argument, or
/// the panic's text boxed as a string.
pub open spec fn recovered_value(payload: PanicPayload, r: Value) -> bool {
    match payload {
        PanicPayload::Value(v) => r == v,
        _ => {
            &&& r is Interface
            &&& r->Interface_0.dynamic_type() == Some(ValueType::String)
            &&& r->Interface_0.payload() matches Some(Value::String(s))
            &&& r->Interface_0.payload()->0->String_0@ == vstd::utf8::encode_utf8(recovered_text(payload))
        },
    }
}

impl VirtualMachine {
    /// Makes frame `frame_index` return: its results are those of its
    /// `return`, or else its named results or zero values.
    pub(super) fn prepare_frame_for_return(&mut self, frame_index: usize) -> (r: Result<(), Fault>)
        requires
            frame_index < old(self).frames@.len(),
        ensures
            final(self).stack@ == old(self).stack@,
            final(self).output@ == old(self).output@,
            final(self).heap == old(self).heap,
            final(self).pending_panic == old(self).pending_panic,
            final(self).panic_depth == old(self).panic_depth,
            final(self).frames@.len() == old(self).frames@.len(),
            forall|i: int| 0 <= i < old(self).frames@.len() && i != frame_index
                ==> #[trigger] final(self).frames@[i] == old(self).frames@[i],
            r is Err ==> r matches Err(Fault::Error(_)),
            r is Err ==> final(self).frames@ == old(self).frames@,
            r is Ok ==> {
                let before = old(self).frames@[frame_index as int];
                let after = final(self).frames@[frame_index as int];
                &&& after.returning
                &&& after.pc == before.pc
                &&& after.function_index == before.function_index
                &&& after.deferred_calls == before.deferred_calls
                &&& after.return_mode == before.return_mode
                &&& after.pending_return_values is Some
                &&& before.pending_return_values is Some ==> after.pending_return_values == before.pending_return_values
                &&& before.pending_return_values is None ==> synthesized_results(before, after.pending_return_values->0@)
            },
    {
        let has_values = match &self.frames[frame_index].pending_return_values {
            Some(_) => true,
            None => false,
        };
        if !has_values {
            let values = self.synthesize_return_values(frame_index)?;
            self.frames[frame_index].pending_return_values = Some(values);
        }
        self.frames[frame_index].returning = true;
        Ok(())
    }

    /// `recover()`: in a deferred function called for the frame that a
    /// panic is unwinding, stops the panic, makes that frame return, and
    /// gives the panic's value; anywhere else gives the nil interface.
    pub(super) fn recover(&mut self) -> (r: Result<Value, Fault>)
        requires
            old(self).frames@.len() > 0,
        ensures
            recover_done(*old(self), *final(self), r),
    {
        let top = self.frames.len() - 1;
        let target = match self.frames[top].recover_target {
            Some(t) => t,
            None => {
                return Ok(Value::nil_any());
            },
        };
        let active = match &self.pending_panic {
            Some(_) => target < usize::MAX && self.panic_depth == target + 1,
            None => false,
        };
        if !active {
            return Ok(Value::nil_any());
        }
        if target >= self.frames.len() {
            return Err(error_message("recover target frame is missing"));
        }
        let payload = match self.pending_panic.take() {
            Some(p) => p,
            None => PanicPayload::NilArgument,
        };
        self.panic_depth = 0;
        self.prepare_frame_for_return(target)?;
        let value = match payload {
            PanicPayload::Value(v) => v,
            PanicPayload::NilArgument => Value::boxed_any(
                ValueType::String,
                Value::String(StringValue::from("panic called with nil argument")),
            ),
            PanicPayload::Message(m) => Value::boxed_any(
                ValueType::String,
                Value::String(StringValue::from(m.as_str())),
            ),
        };
        Ok(value)
    }
}

impl VirtualMachine {
    /// Runs a deferred call for frame `frame_index`. A deferred builtin or
    /// package function runs to completion and its results are dropped; a
    /// deferred function gets a frame of its own whose results are dropped
    /// and whose `recover` may stop a panic of frame `frame_index`; a
    /// deferred `panic` panics; `recover` called directly by `defer` does
    /// nothing.
    pub(super) fn execute_deferred_call(&mut self, program: &Program, frame_index: usize, call: DeferredCall) -> (r: Result<(), Fault>)
        requires
            old(self).heap.wf(),
            frame_index < old(self).frames@.len(),
        ensures
            execute_deferred_call_done(*old(self), *final(self), *program, frame_index, call, r),
    {
        match call {
            DeferredCall::Builtin { builtin, arguments } => {
                if builtin == BuiltinFunction::Recover {
                    return Ok(());
                }
                match self.execute_builtin_call(builtin, arguments) {
                    Ok(_) => Ok(()),
                    Err(e) => Err(e),
                }
            },
            DeferredCall::PanicValue(v) => Err(Fault::Panic(PanicPayload::Value(v))),
            DeferredCall::PanicNil => Err(Fault::Panic(PanicPayload::NilArgument)),
            DeferredCall::Package { function, arguments } => {
                match self.execute_package_function(function, arguments) {
                    Ok(_) => Ok(()),
                    Err(e) => Err(e),
                }
            },
            DeferredCall::UserDefined { function_index, arguments, spread } => {
                let ghost before = self.frames@;
                let outcome = self.call_user_function(
                    program,
                    frame_index,
                    function_index,
                    arguments,
                    spread,
                    ReturnMode::Discard,
                    false,
                    Some(frame_index),
                );
                assert(outcome is Ok ==> self.frames@.take(before.len() as int) =~= before);
                outcome
            },
        }
    }

    /// One step of returning from the innermost frame: run its most
    /// recently deferred call, or, when none is left, pop the frame and
    /// push its results unless they are dropped.
    pub(super) fn resume_return(&mut self, program: &Program) -> (r: Result<(), Fault>)
        requires
            old(self).heap.wf(),
            old(self).frames@.len() > 0,
        ensures
            resume_return_done(*old(self), *final(self), *program, r),
    {
        let top = self.frames.len() - 1;
        let ghost before = self.frames@;
        match self.frames[top].deferred_calls.pop() {
            Some(call) => {
                let ghost popped = self.frames@;
                let ghost mid = *self;
                assert(popped.len() == before.len());
                assert(deferred_popped(*old(self), mid));
                let r = self.execute_deferred_call(program, top, call);
                proof {
                    if r is Ok && call is UserDefined {
                        assert(self.frames@[top as int] == popped[top as int]);
                    }
                }
                return r;
            },
            None => {},
        }
        let frame = match self.frames.pop() {
            Some(f) => f,
            None => {
                return Err(error_message("return with no active call frame"));
            },
        };
        assert(self.frames@ =~= old(self).frames@.drop_last());
        let values = match frame.pending_return_values {
            Some(v) => v,
            None => {
                return Err(error_message("return frame missing values"));
            },
        };
        match frame.return_mode {
            ReturnMode::Normal => {
                let mut values = values;
                let ghost returned = values@;
                self.stack.append(&mut values);
                assert(self.stack@ =~= old(self).stack@ + returned);
            },
            ReturnMode::Discard => {},
        }
        Ok(())
    }

    /// One step of unwinding a panic from the innermost frame: run its most
    /// recently deferred call, or, when none is left, pop the frame. When
    /// the last frame is gone, the panic ends the run.
    pub(super) fn resume_panic_unwind(&mut self, program: &Program) -> (r: Result<(), Fault>)
        requires
            old(self).heap.wf(),
            old(self).frames@.len() > 0,
            old(self).pending_panic is Some,
        ensures
            resume_panic_unwind_done(*old(self), *final(self), *program, r),
    {
        let top = self.frames.len() - 1;
        let ghost before = self.frames@;
        match self.frames[top].deferred_calls.pop() {
            Some(call) => {
                let ghost popped = self.frames@;
                let ghost mid = *self;
                let ghost the_call = call;
                assert(deferred_popped(*old(self), mid));
                assert(the_call == old(self).frames@.last().deferred_calls@.last());
                let outcome = self.execute_deferred_call(program, top, call);
                let ghost ran = *self;
                assert(execute_deferred_call_done(mid, ran, *program, top, the_call, outcome));
                proof {
                    if outcome is Ok && call is UserDefined {
                        assert(self.frames@[top as int] == popped[top as int]);
                    }
                }
                return match outcome {
                    Ok(()) => Ok(()),
                    Err(Fault::Panic(payload)) => {
                        self.begin_panic(payload);
                        Ok(())
                    },
                    Err(Fault::Error(message)) => Err(Fault::Error(message)),
                };
            },
            None => {},
        }
        self.frames.pop();
        assert(self.frames@ =~= old(self).frames@.drop_last());
        self.panic_depth = self.frames.len();
        if self.frames.len() == 0 {
            let payload = match self.pending_panic.take() {
                Some(p) => p,
                None => PanicPayload::NilArgument,
            };
            return Err(Fault::Panic(payload));
        }
        Ok(())
    }
}

} // verus!
