//! The stack virtual machine. Each call frame holds its locals and the
//! calls it deferred; values are pushed and popped on one shared operand
//! stack, and slices, maps and channels live on the machine's heap.
//!
//! A Go panic unwinds frame by frame, running each frame's deferred calls;
//! a deferred function may stop it with `recover`. Any other runtime error
//! stops the program at once.

use vstd::prelude::*;

use crate::builtin::BuiltinFunction;
use crate::bytecode::instruction::{Program, ValueType};
use crate::package::PackageFunction;
use crate::runtime::value::{Heap, MapKey, StringValue, Value};
use crate::runtime::vm::calls::has_named_results;
use crate::runtime::vm::step::instruction_done;
use crate::runtime::vm::support::is_zero_value;
use crate::runtime::vm::unwind::{payload_text, resume_panic_unwind_done, resume_return_done};
use crate::text::{push_int, push_str};

pub mod support;
pub mod builtins;
pub mod packages;
pub mod interfaces;
pub mod calls;
pub mod unwind;
pub mod handlers;
pub mod step;


verus! {

/// Why an instruction did not complete.
pub enum Fault {
    /// A runtime error: the program stops at once.
    Error(String),
    /// A Go panic: deferred calls run, and a deferred function may recover.
    Panic(PanicPayload),
}

/// What a panic carries.
pub enum PanicPayload {
    /// The argument of `panic`, boxed in an interface.
    Value(Value),
    /// `panic(nil)`.
    NilArgument,
    /// A panic raised by the machine itself, such as a failed comparison.
    Message(String),
}

/// Whether a finished frame hands its results to the caller.
#[derive(Clone, Copy, Debug, PartialEq, Eq, Structural)]
pub enum ReturnMode {
    /// The results are pushed for the caller.
    Normal,
    /// The results are dropped: the frame ran a deferred call.
    Discard,
}

/// A call recorded by `defer`, with its arguments already evaluated.
pub enum DeferredCall {
    Builtin { builtin: BuiltinFunction, arguments: Vec<Value> },
    PanicValue(Value),
    PanicNil,
    Package { function: PackageFunction, arguments: Vec<Value> },
    UserDefined { function_index: usize, arguments: Vec<Value>, spread: bool },
}

/// One activation of a compiled function.
pub struct CallFrame {
    pub function_index: usize,
    pub pc: usize,
    pub locals: Vec<Value>,
    pub deferred_calls: Vec<DeferredCall>,
    pub pending_return_values: Option<Vec<Value>>,
    pub return_mode: ReturnMode,
    pub returning: bool,
    pub parameter_count: usize,
    pub return_types: Vec<ValueType>,
    pub has_named_results: bool,
    pub recover_target: Option<usize>,
}

/// The error that ended a run: the output written before it, and either a
/// panic message or a runtime error message.
#[derive(Debug)]
pub struct RuntimeError {
    message: String,
    panicked: bool,
    output: String,
}

/// The output of a run that finished normally.
#[derive(Debug)]
pub struct ExecutionResult {
    pub output: String,
}

/// The machine: operand stack, call frames, output buffer and heap, and the
/// panic being unwound, if any.
pub struct VirtualMachine {
    pub stack: Vec<Value>,
    pub frames: Vec<CallFrame>,
    pub output: String,
    pub heap: Heap,
    pub pending_panic: Option<PanicPayload>,
    pub panic_depth: usize,
}

/// The text of an error: the output written before it, then `panic: ` and
/// the message for a panic, or the bare message otherwise.
pub open spec fn error_text(output: Seq<char>, panicked: bool, message: Seq<char>) -> Seq<char> {
    output + (if panicked { "panic: "@ } else { Seq::empty() }) + message
}

impl RuntimeError {
    /// The message, without output or `panic: ` prefix.
    pub closed spec fn message_view(self) -> Seq<char> {
        self.message@
    }

    /// Whether the run ended in a panic.
    pub closed spec fn panicked_view(self) -> bool {
        self.panicked
    }

    /// The output written before the error.
    pub closed spec fn output_view(self) -> Seq<char> {
        self.output@
    }

    /// A runtime error with the given message and no output.
    pub fn new(message: String) -> (r: Self)
        ensures
            r.message_view() == message@,
            !r.panicked_view(),
            r.output_view() == Seq::<char>::empty(),
    {
        RuntimeError { message, panicked: false, output: String::new() }
    }

    /// The message.
    pub fn message(&self) -> (r: &str)
        ensures
            r@ == self.message_view(),
    {
        self.message.as_str()
    }

    /// Whether the run ended in a panic.
    pub fn is_panic(&self) -> (r: bool)
        ensures
            r == self.panicked_view(),
    {
        self.panicked
    }

    /// The output written before the error.
    pub fn output(&self) -> (r: &str)
        ensures
            r@ == self.output_view(),
    {
        self.output.as_str()
    }

    /// The full text: output, then `panic: ` for a panic, then the message.
    pub fn to_string(&self) -> (text: String)
        ensures
            text@ == error_text(self.output_view(), self.panicked_view(), self.message_view()),
    {
        let mut text = self.output.clone();
        if self.panicked {
            push_str(&mut text, "panic: ");
        }
        push_str(&mut text, self.message.as_str());
        assert(text@ =~= error_text(self.output_view(), self.panicked_view(), self.message_view()));
        text
    }
}

impl ExecutionResult {
    /// The output of the run.
    pub fn render_output(&self) -> (text: String)
        ensures
            text@ == self.output@,
    {
        self.output.clone()
    }
}

/// The message of a runtime error.
pub fn error_message(text: &str) -> (f: Fault)
    ensures
        f matches Fault::Error(m) && m@ == text@,
{
    let mut message = String::new();
    push_str(&mut message, text);
    Fault::Error(message)
}

/// A message that ends with a number: `before`, then the decimal `n`.
pub fn numbered_message(before: &str, n: i64) -> (f: Fault)
    ensures
        f matches Fault::Error(m) && m@ == before@ + crate::text::int_text(n as int),
{
    let mut message = String::new();
    push_str(&mut message, before);
    push_int(&mut message, n);
    Fault::Error(message)
}

/// What `pop_value` does, as its contract states.
pub open spec fn pop_value_done(before_vm: VirtualMachine, after_vm: VirtualMachine, r: Result<Value, Fault>) -> bool {
    &&& (before_vm.stack@.len() > 0 ==> r == Ok::<Value, Fault>(before_vm.stack@.last())
        && after_vm.stack@ == before_vm.stack@.drop_last())
    &&& (before_vm.stack@.len() == 0 ==> (r matches Err(Fault::Error(m)) && m@ == "stack underflow"@)
        && after_vm.stack@ == before_vm.stack@)
    &&& (after_vm.frames@ == before_vm.frames@)
    &&& (after_vm.output@ == before_vm.output@)
    &&& (after_vm.heap == before_vm.heap)
    &&& (after_vm.pending_panic == before_vm.pending_panic)
    &&& (after_vm.panic_depth == before_vm.panic_depth)
}

/// What `pop_bool` does, as its contract states.
pub open spec fn pop_bool_done(before_vm: VirtualMachine, after_vm: VirtualMachine, r: Result<bool, Fault>) -> bool {
    &&& (before_vm.stack@.len() > 0 ==> after_vm.stack@ == before_vm.stack@.drop_last())
    &&& (r matches Ok(b) ==> before_vm.stack@.len() > 0 && before_vm.stack@.last() == Value::Boolean(b))
    &&& (r is Err ==> !(before_vm.stack@.len() > 0 && before_vm.stack@.last() is Boolean))
    &&& (r is Err ==> r matches Err(Fault::Error(_)))
    &&& (after_vm.frames@ == before_vm.frames@)
    &&& (after_vm.output@ == before_vm.output@)
    &&& (after_vm.heap == before_vm.heap)
    &&& (after_vm.pending_panic == before_vm.pending_panic)
    &&& (after_vm.panic_depth == before_vm.panic_depth)
}

/// What `pop_arguments` does, as its contract states.
pub open spec fn pop_arguments_done(before_vm: VirtualMachine, after_vm: VirtualMachine, arity: usize, r: Result<Vec<Value>, Fault>) -> bool {
    &&& (arity <= before_vm.stack@.len() ==> r is Ok)
    &&& (r matches Ok(args) ==> {
        &&& arity <= before_vm.stack@.len()
        &&& args@ == before_vm.stack@.subrange(before_vm.stack@.len() - arity, before_vm.stack@.len() as int)
        &&& after_vm.stack@ == before_vm.stack@.subrange(0, before_vm.stack@.len() - arity)
    })
    &&& (r is Err ==> arity > before_vm.stack@.len() && after_vm.stack@ == before_vm.stack@)
    &&& (r is Err ==> r matches Err(Fault::Error(_)))
    &&& (after_vm.frames@ == before_vm.frames@)
    &&& (after_vm.output@ == before_vm.output@)
    &&& (after_vm.heap == before_vm.heap)
    &&& (after_vm.pending_panic == before_vm.pending_panic)
    &&& (after_vm.panic_depth == before_vm.panic_depth)
}

impl VirtualMachine {
    /// The operand stack.
    pub closed spec fn stack_view(self) -> Seq<Value> {
        self.stack@
    }

    /// The output written so far.
    pub closed spec fn output_view(self) -> Seq<char> {
        self.output@
    }

    /// The number of active frames.
    pub closed spec fn frame_count(self) -> nat {
        self.frames@.len()
    }

    /// A machine with nothing on its stack and no output.
    pub fn new() -> (vm: Self)
        ensures
            vm.stack_view() == Seq::<Value>::empty(),
            vm.output_view() == Seq::<char>::empty(),
            vm.frame_count() == 0,
    {
        VirtualMachine {
            stack: Vec::new(),
            frames: Vec::new(),
            output: String::new(),
            heap: Heap::new(),
            pending_panic: None,
            panic_depth: 0,
        }
    }

    /// Pops the top of the stack.
    fn pop_value(&mut self) -> (r: Result<Value, Fault>)
        ensures
            pop_value_done(*old(self), *final(self), r),
    {
        match self.stack.pop() {
            Some(v) => Ok(v),
            None => Err(error_message("stack underflow")),
        }
    }

    /// Pops an integer.
    fn pop_integer(&mut self) -> (r: Result<i64, Fault>)
        ensures
            old(self).stack@.len() > 0 ==> final(self).stack@ == old(self).stack@.drop_last(),
            r matches Ok(n) ==> old(self).stack@.len() > 0 && old(self).stack@.last() == Value::Integer(n),
            r is Err ==> !(old(self).stack@.len() > 0 && old(self).stack@.last() is Integer),
            r is Err ==> r matches Err(Fault::Error(_)),
            final(self).frames@ == old(self).frames@,
            final(self).output@ == old(self).output@,
            final(self).heap == old(self).heap,
            final(self).pending_panic == old(self).pending_panic,
            final(self).panic_depth == old(self).panic_depth,
    {
        match self.pop_value()? {
            Value::Integer(n) => Ok(n),
            _ => Err(error_message("expected integer value on the stack")),
        }
    }

    /// Pops a boolean.
    fn pop_bool(&mut self) -> (r: Result<bool, Fault>)
        ensures
            pop_bool_done(*old(self), *final(self), r),
    {
        match self.pop_value()? {
            Value::Boolean(b) => Ok(b),
            _ => Err(error_message("expected boolean value on the stack")),
        }
    }

    /// Pops a string.
    fn pop_string(&mut self) -> (r: Result<StringValue, Fault>)
        ensures
            old(self).stack@.len() > 0 ==> final(self).stack@ == old(self).stack@.drop_last(),
            r matches Ok(s) ==> old(self).stack@.len() > 0 && old(self).stack@.last() == Value::String(s),
            r is Err ==> !(old(self).stack@.len() > 0 && old(self).stack@.last() is String),
            r is Err ==> r matches Err(Fault::Error(_)),
            final(self).frames@ == old(self).frames@,
            final(self).output@ == old(self).output@,
            final(self).heap == old(self).heap,
            final(self).pending_panic == old(self).pending_panic,
            final(self).panic_depth == old(self).panic_depth,
    {
        match self.pop_value()? {
            Value::String(s) => Ok(s),
            _ => Err(error_message("expected string value on the stack")),
        }
    }

    /// Pops a value that can key a map.
    fn pop_map_key(&mut self) -> (r: Result<MapKey, Fault>)
        ensures
            old(self).stack@.len() > 0 ==> final(self).stack@ == old(self).stack@.drop_last(),
            r matches Ok(k) ==> old(self).stack@.len() > 0 && key_of_value(old(self).stack@.last()) == Some(k),
            r is Err ==> !(old(self).stack@.len() > 0 && key_of_value(old(self).stack@.last()) is Some),
            r is Err ==> r matches Err(Fault::Error(_)),
            final(self).frames@ == old(self).frames@,
            final(self).output@ == old(self).output@,
            final(self).heap == old(self).heap,
            final(self).pending_panic == old(self).pending_panic,
            final(self).panic_depth == old(self).panic_depth,
    {
        let v = self.pop_value()?;
        match value_to_key(v) {
            Some(k) => Ok(k),
            None => Err(error_message("map index key is not a comparable scalar value")),
        }
    }

    /// Pops `arity` values, returning them in the order they were pushed.
    fn pop_arguments(&mut self, arity: usize) -> (r: Result<Vec<Value>, Fault>)
        ensures
            pop_arguments_done(*old(self), *final(self), arity, r),
    {
        if arity > self.stack.len() {
            return Err(error_message("stack underflow"));
        }
        let keep = self.stack.len() - arity;
        let args = self.stack.split_off(keep);
        Ok(args)
    }
}

/// The state a run starts in: an empty stack, no output, an empty heap,
/// no panic, and one frame for the entry function, at its start.
pub open spec fn run_started(program: Program, vm: VirtualMachine) -> bool {
    let entry = program.entry_function_index;
    let function = program.functions@[entry as int];
    let frame = vm.frames@[0];
    &&& vm.stack@.len() == 0
    &&& vm.output@.len() == 0
    &&& vm.pending_panic is None
    &&& vm.panic_depth == 0
    &&& vm.heap.cells_view().len() == 0
    &&& vm.heap.channel_count() == 0
    &&& vm.heap.map_count() == 0
    &&& vm.frames@.len() == 1
    &&& frame.function_index == entry
    &&& frame.pc == 0
    &&& frame.locals@.len() == function.local_names@.len()
    &&& forall|i: int| 0 <= i < frame.locals@.len() ==> #[trigger] frame.locals@[i] == Value::Integer(0)
    &&& frame.deferred_calls@.len() == 0
    &&& frame.pending_return_values is None
    &&& frame.return_mode == ReturnMode::Normal
    &&& !frame.returning
    &&& frame.parameter_count == function.parameter_count
    &&& frame.return_types@ == function.return_types@
    &&& frame.has_named_results == has_named_results(function)
    &&& frame.recover_target is None
}

/// A panic starts: it is pending, at the depth of the current frames, and
/// nothing else changes.
pub open spec fn panic_started(before_vm: VirtualMachine, after_vm: VirtualMachine, payload: PanicPayload) -> bool {
    &&& after_vm.pending_panic == Some(payload)
    &&& after_vm.panic_depth == before_vm.frames@.len()
    &&& after_vm.stack@ == before_vm.stack@
    &&& after_vm.frames@ == before_vm.frames@
    &&& after_vm.output@ == before_vm.output@
    &&& after_vm.heap == before_vm.heap
}

/// The innermost frame takes one step: of returning, where it is
/// returning, or else its next instruction.
pub open spec fn frame_stepped(program: Program, before_vm: VirtualMachine, after_vm: VirtualMachine, outcome: Result<(), Fault>) -> bool {
    if before_vm.frames@.last().returning {
        resume_return_done(before_vm, after_vm, program, outcome)
    } else {
        instruction_done(program, before_vm, after_vm, outcome)
    }
}

/// What one step of a run does. With no frame left, the run ends: with the
/// pending panic, if any, else done (`Ok(true)`). While a panic unwinds
/// at the depth of the frames, one step of unwinding. Otherwise the
/// innermost frame steps; a panic it raises starts unwinding, an error
/// ends the run.
pub open spec fn step_done(program: Program, before_vm: VirtualMachine, after_vm: VirtualMachine, r: Result<bool, Fault>) -> bool {
    if before_vm.frames@.len() == 0 {
        &&& after_vm.stack@ == before_vm.stack@
        &&& after_vm.frames@ == before_vm.frames@
        &&& after_vm.output@ == before_vm.output@
        &&& after_vm.heap == before_vm.heap
        &&& after_vm.panic_depth == before_vm.panic_depth
        &&& after_vm.pending_panic is None
        &&& match before_vm.pending_panic {
            Some(p) => r == Err::<bool, Fault>(Fault::Panic(p)),
            None => r == Ok::<bool, Fault>(true),
        }
    } else if before_vm.pending_panic is Some && before_vm.panic_depth > 0 && before_vm.frames@.len()
        == before_vm.panic_depth {
        match r {
            Ok(done) => !done && resume_panic_unwind_done(before_vm, after_vm, program, Ok(())),
            Err(e) => resume_panic_unwind_done(before_vm, after_vm, program, Err(e)),
        }
    } else {
        exists|mid: VirtualMachine, outcome: Result<(), Fault>|
            #[trigger] frame_stepped(program, before_vm, mid, outcome) && match outcome {
                Ok(()) => r == Ok::<bool, Fault>(false) && after_vm == mid,
                Err(Fault::Panic(p)) => r == Ok::<bool, Fault>(false) && panic_started(mid, after_vm, p),
                Err(Fault::Error(m)) => r == Err::<bool, Fault>(Fault::Error(m)) && after_vm == mid,
            }
    }
}

/// Step `i` of `trace` leads to step `i + 1`, and the run goes on.
pub open spec fn stepped_on(program: Program, trace: Seq<VirtualMachine>, i: int) -> bool {
    step_done(program, trace[i], trace[i + 1], Ok(false))
}

/// `trace` is the states of a run at the start of each step: it starts as
/// a run starts, and each step leads to the next.
pub open spec fn runs_through(program: Program, trace: Seq<VirtualMachine>) -> bool {
    &&& trace.len() >= 1
    &&& run_started(program, trace[0])
    &&& forall|i: int| 0 <= i < trace.len() - 1 ==> #[trigger] stepped_on(program, trace, i)
}

/// The error that a fault ends the run with: the output so far, and the
/// message of the error or of the panic.
pub open spec fn error_for(vm: VirtualMachine, fault: Fault, e: RuntimeError) -> bool {
    &&& e.output_view() == vm.output@
    &&& fault matches Fault::Error(m) ==> e.message_view() == m@ && !e.panicked_view()
    &&& fault matches Fault::Panic(p) ==> e.message_view() == payload_text(vm.heap, p) && e.panicked_view()
}

/// What a run of `program` that ends in `end_vm` returns: it took steps
/// as [`step_done`] states, from the state a run starts in, until a step
/// ended it with `Ok(true)` (the output), or with a fault (the error for
/// it); or it took `u64::MAX` steps and ran out of budget.
pub open spec fn run_outcome(program: Program, end_vm: VirtualMachine, r: Result<ExecutionResult, RuntimeError>) -> bool {
    exists|trace: Seq<VirtualMachine>|
        #[trigger] runs_through(program, trace) && match r {
            Ok(result) => step_done(program, trace.last(), end_vm, Ok(true)) && result.output@ == end_vm.output@,
            Err(e) => {
                ||| exists|fault: Fault|
                    #[trigger] step_done(program, trace.last(), end_vm, Err(fault)) && error_for(end_vm, fault, e)
                ||| trace.len() == u64::MAX + 1 && end_vm == trace.last() && e.message_view()
                    == "execution step limit exceeded"@ && !e.panicked_view() && e.output_view() == end_vm.output@
            },
        }
}

/// A run that ends well ends with no frame left, and its result holds what
/// the machine printed.
pub proof fn lemma_run_outcome_ok(program: Program, end_vm: VirtualMachine, result: ExecutionResult)
    requires
        run_outcome(program, end_vm, Ok(result)),
    ensures
        result.output@ == end_vm.output_view(),
        end_vm.frame_count() == 0,
{
    let trace = choose|trace: Seq<VirtualMachine>| #[trigger] runs_through(program, trace)
        && step_done(program, trace.last(), end_vm, Ok(true)) && result.output@ == end_vm.output@;
    let last = trace.last();
    if last.frames@.len() != 0 {
        if !(last.pending_panic is Some && last.panic_depth > 0 && last.frames@.len() == last.panic_depth) {
            let (mid, outcome) = choose|mid: VirtualMachine, outcome: Result<(), Fault>|
                #[trigger] frame_stepped(program, last, mid, outcome) && match outcome {
                    Ok(()) => Ok::<bool, Fault>(true) == Ok::<bool, Fault>(false) && end_vm == mid,
                    Err(Fault::Panic(p)) => Ok::<bool, Fault>(true) == Ok::<bool, Fault>(false) && panic_started(mid, end_vm, p),
                    Err(Fault::Error(m)) => Ok::<bool, Fault>(true) == Err::<bool, Fault>(Fault::Error(m)) && end_vm == mid,
                };
        }
    }
}

/// Nothing of what a machine held before a run reaches the run: any two
/// states that a run of `program` starts in agree on the stack, the
/// output, the pending panic, the heap's contents and counts, and the
/// entry frame.
pub proof fn law_runs_start_alike(program: Program, a: VirtualMachine, b: VirtualMachine)
    requires
        run_started(program, a),
        run_started(program, b),
    ensures
        a.stack@ == b.stack@,
        a.output@ == b.output@,
        a.pending_panic == b.pending_panic,
        a.panic_depth == b.panic_depth,
        a.heap.cells_view() == b.heap.cells_view(),
        a.heap.channel_count() == b.heap.channel_count(),
        a.heap.map_count() == b.heap.map_count(),
        a.frames@.len() == b.frames@.len(),
        a.frames@[0].function_index == b.frames@[0].function_index,
        a.frames@[0].pc == b.frames@[0].pc,
        a.frames@[0].locals@ == b.frames@[0].locals@,
        a.frames@[0].deferred_calls@ == b.frames@[0].deferred_calls@,
        a.frames@[0].pending_return_values == b.frames@[0].pending_return_values,
        a.frames@[0].return_mode == b.frames@[0].return_mode,
        a.frames@[0].returning == b.frames@[0].returning,
        a.frames@[0].parameter_count == b.frames@[0].parameter_count,
        a.frames@[0].return_types@ == b.frames@[0].return_types@,
        a.frames@[0].has_named_results == b.frames@[0].has_named_results,
        a.frames@[0].recover_target == b.frames@[0].recover_target,
{
    assert(a.stack@ =~= b.stack@);
    assert(a.output@ =~= b.output@);
    assert(a.heap.cells_view() =~= b.heap.cells_view());
    assert(a.frames@[0].locals@ =~= b.frames@[0].locals@);
    assert(a.frames@[0].deferred_calls@ =~= b.frames@[0].deferred_calls@);
}

/// A run that fails carries the output printed before the failure.
pub proof fn lemma_run_outcome_err(program: Program, end_vm: VirtualMachine, e: RuntimeError)
    requires
        run_outcome(program, end_vm, Err(e)),
    ensures
        e.output_view() == end_vm.output_view(),
{
}

impl VirtualMachine {
    /// Runs one step: executes an instruction, or takes one step of
    /// returning or of unwinding a panic. `Ok(true)` once no frame is left.
    /// A panic raised by the step starts unwinding; an error, or a panic
    /// that unwound every frame, ends the run.
    fn run_step(&mut self, program: &Program) -> (r: Result<bool, Fault>)
        requires
            old(self).heap.wf(),
        ensures
            final(self).heap.wf(),
            r == Ok::<bool, Fault>(true) ==> final(self).frames@.len() == 0,
            old(self).frames@.len() == 0 && old(self).pending_panic is None ==> r == Ok::<bool, Fault>(true),
            step_done(*program, *old(self), *final(self), r),
    {
        if self.frames.len() == 0 {
            return match self.pending_panic.take() {
                Some(payload) => Err(Fault::Panic(payload)),
                None => Ok(true),
            };
        }
        if self.panic_ready_to_unwind() {
            return match self.resume_panic_unwind(program) {
                Ok(()) => Ok(false),
                Err(e) => Err(e),
            };
        }
        let top = self.frames.len() - 1;
        let ghost start = *self;
        let outcome = if self.frames[top].returning {
            self.resume_return(program)
        } else {
            self.execute_instruction(program)
        };
        let ghost mid = *self;
        assert(frame_stepped(*program, start, mid, outcome));
        match outcome {
            Ok(()) => Ok(false),
            Err(Fault::Panic(payload)) => {
                self.begin_panic(payload);
                Ok(false)
            },
            Err(Fault::Error(message)) => Err(Fault::Error(message)),
        }
    }

    /// Runs `program` from its entry function until it returns, fails or
    /// exhausts the step budget of `u64::MAX` steps. The machine starts
    /// afresh: empty stack, no frames, no output, an empty heap.
    ///
    /// The result holds everything the program printed. An error carries
    /// the output printed before it; a panic that no deferred function
    /// recovered ends the run as an error marked as a panic.
    pub fn execute(&mut self, program: &Program) -> (r: Result<ExecutionResult, RuntimeError>)
        ensures
            program.entry_function_index >= program.functions@.len() ==> (r matches Err(e)
                && e.message_view() == "entry function index is invalid"@ && !e.panicked_view()
                && e.output_view() == Seq::<char>::empty()),
            r matches Ok(result) ==> result.output@ == final(self).output_view() && final(self).frame_count() == 0,
            r matches Err(e) ==> e.output_view() == final(self).output_view(),
            program.entry_function_index < program.functions@.len() ==> run_outcome(*program, *final(self), r),
    {
        self.stack = Vec::new();
        self.frames = Vec::new();
        self.output = String::new();
        self.heap = Heap::new();
        self.pending_panic = None;
        self.panic_depth = 0;
        if program.entry_function_index >= program.functions.len() {
            let mut message = String::new();
            push_str(&mut message, "entry function index is invalid");
            return Err(self.into_runtime_error(Fault::Error(message)));
        }
        let entry = &program.functions[program.entry_function_index];
        self.frames.push(CallFrame::new(program.entry_function_index, entry, ReturnMode::Normal));
        let ghost mut trace: Seq<VirtualMachine> = seq![*self];
        assert(run_started(*program, trace[0]));
        let mut budget: u64 = u64::MAX;
        while budget > 0
            invariant
                self.heap.wf(),
                program.entry_function_index < program.functions@.len(),
                runs_through(*program, trace),
                trace.last() == *self,
                trace.len() == u64::MAX - budget + 1,
            decreases budget,
        {
            budget = budget - 1;
            let ghost before = *self;
            let outcome = self.run_step(program);
            match outcome {
                Ok(true) => {
                    let result = ExecutionResult { output: self.output.clone() };
                    let r: Result<ExecutionResult, RuntimeError> = Ok(result);
                    assert(runs_through(*program, trace) && step_done(*program, trace.last(), *self, Ok(true)));
                    return r;
                },
                Ok(false) => {
                    proof {
                        let next = trace.push(*self);
                        assert(stepped_on(*program, next, trace.len() - 1));
                        assert forall|i: int| 0 <= i < next.len() - 1 implies #[trigger] stepped_on(*program, next, i) by {
                            if i < trace.len() - 1 {
                                assert(stepped_on(*program, trace, i));
                            }
                        }
                        trace = next;
                    }
                },
                Err(fault) => {
                    let e = self.into_runtime_error(fault);
                    assert(step_done(*program, trace.last(), *self, Err(fault)) && error_for(*self, fault, e));
                    return Err(e);
                },
            }
        }
        let mut message = String::new();
        push_str(&mut message, "execution step limit exceeded");
        let e = self.into_runtime_error(Fault::Error(message));
        assert(runs_through(*program, trace) && trace.len() == u64::MAX + 1 && *self == trace.last());
        Err(e)
    }
}

/// The machine is unchanged but for its heap.
pub open spec fn only_heap_changed(after: VirtualMachine, before: VirtualMachine) -> bool {
    &&& after.stack@ == before.stack@
    &&& after.frames@ == before.frames@
    &&& after.output@ == before.output@
    &&& after.pending_panic == before.pending_panic
    &&& after.panic_depth == before.panic_depth
}

/// The results a frame returns when it finishes without a `return` of its
/// own: its named results, or the zero value of each result type.
pub open spec fn synthesized_results(frame: CallFrame, values: Seq<Value>) -> bool {
    &&& values.len() == frame.return_types@.len()
    &&& frame.has_named_results ==> forall|k: int| 0 <= k < values.len()
        ==> #[trigger] values[k].equiv(frame.locals@[frame.parameter_count + k])
    &&& !frame.has_named_results ==> forall|k: int| 0 <= k < values.len()
        ==> is_zero_value(frame.return_types@[k], #[trigger] values[k])
}

/// The map key that a value stands for, if it can key a map.
pub open spec fn key_of_value(v: Value) -> Option<MapKey> {
    match v {
        Value::Integer(n) => Some(MapKey::Integer(n)),
        Value::Byte(b) => Some(MapKey::Byte(b)),
        Value::Boolean(b) => Some(MapKey::Boolean(b)),
        Value::String(s) => Some(MapKey::String(s)),
        _ => None,
    }
}

/// Turns a scalar into a map key.
pub fn value_to_key(v: Value) -> (r: Option<MapKey>)
    ensures
        r == key_of_value(v),
{
    match v {
        Value::Integer(n) => Some(MapKey::Integer(n)),
        Value::Byte(b) => Some(MapKey::Byte(b)),
        Value::Boolean(b) => Some(MapKey::Boolean(b)),
        Value::String(s) => Some(MapKey::String(s)),
        _ => None,
    }
}

} // verus!
