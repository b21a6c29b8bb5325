//! Calls of compiled functions: new frames, argument passing (variadic
//! parameters collect the trailing arguments into a slice), and returning
//! results to the caller after the deferred calls have run.

use vstd::prelude::*;
use vstd::string::StrSliceExecFns;

use crate::bytecode::instruction::{CompiledFunction, Instruction, Program, ValueType};
use crate::runtime::value::{SliceValue, Value};

use crate::runtime::vm::{error_message, CallFrame, Fault, ReturnMode, VirtualMachine};
use crate::text::{nat_text, push_nat, push_str};

verus! {

/// `instruction` pushes the zero value of `value_type`, as the code that
/// initialises a named result does.
pub open spec fn pushes_zero_of(instruction: Instruction, value_type: ValueType) -> bool {
    match (instruction, value_type) {
        (Instruction::PushInt(0), ValueType::Int) => true,
        (Instruction::PushByte(0), ValueType::Byte) => true,
        (Instruction::PushBool(false), ValueType::Bool) => true,
        (Instruction::PushNilInterface, ValueType::Any) => true,
        (Instruction::PushNilSlice, ValueType::Slice(_)) => true,
        (Instruction::PushNilChan, ValueType::Chan(_)) => true,
        (Instruction::PushNilMap, ValueType::Mapping { .. }) => true,
        (Instruction::PushString(s), ValueType::String) => s@.len() == 0,
        _ => false,
    }
}

/// Whether `instruction` pushes the zero value of `value_type`.
pub fn instruction_matches_zero_value(instruction: &Instruction, value_type: &ValueType) -> (r: bool)
    ensures
        r == pushes_zero_of(*instruction, *value_type),
{
    match (instruction, value_type) {
        (Instruction::PushInt(v), ValueType::Int) => *v == 0,
        (Instruction::PushByte(v), ValueType::Byte) => *v == 0,
        (Instruction::PushBool(v), ValueType::Bool) => !*v,
        (Instruction::PushNilInterface, ValueType::Any) => true,
        (Instruction::PushNilSlice, ValueType::Slice(_)) => true,
        (Instruction::PushNilChan, ValueType::Chan(_)) => true,
        (Instruction::PushNilMap, ValueType::Mapping { .. }) => true,
        (Instruction::PushString(s), ValueType::String) => s.as_str().unicode_len() == 0,
        _ => false,
    }
}

/// A function has named results when its code begins by storing the zero
/// value of each result type into the locals that follow its parameters.
pub open spec fn has_named_results(function: CompiledFunction) -> bool {
    let n = function.return_types@.len();
    &&& n > 0
    &&& forall|k: int| #![trigger function.return_types@[k]] 0 <= k < n ==> {
        &&& 2 * k + 1 < function.instructions@.len()
        &&& pushes_zero_of(function.instructions@[2 * k], function.return_types@[k])
        &&& function.instructions@[2 * k + 1] matches Instruction::StoreLocal(slot) && slot == function.parameter_count + k
    }
}

/// Whether a function has named results.
pub fn compiled_function_has_named_results(function: &CompiledFunction) -> (r: bool)
    ensures
        r == has_named_results(*function),
{
    let n = function.return_types.len();
    if n == 0 {
        return false;
    }
    let mut k: usize = 0;
    while k < n
        invariant
            n == function.return_types@.len(),
            k <= n,
            2 * k <= function.instructions@.len(),
            forall|j: int| #![trigger function.return_types@[j]] 0 <= j < k ==> {
                &&& pushes_zero_of(function.instructions@[2 * j], function.return_types@[j])
                &&& function.instructions@[2 * j + 1] matches Instruction::StoreLocal(slot) && slot == function.parameter_count + j
            },
        decreases n - k,
    {
        let count = function.instructions.len();
        let ghost t = function.return_types@[k as int];
        if k >= count / 2 || 2 * k + 1 >= count {
            return false;
        }
        if !instruction_matches_zero_value(&function.instructions[2 * k], &function.return_types[k]) {
            return false;
        }
        if function.parameter_count > usize::MAX - k {
            return false;
        }
        match &function.instructions[2 * k + 1] {
            Instruction::StoreLocal(slot) => {
                if *slot != function.parameter_count + k {
                    return false;
                }
            },
            _ => {
                return false;
            },
        }
        k = k + 1;
    }
    assert forall|j: int| #![trigger function.return_types@[j]] 0 <= j < n implies {
        &&& 2 * j + 1 < function.instructions@.len()
        &&& pushes_zero_of(function.instructions@[2 * j], function.return_types@[j])
        &&& function.instructions@[2 * j + 1] matches Instruction::StoreLocal(slot) && slot == function.parameter_count + j
    } by {
        assert(2 * j + 2 <= 2 * k);
    }
    true
}

/// `count` locals, each holding the integer zero.
pub fn zero_locals(count: usize) -> (r: Vec<Value>)
    ensures
        r@.len() == count,
        forall|i: int| 0 <= i < count ==> #[trigger] r@[i] == Value::Integer(0),
{
    let mut locals: Vec<Value> = Vec::new();
    let mut i: usize = 0;
    while i < count
        invariant
            i <= count,
            locals@.len() == i,
            forall|j: int| 0 <= j < i ==> #[trigger] locals@[j] == Value::Integer(0),
        decreases count - i,
    {
        locals.push(Value::Integer(0));
        i = i + 1;
    }
    locals
}

/// A copy of a list of types.
pub fn duplicate_types(types: &Vec<ValueType>) -> (r: Vec<ValueType>)
    ensures
        r@ == types@,
{
    let mut out: Vec<ValueType> = Vec::new();
    let mut i: usize = 0;
    while i < types.len()
        invariant
            i <= types@.len(),
            out@ == types@.take(i as int),
        decreases types@.len() - i,
    {
        out.push(types[i].duplicate());
        i = i + 1;
        assert(out@ =~= types@.take(i as int));
    }
    assert(types@.take(types@.len() as int) =~= types@);
    out
}

/// How the locals of a new frame start: the arguments in the first slots,
/// the integer zero elsewhere.
pub open spec fn locals_start_with(locals: Seq<Value>, arguments: Seq<Value>, count: nat) -> bool {
    &&& locals.len() == count
    &&& arguments.len() <= count
    &&& locals.take(arguments.len() as int) == arguments
    &&& forall|i: int| arguments.len() <= i < count ==> #[trigger] locals[i] == Value::Integer(0)
}

impl CallFrame {
    /// A frame for `function`, with its locals zeroed and no deferred calls.
    pub(super) fn new(function_index: usize, function: &CompiledFunction, return_mode: ReturnMode) -> (frame: CallFrame)
        ensures
            frame.function_index == function_index,
            frame.pc == 0,
            frame.locals@.len() == function.local_names@.len(),
            forall|i: int| 0 <= i < frame.locals@.len() ==> #[trigger] frame.locals@[i] == Value::Integer(0),
            frame.deferred_calls@.len() == 0,
            frame.pending_return_values is None,
            frame.return_mode == return_mode,
            !frame.returning,
            frame.parameter_count == function.parameter_count,
            frame.return_types@ == function.return_types@,
            frame.has_named_results == has_named_results(*function),
            frame.recover_target is None,
    {
        CallFrame {
            function_index,
            pc: 0,
            locals: zero_locals(function.local_names.len()),
            deferred_calls: Vec::new(),
            pending_return_values: None,
            return_mode,
            returning: false,
            parameter_count: function.parameter_count,
            return_types: duplicate_types(&function.return_types),
            has_named_results: compiled_function_has_named_results(function),
            recover_target: None,
        }
    }
}

/// The message for a call with the wrong number of arguments.
pub open spec fn arity_text(name: Seq<char>, at_least: bool, expected: nat, received: nat) -> Seq<char> {
    "function `"@ + name + "` expected "@ + (if at_least { "at least "@ } else { ""@ }) + nat_text(expected)
        + " arguments, received "@ + nat_text(received)
}

/// Builds the message for a call with the wrong number of arguments.
pub fn arity_error(name: &String, at_least: bool, expected: usize, received: usize) -> (f: Fault)
    ensures
        f matches Fault::Error(m) && m@ == arity_text(name@, at_least, expected as nat, received as nat),
{
    let mut message = String::new();
    push_str(&mut message, "function `");
    push_str(&mut message, name.as_str());
    push_str(&mut message, "` expected ");
    if at_least {
        push_str(&mut message, "at least ");
    } else {
        push_str(&mut message, "");
    }
    push_nat(&mut message, expected as u64);
    push_str(&mut message, " arguments, received ");
    push_nat(&mut message, received as u64);
    Fault::Error(message)
}

/// The arguments that a call binds to the parameters: for a variadic
/// function called without spreading, the fixed arguments followed by one
/// slice of the rest (nil when there are none); otherwise the arguments as
/// they are.
pub open spec fn binds_arguments(function: CompiledFunction, arguments: Seq<Value>, spread: bool, bound: Seq<Value>) -> bool {
    if function.variadic_element_type is Some && !spread {
        let fixed = (function.parameter_count - 1) as int;
        &&& bound.len() == function.parameter_count
        &&& bound.take(fixed) == arguments.take(fixed)
        &&& bound.last() is Slice
        &&& (arguments.len() == fixed ==> bound.last() == Value::Slice(SliceValue::spec_nil()))
    } else {
        bound == arguments
    }
}

/// What `call_user_function` does, as its contract states.
pub open spec fn call_user_function_done(before_vm: VirtualMachine, after_vm: VirtualMachine, program: Program, caller_frame_index: usize, function_index: usize, arguments: Vec<Value>, spread: bool, return_mode: ReturnMode, advance_caller_pc: bool, recover_target: Option<usize>, r: Result<(), Fault>) -> bool {
    &&& (after_vm.heap.wf())
    &&& (after_vm.stack@ == before_vm.stack@)
    &&& (after_vm.output@ == before_vm.output@)
    &&& (after_vm.pending_panic == before_vm.pending_panic)
    &&& (after_vm.panic_depth == before_vm.panic_depth)
    &&& (function_index >= program.functions@.len() ==> r is Err)
    &&& (r is Err ==> r matches Err(Fault::Error(_)))
    &&& (r is Err ==> after_vm.frames@ == before_vm.frames@)
    &&& (r is Ok ==> {
        let function = program.functions@[function_index as int];
        let frame = after_vm.frames@.last();
        &&& function_index < program.functions@.len()
        &&& after_vm.frames@.len() == before_vm.frames@.len() + 1
        &&& frame.function_index == function_index
        &&& frame.pc == 0
        &&& frame.return_mode == return_mode
        &&& frame.recover_target == recover_target
        &&& frame.deferred_calls@.len() == 0
        &&& frame.pending_return_values is None
        &&& !frame.returning
        &&& exists|bound: Seq<Value>| #[trigger] binds_arguments(function, arguments@, spread, bound)
            && locals_start_with(frame.locals@, bound, function.local_names@.len())
        &&& forall|i: int| 0 <= i < before_vm.frames@.len() && !(advance_caller_pc && i == caller_frame_index)
            ==> #[trigger] after_vm.frames@[i] == before_vm.frames@[i]
        &&& advance_caller_pc ==> after_vm.frames@[caller_frame_index as int].pc
            == before_vm.frames@[caller_frame_index as int].pc + 1
    })
}

impl VirtualMachine {
    /// Calls compiled function `function_index` with `arguments`, pushing
    /// a new frame. With `spread`, the last argument is already the slice
    /// for the variadic parameter. With `advance_caller_pc`, the caller at
    /// `caller_frame_index` resumes after the call instruction.
    pub(super) fn call_user_function(
        &mut self,
        program: &Program,
        caller_frame_index: usize,
        function_index: usize,
        arguments: Vec<Value>,
        spread: bool,
        return_mode: ReturnMode,
        advance_caller_pc: bool,
        recover_target: Option<usize>,
    ) -> (r: Result<(), Fault>)
        requires
            old(self).heap.wf(),
            advance_caller_pc ==> caller_frame_index < old(self).frames@.len()
                && old(self).frames@[caller_frame_index as int].pc < usize::MAX,
        ensures
            call_user_function_done(*old(self), *final(self), *program, caller_frame_index, function_index, arguments, spread, return_mode, advance_caller_pc, recover_target, r),
    {
        if function_index >= program.functions.len() {
            let mut message = String::new();
            push_str(&mut message, "invalid function index ");
            push_nat(&mut message, function_index as u64);
            return Err(Fault::Error(message));
        }
        let function = &program.functions[function_index];
        let variadic = match &function.variadic_element_type {
            Some(_) => true,
            None => false,
        };
        if variadic && !spread {
            if function.parameter_count == 0 {
                return Err(error_message("variadic function declares no parameters"));
            }
            let fixed = function.parameter_count - 1;
            if arguments.len() < fixed {
                return Err(arity_error(&function.name, true, fixed, arguments.len()));
            }
        } else if arguments.len() != function.parameter_count {
            return Err(arity_error(&function.name, false, function.parameter_count, arguments.len()));
        }
        if function.parameter_count > function.local_names.len() {
            return Err(error_message("function has fewer locals than parameters"));
        }
        let bound = if variadic && !spread {
            self.bind_variadic(arguments, function.parameter_count - 1)
        } else {
            arguments
        };
        assert(binds_arguments(*function, arguments@, spread, bound@));
        let mut frame = CallFrame::new(function_index, function, return_mode);
        frame.recover_target = recover_target;
        let count = function.local_names.len();
        let mut locals = bound;
        let ghost arguments_bound = locals@;
        while locals.len() < count
            invariant
                arguments_bound.len() <= locals@.len() <= count,
                locals@.take(arguments_bound.len() as int) == arguments_bound,
                forall|j: int| arguments_bound.len() <= j < locals@.len() ==> #[trigger] locals@[j] == Value::Integer(0),
            decreases count - locals@.len(),
        {
            locals.push(Value::Integer(0));
            assert(locals@.take(arguments_bound.len() as int) =~= arguments_bound);
        }
        frame.locals = locals;
        assert(locals_start_with(frame.locals@, arguments_bound, function.local_names@.len()));
        if advance_caller_pc {
            self.frames[caller_frame_index].pc = self.frames[caller_frame_index].pc + 1;
        }
        self.frames.push(frame);
        Ok(())
    }

    /// Collects the arguments after the first `fixed` into one slice on the
    /// heap (nil when there are none).
    fn bind_variadic(&mut self, arguments: Vec<Value>, fixed: usize) -> (bound: Vec<Value>)
        requires
            old(self).heap.wf(),
            fixed <= arguments@.len(),
        ensures
            final(self).heap.wf(),
            final(self).stack@ == old(self).stack@,
            final(self).frames@ == old(self).frames@,
            final(self).output@ == old(self).output@,
            final(self).pending_panic == old(self).pending_panic,
            final(self).panic_depth == old(self).panic_depth,
            bound@.len() == fixed + 1,
            bound@.take(fixed as int) == arguments@.take(fixed as int),
            bound@.last() is Slice,
            arguments@.len() == fixed ==> bound@.last() == Value::Slice(SliceValue::spec_nil()),
    {
        let mut bound = arguments;
        let rest = bound.split_off(fixed);
        let slice = if rest.len() == 0 {
            SliceValue::nil()
        } else {
            let ghost before = self.heap;
            let s = SliceValue::new(&mut self.heap, rest);
            proof {
                before.lemma_wf_maps_same(self.heap);
            }
            s
        };
        let ghost prefix = bound@;
        bound.push(Value::Slice(slice));
        assert(bound@.take(fixed as int) =~= prefix);
        bound
    }
}

} // verus!
