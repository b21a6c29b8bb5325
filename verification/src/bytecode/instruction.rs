use vstd::prelude::*;

use crate::builtin::{builtin_name, BuiltinFunction};
use crate::conversion::{conversion_name, ConversionKind};
use crate::package::{package_function_name, PackageFunction};
use crate::text::{bool_text, int_text, join_with, nat_text, pad3, push_bool, push_int, push_nat, push_padded3, push_quoted, push_str, quoted_text};

verus! {

/// The runtime types that instructions carry.
#[derive(Debug, PartialEq, Eq)]
pub enum ValueType {
    Int,
    Byte,
    Bool,
    String,
    Any,
    Slice(Box<ValueType>),
    Chan(Box<ValueType>),
    Mapping { key: Box<ValueType>, value: Box<ValueType> },
}

/// The source-level spelling of a runtime type.
pub open spec fn value_type_text(t: ValueType) -> Seq<char>
    decreases t,
{
    match t {
        ValueType::Int => "int"@,
        ValueType::Byte => "byte"@,
        ValueType::Bool => "bool"@,
        ValueType::String => "string"@,
        ValueType::Any => "any"@,
        ValueType::Slice(element) => "[]"@ + value_type_text(*element),
        ValueType::Chan(element) => "chan "@ + value_type_text(*element),
        ValueType::Mapping { key, value } => "map["@ + value_type_text(*key) + "]"@ + value_type_text(
            *value,
        ),
    }
}

impl ValueType {
    /// Returns the source-level spelling, such as `map[string][]byte`.
    pub fn render(&self) -> (text: String)
        ensures
            text@ == value_type_text(*self),
        decreases self,
    {
        let mut text = String::new();
        match self {
            ValueType::Int => push_str(&mut text, "int"),
            ValueType::Byte => push_str(&mut text, "byte"),
            ValueType::Bool => push_str(&mut text, "bool"),
            ValueType::String => push_str(&mut text, "string"),
            ValueType::Any => push_str(&mut text, "any"),
            ValueType::Slice(element) => {
                push_str(&mut text, "[]");
                let inner = element.render();
                push_str(&mut text, inner.as_str());
            },
            ValueType::Chan(element) => {
                push_str(&mut text, "chan ");
                let inner = element.render();
                push_str(&mut text, inner.as_str());
            },
            ValueType::Mapping { key, value } => {
                push_str(&mut text, "map[");
                let key_text = key.render();
                push_str(&mut text, key_text.as_str());
                push_str(&mut text, "]");
                let value_text = value.render();
                push_str(&mut text, value_text.as_str());
            },
        }
        assert(text@ =~= value_type_text(*self));
        text
    }

    /// The value type of a map type; `None` for every other type.
    pub fn map_value_type(&self) -> (r: Option<&ValueType>)
        ensures
            r == (match *self {
                ValueType::Mapping { value, .. } => Some(&*value),
                _ => None,
            }),
    {
        match self {
            ValueType::Mapping { value, .. } => Some(&**value),
            _ => None,
        }
    }

    /// Whether two types are the same type.
    pub fn same_as(&self, other: &ValueType) -> (r: bool)
        ensures
            r == (*self == *other),
        decreases self,
    {
        match (self, other) {
            (ValueType::Int, ValueType::Int) => true,
            (ValueType::Byte, ValueType::Byte) => true,
            (ValueType::Bool, ValueType::Bool) => true,
            (ValueType::String, ValueType::String) => true,
            (ValueType::Any, ValueType::Any) => true,
            (ValueType::Slice(a), ValueType::Slice(b)) => a.same_as(b),
            (ValueType::Chan(a), ValueType::Chan(b)) => a.same_as(b),
            (ValueType::Mapping { key: k1, value: v1 }, ValueType::Mapping { key: k2, value: v2 }) => {
                k1.same_as(k2) && v1.same_as(v2)
            },
            _ => false,
        }
    }

    /// A copy of the type.
    pub fn duplicate(&self) -> (r: ValueType)
        ensures
            r == *self,
        decreases self,
    {
        match self {
            ValueType::Int => ValueType::Int,
            ValueType::Byte => ValueType::Byte,
            ValueType::Bool => ValueType::Bool,
            ValueType::String => ValueType::String,
            ValueType::Any => ValueType::Any,
            ValueType::Slice(element) => ValueType::Slice(Box::new(element.duplicate())),
            ValueType::Chan(element) => ValueType::Chan(Box::new(element.duplicate())),
            ValueType::Mapping { key, value } => ValueType::Mapping {
                key: Box::new(key.duplicate()),
                value: Box::new(value.duplicate()),
            },
        }
    }
}

impl Clone for ValueType {
    fn clone(&self) -> (r: Self)
        ensures
            r == *self,
    {
        self.duplicate()
    }
}

/// The two kinds of indexable sequence.
#[derive(Clone, Copy, Debug, PartialEq, Eq, Structural)]
pub enum SequenceKind {
    Slice,
    String,
}

/// The name of a sequence kind.
pub open spec fn sequence_kind_name(kind: SequenceKind) -> &'static str {
    match kind {
        SequenceKind::Slice => "slice",
        SequenceKind::String => "string",
    }
}

impl SequenceKind {
    /// Returns `slice` or `string`.
    pub fn render(self) -> (name: &'static str)
        ensures
            name == sequence_kind_name(self),
    {
        match self {
            SequenceKind::Slice => "slice",
            SequenceKind::String => "string",
        }
    }
}

/// A compiled program: its functions and which one to run first.
#[derive(Clone, Debug, PartialEq, Eq)]
pub struct Program {
    pub package_name: String,
    pub entry_function: String,
    pub entry_function_index: usize,
    pub functions: Vec<CompiledFunction>,
}

/// One compiled function. For a variadic function the last parameter
/// collects the trailing arguments into a slice.
#[derive(Clone, Debug, PartialEq, Eq)]
pub struct CompiledFunction {
    pub name: String,
    pub parameter_count: usize,
    pub variadic_element_type: Option<ValueType>,
    pub return_types: Vec<ValueType>,
    pub local_names: Vec<String>,
    pub instructions: Vec<Instruction>,
}

/// The instructions of the stack machine.
#[derive(Clone, Debug, PartialEq, Eq)]
pub enum Instruction {
    PushInt(i64),
    PushByte(u8),
    PushBool(bool),
    PushString(String),
    PushNilInterface,
    PushNilSlice,
    PushNilChan,
    PushNilMap,
    BuildSlice(usize),
    BuildMap { map_type: ValueType, entry_count: usize },
    MakeSlice { element_type: ValueType, has_capacity: bool },
    MakeChan { element_type: ValueType, has_buffer: bool },
    MakeMap { map_type: ValueType, has_hint: bool },
    Convert(ConversionKind),
    BoxAny(ValueType),
    TypeAssert(ValueType),
    TypeAssertOk(ValueType),
    LoadLocal(usize),
    StoreLocal(usize),
    Add,
    Concat,
    Subtract,
    Multiply,
    Divide,
    Equal,
    NotEqual,
    Less,
    LessEqual,
    Greater,
    GreaterEqual,
    Index(SequenceKind),
    Slice { target_kind: SequenceKind, has_low: bool, has_high: bool },
    Receive(ValueType),
    IndexMap(ValueType),
    LookupMap(ValueType),
    MapKeys(ValueType),
    SetIndex,
    SetMapIndex,
    Send,
    Jump(usize),
    JumpIfFalse(usize),
    Pop,
    CallBuiltin(BuiltinFunction, usize),
    CallBuiltinSpread(BuiltinFunction, usize),
    Panic(ValueType),
    PanicNil,
    CallPackage(PackageFunction, usize),
    CallPackageSpread(PackageFunction, usize),
    CallFunction(usize, usize),
    CallFunctionSpread(usize, usize),
    DeferBuiltin(BuiltinFunction, usize),
    DeferPanic(ValueType),
    DeferPanicNil,
    DeferPackage(PackageFunction, usize),
    DeferPackageSpread(PackageFunction, usize),
    DeferFunction(usize, usize),
    DeferFunctionSpread(usize, usize),
    Return,
}

/// The one-line listing of an instruction.
pub open spec fn instruction_text(instruction: Instruction) -> Seq<char> {
    match instruction {
        Instruction::PushInt(value) => "push-int "@ + int_text(value as int),
        Instruction::PushByte(value) => "push-byte "@ + nat_text(value as nat),
        Instruction::PushBool(value) => "push-bool "@ + bool_text(value),
        Instruction::PushString(value) => "push-string "@ + quoted_text(value@),
        Instruction::PushNilInterface => "push-nil-interface"@,
        Instruction::PushNilSlice => "push-nil-slice"@,
        Instruction::PushNilChan => "push-nil-chan"@,
        Instruction::PushNilMap => "push-nil-map"@,
        Instruction::BuildSlice(count) => "build-slice "@ + nat_text(count as nat),
        Instruction::BuildMap { map_type, entry_count } => "build-map "@ + value_type_text(map_type) + " "@ + nat_text(entry_count as nat),
        Instruction::MakeSlice { element_type, has_capacity } => "make-slice "@ + value_type_text(element_type) + " cap="@ + (if has_capacity { "explicit"@ } else { "len"@ }),
        Instruction::MakeChan { element_type, has_buffer } => "make-chan "@ + value_type_text(element_type) + " buffer="@ + (if has_buffer { "explicit"@ } else { "none"@ }),
        Instruction::MakeMap { map_type, has_hint } => "make-map "@ + value_type_text(map_type) + " hint="@ + (if has_hint { "explicit"@ } else { "none"@ }),
        Instruction::Convert(conversion) => "convert "@ + conversion_name(conversion)@,
        Instruction::BoxAny(value_type) => "box-any "@ + value_type_text(value_type),
        Instruction::TypeAssert(value_type) => "type-assert "@ + value_type_text(value_type),
        Instruction::TypeAssertOk(value_type) => "type-assert-ok "@ + value_type_text(value_type),
        Instruction::LoadLocal(index) => "load-local "@ + nat_text(index as nat),
        Instruction::StoreLocal(index) => "store-local "@ + nat_text(index as nat),
        Instruction::Add => "add"@,
        Instruction::Concat => "concat"@,
        Instruction::Subtract => "subtract"@,
        Instruction::Multiply => "multiply"@,
        Instruction::Divide => "divide"@,
        Instruction::Equal => "equal"@,
        Instruction::NotEqual => "not-equal"@,
        Instruction::Less => "less"@,
        Instruction::LessEqual => "less-equal"@,
        Instruction::Greater => "greater"@,
        Instruction::GreaterEqual => "greater-equal"@,
        Instruction::Index(target_kind) => "index "@ + sequence_kind_name(target_kind)@,
        Instruction::Slice { target_kind, has_low, has_high } => "slice "@ + sequence_kind_name(target_kind)@ + " low="@ + bool_text(has_low) + " high="@ + bool_text(has_high),
        Instruction::Receive(element_type) => "receive "@ + value_type_text(element_type),
        Instruction::IndexMap(map_type) => "index-map "@ + value_type_text(map_type),
        Instruction::LookupMap(map_type) => "lookup-map "@ + value_type_text(map_type),
        Instruction::MapKeys(key_type) => "map-keys "@ + value_type_text(key_type),
        Instruction::SetIndex => "set-index"@,
        Instruction::SetMapIndex => "set-map-index"@,
        Instruction::Send => "send"@,
        Instruction::Jump(target) => "jump "@ + nat_text(target as nat),
        Instruction::JumpIfFalse(target) => "jump-if-false "@ + nat_text(target as nat),
        Instruction::Pop => "pop"@,
        Instruction::CallBuiltin(builtin, arity) => "call-builtin "@ + builtin_name(builtin)@ + " "@ + nat_text(arity as nat),
        Instruction::CallBuiltinSpread(builtin, prefix_arity) => "call-builtin-spread "@ + builtin_name(builtin)@ + " "@ + nat_text(prefix_arity as nat),
        Instruction::Panic(value_type) => "panic "@ + value_type_text(value_type),
        Instruction::PanicNil => "panic-nil"@,
        Instruction::CallPackage(function, arity) => "call-package "@ + package_function_name(function)@ + " "@ + nat_text(arity as nat),
        Instruction::CallPackageSpread(function, prefix_arity) => "call-package-spread "@ + package_function_name(function)@ + " "@ + nat_text(prefix_arity as nat),
        Instruction::CallFunction(index, arity) => "call-function "@ + nat_text(index as nat) + " "@ + nat_text(arity as nat),
        Instruction::CallFunctionSpread(index, prefix_arity) => "call-function-spread "@ + nat_text(index as nat) + " "@ + nat_text(prefix_arity as nat),
        Instruction::DeferBuiltin(builtin, arity) => "defer-builtin "@ + builtin_name(builtin)@ + " "@ + nat_text(arity as nat),
        Instruction::DeferPanic(value_type) => "defer-panic "@ + value_type_text(value_type),
        Instruction::DeferPanicNil => "defer-panic-nil"@,
        Instruction::DeferPackage(function, arity) => "defer-package "@ + package_function_name(function)@ + " "@ + nat_text(arity as nat),
        Instruction::DeferPackageSpread(function, prefix_arity) => "defer-package-spread "@ + package_function_name(function)@ + " "@ + nat_text(prefix_arity as nat),
        Instruction::DeferFunction(index, arity) => "defer-function "@ + nat_text(index as nat) + " "@ + nat_text(arity as nat),
        Instruction::DeferFunctionSpread(index, prefix_arity) => "defer-function-spread "@ + nat_text(index as nat) + " "@ + nat_text(prefix_arity as nat),
        Instruction::Return => "return"@,
    }
}

impl Instruction {
    /// Returns the one-line listing of the instruction, such as
    /// `call-builtin println 2`.
    pub fn render(&self) -> (text: String)
        ensures
            text@ == instruction_text(*self),
    {
        let mut text = String::new();
        match self {
            Instruction::PushInt(value) => {
                push_str(&mut text, "push-int ");
                push_int(&mut text, *value);
            },
            Instruction::PushByte(value) => {
                push_str(&mut text, "push-byte ");
                push_nat(&mut text, *value as u64);
            },
            Instruction::PushBool(value) => {
                push_str(&mut text, "push-bool ");
                push_bool(&mut text, *value);
            },
            Instruction::PushString(value) => {
                push_str(&mut text, "push-string ");
                push_quoted(&mut text, value.as_str());
            },
            Instruction::PushNilInterface => {
                push_str(&mut text, "push-nil-interface");
            },
            Instruction::PushNilSlice => {
                push_str(&mut text, "push-nil-slice");
            },
            Instruction::PushNilChan => {
                push_str(&mut text, "push-nil-chan");
            },
            Instruction::PushNilMap => {
                push_str(&mut text, "push-nil-map");
            },
            Instruction::BuildSlice(count) => {
                push_str(&mut text, "build-slice ");
                push_nat(&mut text, *count as u64);
            },
            Instruction::BuildMap { map_type, entry_count } => {
                push_str(&mut text, "build-map ");
                let rendered = map_type.render(); push_str(&mut text, rendered.as_str());
                push_str(&mut text, " ");
                push_nat(&mut text, *entry_count as u64);
            },
            Instruction::MakeSlice { element_type, has_capacity } => {
                push_str(&mut text, "make-slice ");
                let rendered = element_type.render(); push_str(&mut text, rendered.as_str());
                push_str(&mut text, " cap=");
                if *has_capacity { push_str(&mut text, "explicit"); } else { push_str(&mut text, "len"); }
            },
            Instruction::MakeChan { element_type, has_buffer } => {
                push_str(&mut text, "make-chan ");
                let rendered = element_type.render(); push_str(&mut text, rendered.as_str());
                push_str(&mut text, " buffer=");
                if *has_buffer { push_str(&mut text, "explicit"); } else { push_str(&mut text, "none"); }
            },
            Instruction::MakeMap { map_type, has_hint } => {
                push_str(&mut text, "make-map ");
                let rendered = map_type.render(); push_str(&mut text, rendered.as_str());
                push_str(&mut text, " hint=");
                if *has_hint { push_str(&mut text, "explicit"); } else { push_str(&mut text, "none"); }
            },
            Instruction::Convert(conversion) => {
                push_str(&mut text, "convert ");
                push_str(&mut text, conversion.render());
            },
            Instruction::BoxAny(value_type) => {
                push_str(&mut text, "box-any ");
                let rendered = value_type.render(); push_str(&mut text, rendered.as_str());
            },
            Instruction::TypeAssert(value_type) => {
                push_str(&mut text, "type-assert ");
                let rendered = value_type.render(); push_str(&mut text, rendered.as_str());
            },
            Instruction::TypeAssertOk(value_type) => {
                push_str(&mut text, "type-assert-ok ");
                let rendered = value_type.render(); push_str(&mut text, rendered.as_str());
            },
            Instruction::LoadLocal(index) => {
                push_str(&mut text, "load-local ");
                push_nat(&mut text, *index as u64);
            },
            Instruction::StoreLocal(index) => {
                push_str(&mut text, "store-local ");
                push_nat(&mut text, *index as u64);
            },
            Instruction::Add => {
                push_str(&mut text, "add");
            },
            Instruction::Concat => {
                push_str(&mut text, "concat");
            },
            Instruction::Subtract => {
                push_str(&mut text, "subtract");
            },
            Instruction::Multiply => {
                push_str(&mut text, "multiply");
            },
            Instruction::Divide => {
                push_str(&mut text, "divide");
            },
            Instruction::Equal => {
                push_str(&mut text, "equal");
            },
            Instruction::NotEqual => {
                push_str(&mut text, "not-equal");
            },
            Instruction::Less => {
                push_str(&mut text, "less");
            },
            Instruction::LessEqual => {
                push_str(&mut text, "less-equal");
            },
            Instruction::Greater => {
                push_str(&mut text, "greater");
            },
            Instruction::GreaterEqual => {
                push_str(&mut text, "greater-equal");
            },
            Instruction::Index(target_kind) => {
                push_str(&mut text, "index ");
                push_str(&mut text, target_kind.render());
            },
            Instruction::Slice { target_kind, has_low, has_high } => {
                push_str(&mut text, "slice ");
                push_str(&mut text, target_kind.render());
                push_str(&mut text, " low=");
                push_bool(&mut text, *has_low);
                push_str(&mut text, " high=");
                push_bool(&mut text, *has_high);
            },
            Instruction::Receive(element_type) => {
                push_str(&mut text, "receive ");
                let rendered = element_type.render(); push_str(&mut text, rendered.as_str());
            },
            Instruction::IndexMap(map_type) => {
                push_str(&mut text, "index-map ");
                let rendered = map_type.render(); push_str(&mut text, rendered.as_str());
            },
            Instruction::LookupMap(map_type) => {
                push_str(&mut text, "lookup-map ");
                let rendered = map_type.render(); push_str(&mut text, rendered.as_str());
            },
            Instruction::MapKeys(key_type) => {
                push_str(&mut text, "map-keys ");
                let rendered = key_type.render(); push_str(&mut text, rendered.as_str());
            },
            Instruction::SetIndex => {
                push_str(&mut text, "set-index");
            },
            Instruction::SetMapIndex => {
                push_str(&mut text, "set-map-index");
            },
            Instruction::Send => {
                push_str(&mut text, "send");
            },
            Instruction::Jump(target) => {
                push_str(&mut text, "jump ");
                push_nat(&mut text, *target as u64);
            },
            Instruction::JumpIfFalse(target) => {
                push_str(&mut text, "jump-if-false ");
                push_nat(&mut text, *target as u64);
            },
            Instruction::Pop => {
                push_str(&mut text, "pop");
            },
            Instruction::CallBuiltin(builtin, arity) => {
                push_str(&mut text, "call-builtin ");
                push_str(&mut text, builtin.render());
                push_str(&mut text, " ");
                push_nat(&mut text, *arity as u64);
            },
            Instruction::CallBuiltinSpread(builtin, prefix_arity) => {
                push_str(&mut text, "call-builtin-spread ");
                push_str(&mut text, builtin.render());
                push_str(&mut text, " ");
                push_nat(&mut text, *prefix_arity as u64);
            },
            Instruction::Panic(value_type) => {
                push_str(&mut text, "panic ");
                let rendered = value_type.render(); push_str(&mut text, rendered.as_str());
            },
            Instruction::PanicNil => {
                push_str(&mut text, "panic-nil");
            },
            Instruction::CallPackage(function, arity) => {
                push_str(&mut text, "call-package ");
                push_str(&mut text, function.render());
                push_str(&mut text, " ");
                push_nat(&mut text, *arity as u64);
            },
            Instruction::CallPackageSpread(function, prefix_arity) => {
                push_str(&mut text, "call-package-spread ");
                push_str(&mut text, function.render());
                push_str(&mut text, " ");
                push_nat(&mut text, *prefix_arity as u64);
            },
            Instruction::CallFunction(index, arity) => {
                push_str(&mut text, "call-function ");
                push_nat(&mut text, *index as u64);
                push_str(&mut text, " ");
                push_nat(&mut text, *arity as u64);
            },
            Instruction::CallFunctionSpread(index, prefix_arity) => {
                push_str(&mut text, "call-function-spread ");
                push_nat(&mut text, *index as u64);
                push_str(&mut text, " ");
                push_nat(&mut text, *prefix_arity as u64);
            },
            Instruction::DeferBuiltin(builtin, arity) => {
                push_str(&mut text, "defer-builtin ");
                push_str(&mut text, builtin.render());
                push_str(&mut text, " ");
                push_nat(&mut text, *arity as u64);
            },
            Instruction::DeferPanic(value_type) => {
                push_str(&mut text, "defer-panic ");
                let rendered = value_type.render(); push_str(&mut text, rendered.as_str());
            },
            Instruction::DeferPanicNil => {
                push_str(&mut text, "defer-panic-nil");
            },
            Instruction::DeferPackage(function, arity) => {
                push_str(&mut text, "defer-package ");
                push_str(&mut text, function.render());
                push_str(&mut text, " ");
                push_nat(&mut text, *arity as u64);
            },
            Instruction::DeferPackageSpread(function, prefix_arity) => {
                push_str(&mut text, "defer-package-spread ");
                push_str(&mut text, function.render());
                push_str(&mut text, " ");
                push_nat(&mut text, *prefix_arity as u64);
            },
            Instruction::DeferFunction(index, arity) => {
                push_str(&mut text, "defer-function ");
                push_nat(&mut text, *index as u64);
                push_str(&mut text, " ");
                push_nat(&mut text, *arity as u64);
            },
            Instruction::DeferFunctionSpread(index, prefix_arity) => {
                push_str(&mut text, "defer-function-spread ");
                push_nat(&mut text, *index as u64);
                push_str(&mut text, " ");
                push_nat(&mut text, *prefix_arity as u64);
            },
            Instruction::Return => {
                push_str(&mut text, "return");
            },
        }
        assert(text@ =~= instruction_text(*self));
        text
    }
}

} // verus!

verus! {

/// Each line followed by a line break.
pub open spec fn terminated_lines(lines: Seq<Seq<char>>) -> Seq<char>
    decreases lines.len(),
{
    if lines.len() == 0 {
        Seq::empty()
    } else {
        terminated_lines(lines.drop_last()) + lines.last() + seq!['\n']
    }
}

/// The spellings of a list of types.
pub open spec fn type_texts(types: Seq<ValueType>) -> Seq<Seq<char>> {
    types.map_values(|t: ValueType| value_type_text(t))
}

/// The texts of a list of names.
pub open spec fn name_texts(names: Seq<String>) -> Seq<Seq<char>> {
    names.map_values(|n: String| n@)
}

/// How a function's parameters are described: their number, or for a
/// variadic function the fixed ones plus the variadic element type.
pub open spec fn parameters_text(f: CompiledFunction) -> Seq<char> {
    match f.variadic_element_type {
        Some(t) => nat_text((f.parameter_count - 1) as nat) + " + ..."@ + value_type_text(t),
        None => nat_text(f.parameter_count as nat),
    }
}

/// How a function's results are described: `void`, or their types.
pub open spec fn returns_text(f: CompiledFunction) -> Seq<char> {
    if f.return_types@.len() == 0 {
        "void"@
    } else {
        join_with(type_texts(f.return_types@), ", "@)
    }
}

/// The header line of function `index` in a listing.
pub open spec fn function_header_text(index: nat, f: CompiledFunction) -> Seq<char> {
    "function "@ + nat_text(index) + ": "@ + f.name@ + " (params="@ + parameters_text(f) + ", returns="@
        + returns_text(f) + ", locals="@ + join_with(name_texts(f.local_names@), ", "@) + ")"@
}

/// The line of instruction `i` of function `f` in a listing.
pub open spec fn instruction_line(f: nat, i: nat, instruction: Instruction) -> Seq<char> {
    "  "@ + pad3(nat_text(f)) + "."@ + pad3(nat_text(i)) + ": "@ + instruction_text(instruction)
}

/// The lines of function `index`: its header, then its instructions.
pub open spec fn function_lines(index: nat, f: CompiledFunction) -> Seq<Seq<char>> {
    seq![function_header_text(index, f)] + Seq::new(
        f.instructions@.len(),
        |i: int| instruction_line(index, i as nat, f.instructions@[i]),
    )
}

/// The lines of the first `n` functions of a program.
pub open spec fn functions_lines(functions: Seq<CompiledFunction>, n: nat) -> Seq<Seq<char>>
    decreases n,
{
    if n == 0 {
        Seq::empty()
    } else {
        functions_lines(functions, (n - 1) as nat) + function_lines((n - 1) as nat, functions[n - 1])
    }
}

/// The lines of a program listing.
pub open spec fn program_lines(p: Program) -> Seq<Seq<char>> {
    seq!["package: "@ + p.package_name@, "entry: "@ + p.entry_function@, "entry-index: "@ + nat_text(
        p.entry_function_index as nat,
    )] + functions_lines(p.functions@, p.functions@.len())
}

/// Appends `parts` with `, ` between neighbours.
fn push_joined(text: &mut String, parts: &Vec<String>)
    ensures
        final(text)@ == old(text)@ + join_with(name_texts(parts@), ", "@),
{
    let ghost texts = name_texts(parts@);
    let mut i: usize = 0;
    while i < parts.len()
        invariant
            i <= parts@.len(),
            texts == name_texts(parts@),
            text@ == old(text)@ + join_with(texts.take(i as int), ", "@),
        decreases parts@.len() - i,
    {
        if i > 0 {
            push_str(text, ", ");
        }
        push_str(text, parts[i].as_str());
        proof {
            assert(texts.take(i + 1).drop_last() =~= texts.take(i as int));
            assert(texts.take(i + 1).last() == parts@[i as int]@);
            if i == 0 {
                assert(join_with(texts.take(1), ", "@) == texts.take(1)[0]);
            }
        }
        i = i + 1;
    }
    assert(texts.take(parts@.len() as int) =~= texts);
}

/// Appends the spellings of `types` with `, ` between neighbours.
fn push_joined_types(text: &mut String, types: &Vec<ValueType>)
    ensures
        final(text)@ == old(text)@ + join_with(type_texts(types@), ", "@),
{
    let ghost texts = type_texts(types@);
    let mut i: usize = 0;
    while i < types.len()
        invariant
            i <= types@.len(),
            texts == type_texts(types@),
            text@ == old(text)@ + join_with(texts.take(i as int), ", "@),
        decreases types@.len() - i,
    {
        if i > 0 {
            push_str(text, ", ");
        }
        let piece = types[i].render();
        push_str(text, piece.as_str());
        proof {
            assert(texts.take(i + 1).drop_last() =~= texts.take(i as int));
            assert(texts.take(i + 1).last() == value_type_text(types@[i as int]));
            if i == 0 {
                assert(join_with(texts.take(1), ", "@) == texts.take(1)[0]);
            }
        }
        i = i + 1;
    }
    assert(texts.take(types@.len() as int) =~= texts);
}

impl CompiledFunction {
    /// Appends the header line of this function, as function `index` of a
    /// listing.
    fn push_header(&self, text: &mut String, index: usize)
        requires
            self.variadic_element_type is Some ==> self.parameter_count >= 1,
        ensures
            final(text)@ == old(text)@ + function_header_text(index as nat, *self),
    {
        push_str(text, "function ");
        push_nat(text, index as u64);
        push_str(text, ": ");
        push_str(text, self.name.as_str());
        push_str(text, " (params=");
        match &self.variadic_element_type {
            Some(t) => {
                push_nat(text, (self.parameter_count - 1) as u64);
                push_str(text, " + ...");
                let piece = t.render();
                push_str(text, piece.as_str());
            },
            None => push_nat(text, self.parameter_count as u64),
        }
        push_str(text, ", returns=");
        if self.return_types.len() == 0 {
            push_str(text, "void");
        } else {
            push_joined_types(text, &self.return_types);
        }
        push_str(text, ", locals=");
        push_joined(text, &self.local_names);
        push_str(text, ")");
        assert(text@ =~= old(text)@ + function_header_text(index as nat, *self));
    }
}

impl Program {
    /// The listing of the program: the package, the entry function and its
    /// index, then for each function a header line and one numbered line
    /// per instruction; every line ends with a line break.
    pub fn render(&self) -> (text: String)
        requires
            forall|i: int| 0 <= i < self.functions@.len() ==> (#[trigger] self.functions@[i]).variadic_element_type is Some
                ==> self.functions@[i].parameter_count >= 1,
        ensures
            text@ == terminated_lines(program_lines(*self)),
    {
        let mut text = String::new();
        push_str(&mut text, "package: ");
        push_str(&mut text, self.package_name.as_str());
        crate::text::push_char(&mut text, '\n');
        push_str(&mut text, "entry: ");
        push_str(&mut text, self.entry_function.as_str());
        crate::text::push_char(&mut text, '\n');
        push_str(&mut text, "entry-index: ");
        push_nat(&mut text, self.entry_function_index as u64);
        crate::text::push_char(&mut text, '\n');
        let ghost headers = seq!["package: "@ + self.package_name@, "entry: "@ + self.entry_function@,
            "entry-index: "@ + nat_text(self.entry_function_index as nat)];
        proof {
            assert(headers.drop_last().drop_last().drop_last() =~= Seq::<Seq<char>>::empty());
            assert(headers.drop_last().drop_last() =~= seq![headers[0]]);
            assert(headers.drop_last() =~= seq![headers[0], headers[1]]);
            reveal_with_fuel(terminated_lines, 4);
            assert(text@ =~= terminated_lines(headers));
        }
        let mut f: usize = 0;
        while f < self.functions.len()
            invariant
                f <= self.functions@.len(),
                forall|i: int| 0 <= i < self.functions@.len() ==> (#[trigger] self.functions@[i]).variadic_element_type is Some
                    ==> self.functions@[i].parameter_count >= 1,
                text@ == terminated_lines(headers + functions_lines(self.functions@, f as nat)),
            decreases self.functions@.len() - f,
        {
            let function = &self.functions[f];
            let ghost before = headers + functions_lines(self.functions@, f as nat);
            function.push_header(&mut text, f);
            crate::text::push_char(&mut text, '\n');
            proof {
                let start = before + function_lines(f as nat, *function).take(1);
                assert(function_lines(f as nat, *function).take(1) =~= seq![function_header_text(f as nat, *function)]);
                assert(start.drop_last() =~= before);
                assert(text@ =~= terminated_lines(start));
            }
            let mut i: usize = 0;
            while i < function.instructions.len()
                invariant
                    i <= function.instructions@.len(),
                    text@ == terminated_lines(before + function_lines(f as nat, *function).take(i + 1)),
                decreases function.instructions@.len() - i,
            {
                let ghost previous = before + function_lines(f as nat, *function).take(i + 1);
                push_str(&mut text, "  ");
                let fi = crate::text::nat_string(f as u64);
                push_padded3(&mut text, fi.as_str());
                push_str(&mut text, ".");
                let ii = crate::text::nat_string(i as u64);
                push_padded3(&mut text, ii.as_str());
                push_str(&mut text, ": ");
                let line = function.instructions[i].render();
                push_str(&mut text, line.as_str());
                crate::text::push_char(&mut text, '\n');
                proof {
                    let next = before + function_lines(f as nat, *function).take(i + 2);
                    assert(next.drop_last() =~= previous);
                    assert(next.last() == instruction_line(f as nat, i as nat, function.instructions@[i as int]));
                    assert(text@ =~= terminated_lines(next));
                }
                i = i + 1;
            }
            proof {
                assert(function_lines(f as nat, *function).take(function.instructions@.len() as int + 1)
                    =~= function_lines(f as nat, *function));
                assert(headers + functions_lines(self.functions@, (f + 1) as nat)
                    =~= before + function_lines(f as nat, *function));
            }
            f = f + 1;
        }
        text
    }
}

} // verus!
