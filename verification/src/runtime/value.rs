//! Runtime values. Strings are immutable byte sequences held by value.
//! Slices, maps and channels are handles into a [`Heap`]: copying a handle
//! aliases the storage behind it, as in Go.

use vstd::prelude::*;
use vstd::string::StringSliceAdditionalSpecFns;

use crate::bytecode::instruction::ValueType;
use crate::text::{bool_text, int_text, lossy_text, nat_text, push_bool, push_int, push_nat, push_str, utf8_lossy};
use crate::runtime::byteseq::{
    bytes_to_vec, ends_with, extend_bytes, find_first, first_search, is_prefix, is_suffix, join_seqs, lex_compare,
    repeat_bytes, repeat_seq, starts_with,
};

verus! {

/// A runtime value.
#[derive(Debug, PartialEq, Eq)]
pub enum Value {
    Integer(i64),
    Byte(u8),
    Boolean(bool),
    String(StringValue),
    Interface(InterfaceValue),
    Slice(SliceValue),
    Chan(ChannelValue),
    Mapping(MapValue),
}

/// A value of the empty interface: either nil, or a dynamic type together
/// with a payload.
#[derive(Debug, PartialEq, Eq)]
pub struct InterfaceValue {
    value_type: Option<ValueType>,
    value: Option<Box<Value>>,
}

/// An immutable sequence of bytes; Go strings are byte strings.
#[derive(Debug, PartialEq, Eq)]
pub struct StringValue {
    bytes: Vec<u8>,
}

/// A window onto heap cells: elements `start .. start + len` are visible,
/// and `start + len .. start + capacity` may be exposed by reslicing.
#[derive(Clone, Copy, Debug, PartialEq, Eq, Structural)]
pub struct SliceValue {
    start: usize,
    len: usize,
    capacity: usize,
    is_nil: bool,
}

/// A handle to a channel on the heap; the nil channel refers to nothing.
#[derive(Clone, Copy, Debug, PartialEq, Eq, Structural)]
pub struct ChannelValue {
    id: usize,
    is_nil: bool,
}

/// A handle to a map on the heap; the nil map refers to nothing.
#[derive(Clone, Copy, Debug, PartialEq, Eq, Structural)]
pub struct MapValue {
    id: usize,
    is_nil: bool,
}

/// The comparable scalar values that may key a map.
#[derive(Debug, PartialEq, Eq)]
pub enum MapKey {
    Integer(i64),
    Byte(u8),
    Boolean(bool),
    String(StringValue),
}

/// Why a send did not happen.
#[derive(Clone, Copy, Debug, PartialEq, Eq, Structural)]
pub enum ChannelSendError {
    Nil,
    Closed,
    WouldBlock,
}

/// Why a receive did not happen.
#[derive(Clone, Copy, Debug, PartialEq, Eq, Structural)]
pub enum ChannelReceiveError {
    Nil,
    WouldBlock,
}

/// What a receive produced.
#[derive(Debug, PartialEq, Eq)]
pub enum ChannelReceiveResult {
    Value(Value),
    ClosedEmpty,
}

/// Why a close did not happen.
#[derive(Clone, Copy, Debug, PartialEq, Eq, Structural)]
pub enum ChannelCloseError {
    Nil,
    Closed,
}

/// The buffer of a channel; the front of the queue is at index 0.
#[derive(Debug)]
pub struct ChannelState {
    buffer: std::collections::VecDeque<Value>,
    capacity: usize,
    closed: bool,
}

/// The entries of a map, kept in ascending key order.
#[derive(Debug)]
pub struct MapState {
    entries: Vec<(MapKey, Value)>,
}

/// The storage behind slices, channels and maps.
#[derive(Debug)]
pub struct Heap {
    cells: Vec<Value>,
    channels: Vec<ChannelState>,
    maps: Vec<MapState>,
}

// ---------------------------------------------------------------------------
// Strings
// ---------------------------------------------------------------------------

impl View for StringValue {
    type V = Seq<u8>;

    closed spec fn view(&self) -> Seq<u8> {
        self.bytes@
    }
}

/// The bytes of each string, in order.
pub open spec fn string_views(elements: Seq<StringValue>) -> Seq<Seq<u8>> {
    elements.map_values(|e: StringValue| e@)
}

impl StringValue {
    /// The string with exactly these bytes.
    pub fn new(bytes: Vec<u8>) -> (r: Self)
        ensures
            r@ == bytes@,
    {
        StringValue { bytes }
    }

    /// The empty string.
    pub fn empty() -> (r: Self)
        ensures
            r@ == Seq::<u8>::empty(),
    {
        StringValue { bytes: Vec::new() }
    }

    /// The UTF-8 bytes of `text`.
    pub fn from(text: &str) -> (r: Self)
        ensures
            r@ == text.spec_bytes(),
    {
        StringValue { bytes: bytes_to_vec(text.as_bytes()) }
    }

    /// The number of bytes.
    pub fn len(&self) -> (n: usize)
        ensures
            n == self@.len(),
    {
        self.bytes.len()
    }

    /// The bytes.
    pub fn as_bytes(&self) -> (bytes: &[u8])
        ensures
            bytes@ == self@,
    {
        self.bytes.as_slice()
    }

    /// The byte at `index`, if there is one.
    pub fn byte_at(&self, index: usize) -> (r: Option<u8>)
        ensures
            r == (if index < self@.len() {
                Some(self@[index as int])
            } else {
                None
            }),
    {
        if index < self.bytes.len() {
            Some(self.bytes[index])
        } else {
            None
        }
    }

    /// A copy of the string.
    pub fn duplicate(&self) -> (r: Self)
        ensures
            r@ == self@,
    {
        StringValue { bytes: bytes_to_vec(self.bytes.as_slice()) }
    }

    /// The bytes `low .. high`; fails unless `low <= high <= len`.
    pub fn slice(&self, low: usize, high: usize) -> (r: Result<Self, ()>)
        ensures
            r is Ok <==> low <= high <= self@.len(),
            r matches Ok(s) ==> s@ == self@.subrange(low as int, high as int),
    {
        if low > high || high > self.bytes.len() {
            return Err(());
        }
        let mut bytes: Vec<u8> = Vec::new();
        let mut i: usize = low;
        while i < high
            invariant
                low <= i <= high <= self@.len(),
                bytes@ == self@.subrange(low as int, i as int),
            decreases high - i,
        {
            bytes.push(self.bytes[i]);
            i = i + 1;
            assert(bytes@ =~= self@.subrange(low as int, i as int));
        }
        Ok(StringValue { bytes })
    }

    /// The bytes of `self` followed by those of `other`.
    pub fn concat(&self, other: &Self) -> (r: Self)
        ensures
            r@ == self@ + other@,
    {
        let mut bytes = bytes_to_vec(self.bytes.as_slice());
        extend_bytes(&mut bytes, other.bytes.as_slice());
        StringValue { bytes }
    }

    /// Whether `needle` occurs in the string.
    pub fn contains(&self, needle: &Self) -> (r: bool)
        ensures
            r == !crate::runtime::byteseq::never_occurs(self@, needle@),
    {
        let found = find_first(self.bytes.as_slice(), needle.bytes.as_slice());
        proof {
            if let Some(i) = found {
                assert(crate::runtime::byteseq::occurs_at(self@, needle@, i as int));
            }
        }
        found.is_some()
    }

    /// Whether the string begins with `prefix`.
    pub fn has_prefix(&self, prefix: &Self) -> (r: bool)
        ensures
            r == is_prefix(self@, prefix@),
    {
        starts_with(self.bytes.as_slice(), prefix.bytes.as_slice())
    }

    /// Whether the string ends with `suffix`.
    pub fn has_suffix(&self, suffix: &Self) -> (r: bool)
        ensures
            r == is_suffix(self@, suffix@),
    {
        ends_with(self.bytes.as_slice(), suffix.bytes.as_slice())
    }

    /// The offset of the first occurrence of `needle`; an empty needle is
    /// found at 0.
    pub fn index_of(&self, needle: &Self) -> (r: Option<usize>)
        ensures
            first_search(self@, needle@, r),
    {
        find_first(self.bytes.as_slice(), needle.bytes.as_slice())
    }

    /// The string without `prefix` when it begins with it, else unchanged.
    pub fn trim_prefix(&self, prefix: &Self) -> (r: Result<Self, ()>)
        ensures
            r matches Ok(s) && s@ == (if is_prefix(self@, prefix@) {
                self@.skip(prefix@.len() as int)
            } else {
                self@
            }),
    {
        if prefix.bytes.len() == 0 || self.has_prefix(prefix) {
            let r = self.slice(prefix.bytes.len(), self.bytes.len());
            proof {
                if prefix@.len() == 0 {
                    assert(self@.subrange(0, 0) =~= prefix@);
                }
                assert(self@.subrange(prefix@.len() as int, self@.len() as int) =~= self@.skip(
                    prefix@.len() as int,
                ));
            }
            r
        } else {
            Ok(self.duplicate())
        }
    }

    /// The string without `suffix` when it ends with it, else unchanged.
    pub fn trim_suffix(&self, suffix: &Self) -> (r: Result<Self, ()>)
        ensures
            r matches Ok(s) && s@ == (if is_suffix(self@, suffix@) {
                self@.take(self@.len() - suffix@.len())
            } else {
                self@
            }),
    {
        if suffix.bytes.len() == 0 || self.has_suffix(suffix) {
            let r = self.slice(0, self.bytes.len() - suffix.bytes.len());
            proof {
                if suffix@.len() == 0 {
                    assert(self@.subrange(self@.len() as int, self@.len() as int) =~= suffix@);
                }
                assert(self@.subrange(0, self@.len() - suffix@.len()) =~= self@.take(
                    self@.len() - suffix@.len(),
                ));
            }
            r
        } else {
            Ok(self.duplicate())
        }
    }

    /// `count` copies of the string, one after another.
    pub fn repeat(&self, count: usize) -> (r: Self)
        ensures
            r@ == repeat_seq(self@, count as nat),
    {
        StringValue { bytes: repeat_bytes(self.bytes.as_slice(), count) }
    }

    /// The elements joined with `separator` between neighbours.
    pub fn join(elements: &[Self], separator: &Self) -> (r: Self)
        ensures
            r@ == join_seqs(string_views(elements@), separator@),
    {
        let ghost views = string_views(elements@);
        let mut bytes: Vec<u8> = Vec::new();
        let mut i: usize = 0;
        while i < elements.len()
            invariant
                i <= elements@.len(),
                views == string_views(elements@),
                bytes@ == join_seqs(views.take(i as int), separator@),
            decreases elements@.len() - i,
        {
            proof {
                assert(views.take(i + 1).drop_last() =~= views.take(i as int));
                assert(views.take(i + 1).last() == elements@[i as int]@);
            }
            if i > 0 {
                extend_bytes(&mut bytes, separator.bytes.as_slice());
            }
            extend_bytes(&mut bytes, elements[i].bytes.as_slice());
            i = i + 1;
            proof {
                if i == 1 {
                    assert(bytes@ =~= views.take(1)[0]);
                }
            }
        }
        assert(views.take(i as int) =~= views);
        StringValue { bytes }
    }
}

// ---------------------------------------------------------------------------
// Values and interfaces
// ---------------------------------------------------------------------------

impl InterfaceValue {
    /// The dynamic type, `None` for the nil interface.
    pub closed spec fn dynamic_type(self) -> Option<ValueType> {
        self.value_type
    }

    /// The payload, `None` for the nil interface.
    pub closed spec fn payload(self) -> Option<Value> {
        match self.value {
            Some(b) => Some(*b),
            None => None,
        }
    }

    /// The nil interface.
    pub fn nil() -> (r: Self)
        ensures
            r.dynamic_type() is None,
            r.payload() is None,
    {
        InterfaceValue { value_type: None, value: None }
    }

    /// An interface holding `value` with dynamic type `value_type`.
    pub fn boxed(value_type: ValueType, value: Value) -> (r: Self)
        ensures
            r.dynamic_type() == Some(value_type),
            r.payload() == Some(value),
    {
        InterfaceValue { value_type: Some(value_type), value: Some(Box::new(value)) }
    }

    /// The payload, if any.
    pub fn value(&self) -> (r: Option<&Value>)
        ensures
            r matches Some(v) ==> self.payload() == Some(*v),
            r is None ==> self.payload() is None,
    {
        match &self.value {
            Some(b) => Some(&**b),
            None => None,
        }
    }

    /// The dynamic type, if any.
    pub fn value_type(&self) -> (r: Option<&ValueType>)
        ensures
            r matches Some(t) ==> self.dynamic_type() == Some(*t),
            r is None ==> self.dynamic_type() is None,
    {
        match &self.value_type {
            Some(t) => Some(t),
            None => None,
        }
    }

    /// Consumes the interface and returns its payload.
    pub fn into_inner(self) -> (r: Option<Value>)
        ensures
            r == self.payload(),
    {
        match self.value {
            Some(b) => Some(*b),
            None => None,
        }
    }

    /// Whether the interface holds no payload.
    pub fn is_nil(&self) -> (r: bool)
        ensures
            r == self.payload() is None,
    {
        self.value.is_none()
    }

    /// A copy of the interface value.
    pub fn duplicate(&self) -> (r: Self)
        ensures
            r.dynamic_type() == self.dynamic_type(),
            r.payload() is Some == self.payload() is Some,
            r.payload() matches Some(p) ==> p.equiv(self.payload()->0),
    {
        let value_type = match &self.value_type {
            Some(t) => Some(t.duplicate()),
            None => None,
        };
        let value = match &self.value {
            Some(b) => Some(Box::new(b.duplicate())),
            None => None,
        };
        InterfaceValue { value_type, value }
    }
}

impl Value {
    /// Two values are interchangeable: equal, except that strings are
    /// compared by their bytes.
    pub closed spec fn equiv(self, other: Value) -> bool
        decreases self,
    {
        match (self, other) {
            (Value::String(a), Value::String(b)) => a@ == b@,
            (Value::Interface(a), Value::Interface(b)) => {
                &&& a.value_type == b.value_type
                &&& match (a.value, b.value) {
                    (Some(x), Some(y)) => (*x).equiv(*y),
                    (None, None) => true,
                    _ => false,
                }
            },
            (Value::String(_), _) => false,
            (Value::Interface(_), _) => false,
            _ => self == other,
        }
    }

    /// Every value is interchangeable with itself.
    pub proof fn lemma_equiv_refl(self)
        ensures
            self.equiv(self),
        decreases self,
    {
        if let Value::Interface(a) = self {
            if let Some(x) = a.value {
                (*x).lemma_equiv_refl();
            }
        }
    }

    /// Interchangeability is symmetric.
    pub proof fn lemma_equiv_sym(self, other: Value)
        requires
            self.equiv(other),
        ensures
            other.equiv(self),
        decreases self,
    {
        if let (Value::Interface(a), Value::Interface(b)) = (self, other) {
            if let (Some(x), Some(y)) = (a.value, b.value) {
                (*x).lemma_equiv_sym(*y);
            }
        }
    }

    /// Interchangeability with a scalar or a handle is equality.
    pub proof fn lemma_equiv_plain(self, other: Value)
        requires
            !(other is String),
            !(other is Interface),
        ensures
            self.equiv(other) <==> self == other,
    {
    }

    /// Interchangeable values are of the same kind, and equal unless they
    /// are strings or interfaces.
    pub proof fn lemma_equiv_kind(self, other: Value)
        requires
            self.equiv(other),
        ensures
            self is String <==> other is String,
            self is Interface <==> other is Interface,
            !(self is String) && !(self is Interface) ==> self == other,
    {
    }

    /// A value interchangeable with the nil interface is a nil interface.
    pub proof fn lemma_equiv_nil_interface(self, other: Value)
        requires
            self.equiv(other),
            other matches Value::Interface(i) && i.dynamic_type() is None && i.payload() is None,
        ensures
            self matches Value::Interface(j) && j.dynamic_type() is None && j.payload() is None,
    {
    }

    /// Interchangeable strings have the same bytes.
    pub proof fn lemma_equiv_string(self, s: StringValue)
        ensures
            self.equiv(Value::String(s)) <==> (self matches Value::String(t) && t@ == s@),
    {
    }

    /// A copy of the value. Handles are copied, so a copied slice, map or
    /// channel aliases the same storage.
    pub fn duplicate(&self) -> (r: Value)
        ensures
            r.equiv(*self),
        decreases self,
    {
        match self {
            Value::Integer(v) => Value::Integer(*v),
            Value::Byte(v) => Value::Byte(*v),
            Value::Boolean(v) => Value::Boolean(*v),
            Value::String(s) => Value::String(s.duplicate()),
            Value::Interface(i) => {
                let value_type = match &i.value_type {
                    Some(t) => Some(t.duplicate()),
                    None => None,
                };
                let value = match &i.value {
                    Some(b) => Some(Box::new(b.duplicate())),
                    None => None,
                };
                Value::Interface(InterfaceValue { value_type, value })
            },
            Value::Slice(s) => Value::Slice(*s),
            Value::Chan(c) => Value::Chan(*c),
            Value::Mapping(m) => Value::Mapping(*m),
        }
    }

    /// `r` is the zero value of the same kind as `self`, as `clear` writes
    /// it: zero, false, the empty string, or a nil interface, slice, channel
    /// or map.
    pub open spec fn zero_like(self, r: Value) -> bool {
        match self {
            Value::Integer(_) => r == Value::Integer(0),
            Value::Byte(_) => r == Value::Byte(0),
            Value::Boolean(_) => r == Value::Boolean(false),
            Value::String(_) => r matches Value::String(s) && s@.len() == 0,
            Value::Interface(_) => r matches Value::Interface(i) && i.dynamic_type() is None
                && i.payload() is None,
            Value::Slice(_) => r == Value::Slice(SliceValue::spec_nil()),
            Value::Chan(_) => r == Value::Chan(ChannelValue::spec_nil()),
            Value::Mapping(_) => r == Value::Mapping(MapValue::spec_nil()),
        }
    }

    /// The zero value of the same kind.
    pub fn clear_zero_value(&self) -> (r: Value)
        ensures
            self.zero_like(r),
    {
        let r = match self {
            Value::Integer(_) => Value::Integer(0),
            Value::Byte(_) => Value::Byte(0),
            Value::Boolean(_) => Value::Boolean(false),
            Value::String(_) => Value::String(StringValue::empty()),
            Value::Interface(_) => Value::Interface(InterfaceValue::nil()),
            Value::Slice(_) => Value::Slice(SliceValue::nil()),
            Value::Chan(_) => Value::Chan(ChannelValue::nil()),
            Value::Mapping(_) => Value::Mapping(MapValue::nil()),
        };
        r
    }

    /// `value` boxed in an interface with dynamic type `value_type`.
    pub fn boxed_any(value_type: ValueType, value: Value) -> (r: Self)
        ensures
            r matches Value::Interface(i) && i.dynamic_type() == Some(value_type) && i.payload()
                == Some(value),
    {
        Value::Interface(InterfaceValue::boxed(value_type, value))
    }

    /// The nil interface.
    pub fn nil_any() -> (r: Self)
        ensures
            r matches Value::Interface(i) && i.dynamic_type() is None && i.payload() is None,
    {
        Value::Interface(InterfaceValue::nil())
    }

    /// Whether `==` may compare the value without panicking: scalars,
    /// strings and channels are comparable, slices and maps are not, and an
    /// interface is comparable when nil or when its payload is.
    pub closed spec fn comparable(self) -> bool
        decreases self,
    {
        match self {
            Value::Interface(i) => match i.value {
                Some(b) => (*b).comparable(),
                None => true,
            },
            Value::Slice(_) => false,
            Value::Mapping(_) => false,
            _ => true,
        }
    }

    /// Slices and maps are not comparable, the other plain values are, and
    /// an interface is when it is nil or its payload is.
    pub proof fn lemma_comparable(self)
        ensures
            self is Slice || self is Mapping ==> !self.comparable(),
            self is Integer || self is Byte || self is Boolean || self is String || self is Chan
                ==> self.comparable(),
            self matches Value::Interface(i) ==> self.comparable() == match i.payload() {
                Some(v) => v.comparable(),
                None => true,
            },
    {
    }

    /// Whether `==` may compare the value without panicking.
    pub fn is_runtime_comparable(&self) -> (r: bool)
        ensures
            r == self.comparable(),
        decreases self,
    {
        match self {
            Value::Interface(i) => match &i.value {
                Some(b) => b.is_runtime_comparable(),
                None => true,
            },
            Value::Slice(_) => false,
            Value::Mapping(_) => false,
            _ => true,
        }
    }

    /// The payload of an interface value; `None` for other values.
    pub fn boxed_value(&self) -> (r: Option<&Value>)
        ensures
            r matches Some(v) ==> (self matches Value::Interface(i) && i.payload() == Some(*v)),
            r is None ==> !(self matches Value::Interface(i) && i.payload() is Some),
    {
        match self {
            Value::Interface(i) => i.value(),
            _ => None,
        }
    }
}

impl Default for Value {
    fn default() -> (r: Self)
        ensures
            r == Value::Integer(0),
    {
        Value::Integer(0)
    }
}

impl Clone for Value {
    fn clone(&self) -> (r: Self)
        ensures
            r.equiv(*self),
    {
        self.duplicate()
    }
}

impl Clone for StringValue {
    fn clone(&self) -> (r: Self)
        ensures
            r@ == self@,
    {
        self.duplicate()
    }
}

impl Clone for InterfaceValue {
    fn clone(&self) -> (r: Self)
        ensures
            r.dynamic_type() == self.dynamic_type(),
    {
        self.duplicate()
    }
}

/// Element-wise interchangeable sequences of values.
pub open spec fn seq_equiv(a: Seq<Value>, b: Seq<Value>) -> bool {
    a.len() == b.len() && forall|i: int| 0 <= i < a.len() ==> #[trigger] a[i].equiv(b[i])
}

/// A copy of every value in `values`.
pub fn duplicate_values(values: &[Value]) -> (r: Vec<Value>)
    ensures
        seq_equiv(r@, values@),
{
    let mut out: Vec<Value> = Vec::new();
    let mut i: usize = 0;
    while i < values.len()
        invariant
            i <= values@.len(),
            out@.len() == i,
            forall|k: int| 0 <= k < i ==> #[trigger] out@[k].equiv(values@[k]),
        decreases values@.len() - i,
    {
        out.push(values[i].duplicate());
        i = i + 1;
    }
    out
}

// ---------------------------------------------------------------------------
// The heap and slices
// ---------------------------------------------------------------------------

/// The values of a run of heap cells, each holding a byte.
pub open spec fn all_bytes(values: Seq<Value>) -> bool {
    forall|i: int| 0 <= i < values.len() ==> #[trigger] values[i] is Byte
}

/// Every value of the run is a string.
pub open spec fn all_strings(values: Seq<Value>) -> bool {
    forall|i: int| 0 <= i < values.len() ==> #[trigger] values[i] is String
}

/// The bytes held by a run of byte values.
pub open spec fn byte_payloads(values: Seq<Value>) -> Seq<u8> {
    Seq::new(values.len(), |i: int| values[i]->Byte_0)
}

/// Byte values holding `bytes`.
pub open spec fn byte_values(bytes: Seq<u8>) -> Seq<Value> {
    Seq::new(bytes.len(), |i: int| Value::Byte(bytes[i]))
}

impl Heap {
    /// An empty heap.
    pub fn new() -> (h: Heap)
        ensures
            h.cells_view().len() == 0,
            h.channel_count() == 0,
            h.map_count() == 0,
            h.wf(),
    {
        Heap { cells: Vec::new(), channels: Vec::new(), maps: Vec::new() }
    }

    /// The slice cells.
    pub closed spec fn cells_view(self) -> Seq<Value> {
        self.cells@
    }

    /// Both heaps hold the same channels.
    pub closed spec fn channels_same(self, other: Heap) -> bool {
        self.channels@ == other.channels@
    }

    /// Both heaps hold the same maps.
    pub closed spec fn maps_same(self, other: Heap) -> bool {
        self.maps@ == other.maps@
    }

    /// The number of channels allocated.
    pub closed spec fn channel_count(self) -> nat {
        self.channels@.len()
    }

    /// The number of maps allocated.
    pub closed spec fn map_count(self) -> nat {
        self.maps@.len()
    }

    /// `s` refers to cells of this heap.
    pub open spec fn slice_ok(self, s: SliceValue) -> bool {
        s.spec_len() <= s.spec_capacity() && s.spec_start() + s.spec_capacity()
            <= self.cells_view().len()
    }

    /// The elements that `s` shows.
    pub open spec fn elements(self, s: SliceValue) -> Seq<Value> {
        self.cells_view().subrange(s.spec_start() as int, (s.spec_start() + s.spec_len()) as int)
    }

    /// Whether `s` refers to cells of this heap.
    pub fn check_slice(&self, s: &SliceValue) -> (r: bool)
        ensures
            r == self.slice_ok(*s),
    {
        s.len <= s.capacity && s.start <= self.cells.len() && s.capacity <= self.cells.len()
            - s.start
    }
}

impl SliceValue {
    /// The window never runs past the end of the address space, and the
    /// visible part lies within the capacity.
    #[verifier::type_invariant]
    spec fn window_fits(self) -> bool {
        &&& self.start as int + self.capacity as int <= usize::MAX
        &&& self.len <= self.capacity
        &&& self.is_nil ==> self.capacity == 0
    }

    /// The offset of the first visible cell.
    pub closed spec fn spec_start(self) -> nat {
        self.start as nat
    }

    /// The number of visible elements.
    pub closed spec fn spec_len(self) -> nat {
        self.len as nat
    }

    /// The length and the capacity of a slice each fit in a `usize`.
    pub proof fn lemma_window_fits_usize(self)
        ensures
            self.spec_len() <= usize::MAX,
            self.spec_capacity() <= usize::MAX,
    {
    }

    /// The number of cells reachable by reslicing.
    pub closed spec fn spec_capacity(self) -> nat {
        self.capacity as nat
    }

    /// Whether this is a nil slice.
    pub closed spec fn spec_is_nil(self) -> bool {
        self.is_nil
    }

    /// The nil slice.
    pub closed spec fn spec_nil() -> Self {
        SliceValue { start: 0, len: 0, capacity: 0, is_nil: true }
    }

    /// A slice over fresh cells holding `elements`.
    pub fn new(heap: &mut Heap, elements: Vec<Value>) -> (r: Self)
        ensures
            final(heap).cells_view() == old(heap).cells_view() + elements@,
            final(heap).channels_same(*old(heap)),
            final(heap).maps_same(*old(heap)),
            r.spec_start() == old(heap).cells_view().len(),
            r.spec_len() == elements@.len(),
            r.spec_capacity() == elements@.len(),
            !r.spec_is_nil(),
            final(heap).slice_ok(r),
            final(heap).elements(r) == elements@,
    {
        let start = heap.cells.len();
        let len = elements.len();
        let ghost added = elements@;
        let mut elements = elements;
        heap.cells.append(&mut elements);
        let end = heap.cells.len();
        assert(end == start + len);
        let r = SliceValue { start, len, capacity: len, is_nil: false };
        assert(heap.elements(r) =~= added);
        r
    }

    /// The nil slice: no elements, no capacity.
    pub fn nil() -> (r: Self)
        ensures
            r == Self::spec_nil(),
            r.spec_start() == 0,
            r.spec_len() == 0,
            r.spec_capacity() == 0,
            r.spec_is_nil(),
    {
        SliceValue { start: 0, len: 0, capacity: 0, is_nil: true }
    }

    /// A slice of `len` elements over `capacity` fresh cells, each a copy of
    /// `fill`.
    pub fn with_len_and_capacity(heap: &mut Heap, fill: Value, len: usize, capacity: usize) -> (r: Self)
        requires
            len <= capacity,
        ensures
            final(heap).cells_view().len() == old(heap).cells_view().len() + capacity,
            final(heap).cells_view().take(old(heap).cells_view().len() as int) == old(heap).cells_view(),
            forall|k: int| old(heap).cells_view().len() <= k < final(heap).cells_view().len()
                ==> #[trigger] final(heap).cells_view()[k].equiv(fill),
            final(heap).channels_same(*old(heap)),
            final(heap).maps_same(*old(heap)),
            r.spec_start() == old(heap).cells_view().len(),
            r.spec_len() == len,
            r.spec_capacity() == capacity,
            !r.spec_is_nil(),
            final(heap).slice_ok(r),
    {
        let start = heap.cells.len();
        let mut k: usize = 0;
        while k < capacity
            invariant
                k <= capacity,
                heap.cells@.len() == old(heap).cells@.len() + k,
                start == old(heap).cells@.len(),
                heap.cells@.take(start as int) == old(heap).cells@,
                forall|j: int| start <= j < heap.cells@.len() ==> #[trigger] heap.cells@[j].equiv(fill),
                heap.channels@ == old(heap).channels@,
                heap.maps@ == old(heap).maps@,
            decreases capacity - k,
        {
            heap.cells.push(fill.duplicate());
            k = k + 1;
            assert(heap.cells@.take(start as int) =~= old(heap).cells@);
        }
        let end = heap.cells.len();
        assert(end == start + capacity);
        SliceValue { start, len, capacity, is_nil: false }
    }

    /// The number of visible elements.
    pub fn len(&self) -> (n: usize)
        ensures
            n == self.spec_len(),
    {
        self.len
    }

    /// Whether this is a nil slice.
    pub fn is_nil(&self) -> (r: bool)
        ensures
            r == self.spec_is_nil(),
    {
        self.is_nil
    }

    /// The number of cells reachable by reslicing.
    pub fn capacity(&self) -> (n: usize)
        ensures
            n == self.spec_capacity(),
    {
        self.capacity
    }

    /// A copy of element `index`, if it is visible.
    pub fn get(&self, heap: &Heap, index: usize) -> (r: Option<Value>)
        requires
            heap.slice_ok(*self),
        ensures
            r is Some <==> index < self.spec_len(),
            r matches Some(v) ==> v.equiv(heap.elements(*self)[index as int]),
    {
        proof {
            use_type_invariant(self);
        }
        if index >= self.len {
            return None;
        }
        Some(heap.cells[self.start + index].duplicate())
    }

    /// Overwrites element `index`; fails when it is not visible.
    pub fn set(&self, heap: &mut Heap, index: usize, value: Value) -> (r: Result<(), ()>)
        requires
            old(heap).slice_ok(*self),
        ensures
            r is Ok <==> index < self.spec_len(),
            r is Ok ==> final(heap).cells_view() == old(heap).cells_view().update(
                self.spec_start() + index,
                value,
            ),
            r is Err ==> final(heap).cells_view() == old(heap).cells_view(),
            final(heap).channels_same(*old(heap)),
            final(heap).maps_same(*old(heap)),
    {
        proof {
            use_type_invariant(self);
        }
        if index >= self.len {
            return Err(());
        }
        heap.cells.set(self.start + index, value);
        Ok(())
    }

    /// Copies of the visible elements.
    pub fn visible_elements(&self, heap: &Heap) -> (r: Vec<Value>)
        requires
            heap.slice_ok(*self),
        ensures
            seq_equiv(r@, heap.elements(*self)),
    {
        proof {
            use_type_invariant(self);
        }
        let mut out: Vec<Value> = Vec::new();
        let mut i: usize = 0;
        while i < self.len
            invariant
                self.start + self.capacity <= usize::MAX,
                heap.slice_ok(*self),
                i <= self.len,
                out@.len() == i,
                forall|k: int| 0 <= k < i ==> #[trigger] out@[k].equiv(heap.elements(*self)[k]),
            decreases self.len - i,
        {
            out.push(heap.cells[self.start + i].duplicate());
            i = i + 1;
        }
        out
    }

    /// The window `low .. high` of this slice, which may reach into its
    /// hidden capacity; fails unless `low <= high <= capacity`.
    pub fn slice(&self, low: usize, high: usize) -> (r: Result<Self, ()>)
        ensures
            r is Ok <==> low <= high <= self.spec_capacity(),
            r matches Ok(s) ==> {
                &&& s.spec_start() == self.spec_start() + low
                &&& s.spec_len() == high - low
                &&& s.spec_capacity() == self.spec_capacity() - low
                &&& s.spec_is_nil() == (self.spec_is_nil() && low == 0 && high == 0)
                &&& forall|h: Heap| h.slice_ok(*self) ==> #[trigger] h.slice_ok(s)
            },
    {
        proof {
            use_type_invariant(self);
        }
        if low > high || high > self.capacity {
            return Err(());
        }
        Ok(SliceValue {
            start: self.start + low,
            len: high - low,
            capacity: self.capacity - low,
            is_nil: self.is_nil && low == 0 && high == 0,
        })
    }
}

// ---------------------------------------------------------------------------
// Channels
// ---------------------------------------------------------------------------

impl Heap {
    /// `c` is nil or refers to a channel of this heap.
    pub open spec fn channel_ok(self, c: ChannelValue) -> bool {
        c.spec_is_nil() || c.spec_id() < self.channel_count()
    }

    /// The values buffered in `c`, front first; empty for the nil channel.
    pub closed spec fn channel_buffer(self, c: ChannelValue) -> Seq<Value> {
        if c.is_nil {
            Seq::empty()
        } else {
            self.channels@[c.id as int].buffer@
        }
    }

    /// The buffer capacity of `c`; zero for the nil channel.
    pub closed spec fn channel_capacity(self, c: ChannelValue) -> nat {
        if c.is_nil {
            0
        } else {
            self.channels@[c.id as int].capacity as nat
        }
    }

    /// Whether `c` has been closed; the nil channel never is.
    pub closed spec fn channel_closed(self, c: ChannelValue) -> bool {
        if c.is_nil {
            false
        } else {
            self.channels@[c.id as int].closed
        }
    }

    /// Whether `c` is nil or refers to a channel of this heap.
    pub fn check_channel(&self, c: &ChannelValue) -> (r: bool)
        ensures
            r == self.channel_ok(*c),
    {
        c.is_nil || c.id < self.channels.len()
    }

    /// Only channel `c` changed between `old` and `self`; cells and maps
    /// are untouched.
    pub closed spec fn only_channel_changed(self, old: Heap, c: ChannelValue) -> bool {
        &&& self.cells@ == old.cells@
        &&& self.maps_same(old)
        &&& self.channels@.len() == old.channels@.len()
        &&& forall|j: int| 0 <= j < old.channels@.len() && j != c.id ==> #[trigger] self.channels@[j] == old.channels@[j]
        &&& self.channel_capacity(c) == old.channel_capacity(c)
    }

    /// The nil channel is valid on every heap, buffers nothing, has no room
    /// and is never closed.
    pub proof fn lemma_nil_channel(self, c: ChannelValue)
        requires
            c.spec_is_nil(),
        ensures
            self.channel_ok(c),
            self.channel_buffer(c).len() == 0,
            self.channel_capacity(c) == 0,
            !self.channel_closed(c),
    {
    }

    /// Heaps with the same channels agree on every channel.
    pub proof fn lemma_channels_same_state(self, other: Heap, c: ChannelValue)
        requires
            other.channels_same(self),
        ensures
            other.channel_ok(c) == self.channel_ok(c),
            other.channel_buffer(c) == self.channel_buffer(c),
            other.channel_capacity(c) == self.channel_capacity(c),
            other.channel_closed(c) == self.channel_closed(c),
    {
    }

    /// A change to one channel keeps every handle valid, the cells, the
    /// maps, the channel's capacity, and every other channel as it was.
    pub proof fn lemma_channel_change(self, old: Heap, c: ChannelValue)
        requires
            self.only_channel_changed(old, c),
        ensures
            self.channel_count() == old.channel_count(),
            self.cells_view() == old.cells_view(),
            self.maps_same(old),
            self.channel_capacity(c) == old.channel_capacity(c),
            forall|x: ChannelValue| #[trigger] old.channel_ok(x) ==> self.channel_ok(x),
            forall|x: ChannelValue| old.channel_ok(x) && (x.spec_is_nil() || x.spec_id() != c.spec_id()) ==> {
                &&& #[trigger] self.channel_buffer(x) == old.channel_buffer(x)
                &&& self.channel_capacity(x) == old.channel_capacity(x)
                &&& self.channel_closed(x) == old.channel_closed(x)
            },
    {
    }
}

/// What a send on `c` gives: it fails on the nil channel, on a closed one,
/// and on a full one; otherwise the value is buffered.
pub open spec fn send_outcome(heap: Heap, c: ChannelValue) -> Result<(), ChannelSendError> {
    if c.spec_is_nil() {
        Err(ChannelSendError::Nil)
    } else if heap.channel_closed(c) {
        Err(ChannelSendError::Closed)
    } else if heap.channel_buffer(c).len() == heap.channel_capacity(c) {
        Err(ChannelSendError::WouldBlock)
    } else {
        Ok(())
    }
}

/// What a receive on `c` gives: the front value while any is buffered;
/// on an empty channel, `ClosedEmpty` once it is closed, else it would
/// block; it fails on the nil channel.
pub open spec fn receive_outcome(heap: Heap, c: ChannelValue) -> Result<ChannelReceiveResult, ChannelReceiveError> {
    if c.spec_is_nil() {
        Err(ChannelReceiveError::Nil)
    } else if heap.channel_buffer(c).len() > 0 {
        Ok(ChannelReceiveResult::Value(heap.channel_buffer(c)[0]))
    } else if heap.channel_closed(c) {
        Ok(ChannelReceiveResult::ClosedEmpty)
    } else {
        Err(ChannelReceiveError::WouldBlock)
    }
}

/// What closing `c` gives: it fails on the nil channel and on a closed one.
pub open spec fn close_outcome(heap: Heap, c: ChannelValue) -> Result<(), ChannelCloseError> {
    if c.spec_is_nil() {
        Err(ChannelCloseError::Nil)
    } else if heap.channel_closed(c) {
        Err(ChannelCloseError::Closed)
    } else {
        Ok(())
    }
}

/// `after` is `before` once a receive on `c` took the front value, if one
/// was buffered; whether `c` is closed does not change.
pub open spec fn received_from(before: Heap, after: Heap, c: ChannelValue) -> bool {
    &&& after.only_channel_changed(before, c)
    &&& after.channel_closed(c) == before.channel_closed(c)
    &&& after.channel_buffer(c) == (if !c.spec_is_nil() && before.channel_buffer(c).len() > 0 {
        before.channel_buffer(c).drop_first()
    } else {
        before.channel_buffer(c)
    })
}

/// `after` is `before` once `c` was closed: the buffer stays, and a
/// channel that is not nil is closed.
pub open spec fn closed_from(before: Heap, after: Heap, c: ChannelValue) -> bool {
    &&& after.only_channel_changed(before, c)
    &&& after.channel_buffer(c) == before.channel_buffer(c)
    &&& !c.spec_is_nil() ==> after.channel_closed(c)
}

impl ChannelValue {
    /// The index of the channel on the heap.
    pub closed spec fn spec_id(self) -> nat {
        self.id as nat
    }

    /// Whether this is the nil channel.
    pub closed spec fn spec_is_nil(self) -> bool {
        self.is_nil
    }

    /// The nil channel.
    pub closed spec fn spec_nil() -> Self {
        ChannelValue { id: 0, is_nil: true }
    }

    /// The nil channel.
    pub fn nil() -> (r: Self)
        ensures
            r == Self::spec_nil(),
            r.spec_is_nil(),
    {
        ChannelValue { id: 0, is_nil: true }
    }

    /// A new open channel with room for `capacity` buffered values.
    pub fn with_capacity(heap: &mut Heap, capacity: usize) -> (r: Self)
        ensures
            !r.spec_is_nil(),
            r.spec_id() == old(heap).channel_count(),
            final(heap).channel_count() == old(heap).channel_count() + 1,
            final(heap).channel_ok(r),
            final(heap).channel_buffer(r) == Seq::<Value>::empty(),
            final(heap).channel_capacity(r) == capacity,
            !final(heap).channel_closed(r),
            final(heap).cells_view() == old(heap).cells_view(),
            final(heap).maps_same(*old(heap)),
            forall|c: ChannelValue| old(heap).channel_ok(c) ==> {
                &&& #[trigger] final(heap).channel_ok(c)
                &&& final(heap).channel_buffer(c) == old(heap).channel_buffer(c)
                &&& final(heap).channel_capacity(c) == old(heap).channel_capacity(c)
                &&& final(heap).channel_closed(c) == old(heap).channel_closed(c)
            },
    {
        let id = heap.channels.len();
        heap.channels.push(ChannelState { buffer: std::collections::VecDeque::new(), capacity, closed: false });
        ChannelValue { id, is_nil: false }
    }

    /// The number of buffered values; zero for the nil channel.
    pub fn len(&self, heap: &Heap) -> (n: usize)
        requires
            heap.channel_ok(*self),
        ensures
            n == heap.channel_buffer(*self).len(),
    {
        if self.is_nil {
            0
        } else {
            heap.channels[self.id].buffer.len()
        }
    }

    /// The buffer capacity; zero for the nil channel.
    pub fn capacity(&self, heap: &Heap) -> (n: usize)
        requires
            heap.channel_ok(*self),
        ensures
            n == heap.channel_capacity(*self),
    {
        if self.is_nil {
            0
        } else {
            heap.channels[self.id].capacity
        }
    }

    /// Buffers `value` unless the channel is nil, closed or full.
    pub fn send(&self, heap: &mut Heap, value: Value) -> (r: Result<(), ChannelSendError>)
        requires
            old(heap).channel_ok(*self),
        ensures
            r == send_outcome(*old(heap), *self),
            final(heap).only_channel_changed(*old(heap), *self),
            final(heap).channel_closed(*self) == old(heap).channel_closed(*self),
            final(heap).channel_buffer(*self) == (if r is Ok {
                old(heap).channel_buffer(*self).push(value)
            } else {
                old(heap).channel_buffer(*self)
            }),
    {
        if self.is_nil {
            return Err(ChannelSendError::Nil);
        }
        if heap.channels[self.id].closed {
            return Err(ChannelSendError::Closed);
        }
        if heap.channels[self.id].buffer.len() == heap.channels[self.id].capacity {
            return Err(ChannelSendError::WouldBlock);
        }
        heap.channels[self.id].buffer.push_back(value);
        Ok(())
    }

    /// Takes the front value; a closed, drained channel yields
    /// `ClosedEmpty`, and an open, empty one would block.
    pub fn receive(&self, heap: &mut Heap) -> (r: Result<ChannelReceiveResult, ChannelReceiveError>)
        requires
            old(heap).channel_ok(*self),
        ensures
            self.spec_is_nil() ==> r == Err::<ChannelReceiveResult, ChannelReceiveError>(ChannelReceiveError::Nil),
            !self.spec_is_nil() && old(heap).channel_buffer(*self).len() > 0 ==> {
                &&& r == Ok::<ChannelReceiveResult, ChannelReceiveError>(ChannelReceiveResult::Value(old(heap).channel_buffer(*self)[0]))
                &&& final(heap).channel_buffer(*self) == old(heap).channel_buffer(*self).drop_first()
            },
            !self.spec_is_nil() && old(heap).channel_buffer(*self).len() == 0 ==> r == (if old(heap).channel_closed(*self) {
                Ok::<ChannelReceiveResult, ChannelReceiveError>(ChannelReceiveResult::ClosedEmpty)
            } else {
                Err(ChannelReceiveError::WouldBlock)
            }),
            r is Err || r == Ok::<ChannelReceiveResult, ChannelReceiveError>(ChannelReceiveResult::ClosedEmpty) ==> final(heap).channel_buffer(*self) == old(heap).channel_buffer(*self),
            final(heap).only_channel_changed(*old(heap), *self),
            final(heap).channel_closed(*self) == old(heap).channel_closed(*self),
            r == receive_outcome(*old(heap), *self),
            received_from(*old(heap), *final(heap), *self),
    {
        if self.is_nil {
            return Err(ChannelReceiveError::Nil);
        }
        if let Some(value) = heap.channels[self.id].buffer.pop_front() {
            return Ok(ChannelReceiveResult::Value(value));
        }
        if heap.channels[self.id].closed {
            Ok(ChannelReceiveResult::ClosedEmpty)
        } else {
            Err(ChannelReceiveError::WouldBlock)
        }
    }

    /// Closes the channel unless it is nil or already closed.
    pub fn close(&self, heap: &mut Heap) -> (r: Result<(), ChannelCloseError>)
        requires
            old(heap).channel_ok(*self),
        ensures
            r == close_outcome(*old(heap), *self),
            closed_from(*old(heap), *final(heap), *self),
    {
        if self.is_nil {
            return Err(ChannelCloseError::Nil);
        }
        if heap.channels[self.id].closed {
            return Err(ChannelCloseError::Closed);
        }
        heap.channels[self.id].closed = true;
        Ok(())
    }
}

// ---------------------------------------------------------------------------
// Maps
// ---------------------------------------------------------------------------

/// The order of key kinds: integers, bytes, booleans, strings.
pub open spec fn key_rank(k: MapKey) -> int {
    match k {
        MapKey::Integer(_) => 0,
        MapKey::Byte(_) => 1,
        MapKey::Boolean(_) => 2,
        MapKey::String(_) => 3,
    }
}

/// The numeric payload of a key; booleans count false as 0, true as 1.
pub open spec fn key_number(k: MapKey) -> int {
    match k {
        MapKey::Integer(v) => v as int,
        MapKey::Byte(b) => b as int,
        MapKey::Boolean(b) => if b { 1 } else { 0 },
        MapKey::String(_) => 0,
    }
}

/// The bytes of a string key; empty for the others.
pub open spec fn key_bytes(k: MapKey) -> Seq<u8> {
    match k {
        MapKey::String(s) => s@,
        _ => Seq::empty(),
    }
}

/// Two keys denote the same map entry.
pub open spec fn same_key(a: MapKey, b: MapKey) -> bool {
    key_rank(a) == key_rank(b) && key_number(a) == key_number(b) && key_bytes(a) == key_bytes(b)
}

/// The order in which map entries are kept: by kind, then by number, then
/// by bytes.
pub open spec fn key_less(a: MapKey, b: MapKey) -> bool {
    ||| key_rank(a) < key_rank(b)
    ||| key_rank(a) == key_rank(b) && key_number(a) < key_number(b)
    ||| key_rank(a) == key_rank(b) && key_number(a) == key_number(b) && lex_compare(
        key_bytes(a),
        key_bytes(b),
    ) < 0
}

/// Entries in strictly ascending key order.
pub open spec fn sorted_entries(entries: Seq<(MapKey, Value)>) -> bool {
    forall|i: int, j: int| 0 <= i < j < entries.len() ==> key_less(#[trigger] entries[i].0, #[trigger] entries[j].0)
}

/// Where `key` lives among `entries`, if anywhere.
pub open spec fn key_position(entries: Seq<(MapKey, Value)>, key: MapKey, r: Option<usize>) -> bool {
    match r {
        Some(i) => i < entries.len() && same_key(entries[i as int].0, key),
        None => forall|j: int| 0 <= j < entries.len() ==> !same_key(#[trigger] entries[j].0, key),
    }
}

/// How entries change when `value` is stored under `key`: an entry for the
/// key is overwritten in place, or a new entry is placed among the others.
pub open spec fn entries_after_insert(
    old: Seq<(MapKey, Value)>,
    new: Seq<(MapKey, Value)>,
    key: MapKey,
    value: Value,
) -> bool {
    ||| exists|i: usize| #[trigger] key_position(old, key, Some(i)) && new == old.update(i as int, (key, value))
    ||| key_position(old, key, None) && exists|i: int| 0 <= i <= old.len() && new == #[trigger] old.insert(i, (key, value))
}

/// How entries change when `key` is removed: its entry leaves, if it has
/// one.
pub open spec fn entries_after_remove(old: Seq<(MapKey, Value)>, new: Seq<(MapKey, Value)>, key: MapKey) -> bool {
    ||| key_position(old, key, None) && new == old
    ||| exists|i: usize| #[trigger] key_position(old, key, Some(i)) && new == old.remove(i as int)
}

/// Key order is a strict total order.
pub proof fn lemma_key_order(a: MapKey, b: MapKey, c: MapKey)
    ensures
        !key_less(a, a),
        key_less(a, b) ==> !key_less(b, a),
        key_less(a, b) && key_less(b, c) ==> key_less(a, c),
        key_less(a, b) || key_less(b, a) || same_key(a, b),
        same_key(a, b) ==> !key_less(a, b) && !key_less(b, a),
        same_key(a, b) && key_less(b, c) ==> key_less(a, c),
        key_less(a, b) && same_key(b, c) ==> key_less(a, c),
{
    crate::runtime::byteseq::lemma_lex_compare_zero(key_bytes(a), key_bytes(a));
    crate::runtime::byteseq::lemma_lex_compare_zero(key_bytes(a), key_bytes(b));
    crate::runtime::byteseq::lemma_lex_compare_antisym(key_bytes(a), key_bytes(b));
    if lex_compare(key_bytes(a), key_bytes(b)) < 0 && lex_compare(key_bytes(b), key_bytes(c)) < 0 {
        crate::runtime::byteseq::lemma_lex_compare_trans(key_bytes(a), key_bytes(b), key_bytes(c));
    }
}

impl MapKey {
    /// Whether the keys denote the same map entry.
    pub fn same(&self, other: &MapKey) -> (r: bool)
        ensures
            r == same_key(*self, *other),
    {
        match (self, other) {
            (MapKey::Integer(a), MapKey::Integer(b)) => *a == *b,
            (MapKey::Byte(a), MapKey::Byte(b)) => *a == *b,
            (MapKey::Boolean(a), MapKey::Boolean(b)) => *a == *b,
            (MapKey::String(a), MapKey::String(b)) => {
                let c = crate::runtime::byteseq::compare_bytes(a.as_bytes(), b.as_bytes());
                proof {
                    crate::runtime::byteseq::lemma_lex_compare_zero(a@, b@);
                }
                c == 0
            },
            _ => false,
        }
    }

    /// Whether this key sorts before `other`.
    pub fn less_than(&self, other: &MapKey) -> (r: bool)
        ensures
            r == key_less(*self, *other),
    {
        match (self, other) {
            (MapKey::Integer(a), MapKey::Integer(b)) => *a < *b,
            (MapKey::Byte(a), MapKey::Byte(b)) => *a < *b,
            (MapKey::Boolean(a), MapKey::Boolean(b)) => !*a && *b,
            (MapKey::String(a), MapKey::String(b)) => {
                crate::runtime::byteseq::compare_bytes(a.as_bytes(), b.as_bytes()) < 0
            },
            (MapKey::Integer(_), _) => true,
            (MapKey::Byte(_), MapKey::Integer(_)) => false,
            (MapKey::Byte(_), _) => true,
            (MapKey::Boolean(_), MapKey::String(_)) => true,
            (MapKey::Boolean(_), _) => false,
            (MapKey::String(_), _) => false,
        }
    }

    /// A copy of the key.
    pub fn duplicate(&self) -> (r: MapKey)
        ensures
            same_key(r, *self),
            r is String <==> self is String,
            !(r is String) ==> r == *self,
    {
        match self {
            MapKey::Integer(v) => MapKey::Integer(*v),
            MapKey::Byte(v) => MapKey::Byte(*v),
            MapKey::Boolean(v) => MapKey::Boolean(*v),
            MapKey::String(s) => MapKey::String(s.duplicate()),
        }
    }

    /// The key as a value of its own type.
    pub fn to_value(&self) -> (r: Value)
        ensures
            key_value_of(r, *self),
    {
        match self {
            MapKey::Integer(v) => Value::Integer(*v),
            MapKey::Byte(v) => Value::Byte(*v),
            MapKey::Boolean(v) => Value::Boolean(*v),
            MapKey::String(s) => Value::String(s.duplicate()),
        }
    }
}

impl Clone for MapKey {
    fn clone(&self) -> (r: Self)
        ensures
            same_key(r, *self),
    {
        self.duplicate()
    }
}

impl Heap {
    /// Every map keeps its entries in ascending key order.
    pub closed spec fn wf(self) -> bool {
        forall|i: int| 0 <= i < self.maps@.len() ==> sorted_entries(#[trigger] self.maps@[i].entries@)
    }

    /// Well-formedness concerns the maps alone.
    pub proof fn lemma_wf_maps_same(self, other: Heap)
        requires
            self.wf(),
            other.maps_same(self),
        ensures
            other.wf(),
    {
    }

    /// A heap after a change to channels only is still well formed.
    pub proof fn lemma_wf_channel_change(self, other: Heap, c: ChannelValue)
        requires
            self.wf(),
            other.only_channel_changed(self, c),
        ensures
            other.wf(),
            other.cells_view() == self.cells_view(),
            other.maps_same(self),
    {
    }

    /// `m` is nil or refers to a map of this heap.
    pub open spec fn map_ok(self, m: MapValue) -> bool {
        m.spec_is_nil() || m.spec_id() < self.map_count()
    }

    /// The entries of `m` in ascending key order; empty for the nil map.
    pub closed spec fn map_entries(self, m: MapValue) -> Seq<(MapKey, Value)> {
        if m.is_nil {
            Seq::empty()
        } else {
            self.maps@[m.id as int].entries@
        }
    }

    /// Whether `m` is nil or refers to a map of this heap.
    pub fn check_map(&self, m: &MapValue) -> (r: bool)
        ensures
            r == self.map_ok(*m),
    {
        m.is_nil || m.id < self.maps.len()
    }

    /// Only map `m` changed between `old` and `self`.
    pub closed spec fn only_map_changed(self, old: Heap, m: MapValue) -> bool {
        &&& self.cells@ == old.cells@
        &&& self.channels_same(old)
        &&& self.maps@.len() == old.maps@.len()
        &&& forall|j: int| 0 <= j < old.maps@.len() && j != m.id ==> #[trigger] self.maps@[j] == old.maps@[j]
    }

    /// Sameness of channels, and of maps, carries over through a middle
    /// heap.
    pub proof fn lemma_same_trans(self, mid: Heap, other: Heap)
        ensures
            self.channels_same(mid) && mid.channels_same(other) ==> self.channels_same(other),
            self.maps_same(mid) && mid.maps_same(other) ==> self.maps_same(other),
    {
    }

    /// The nil map is valid on every heap and has no entries.
    pub proof fn lemma_nil_map(self, m: MapValue)
        requires
            m.spec_is_nil(),
        ensures
            self.map_ok(m),
            self.map_entries(m).len() == 0,
    {
    }

    /// Heaps with the same maps agree on every map's entries.
    pub proof fn lemma_maps_same_entries(self, other: Heap, m: MapValue)
        requires
            other.maps_same(self),
        ensures
            other.map_entries(m) == self.map_entries(m),
            other.map_ok(m) == self.map_ok(m),
    {
    }

    /// A change to one map keeps every handle valid and every other map's
    /// entries.
    pub proof fn lemma_map_change(self, old: Heap, m: MapValue)
        requires
            self.only_map_changed(old, m),
        ensures
            self.map_count() == old.map_count(),
            self.cells_view() == old.cells_view(),
            self.channels_same(old),
            forall|x: MapValue| #[trigger] old.map_ok(x) ==> self.map_ok(x),
            forall|x: MapValue| old.map_ok(x) && (x.spec_is_nil() || x.spec_id() != m.spec_id())
                ==> #[trigger] self.map_entries(x) == old.map_entries(x),
    {
    }

    /// The entries of a well-formed heap's maps are sorted.
    pub proof fn lemma_entries_sorted(self, m: MapValue)
        requires
            self.wf(),
            self.map_ok(m),
        ensures
            sorted_entries(self.map_entries(m)),
    {
    }
}

impl MapValue {
    /// The index of the map on the heap.
    pub closed spec fn spec_id(self) -> nat {
        self.id as nat
    }

    /// Whether this is the nil map.
    pub closed spec fn spec_is_nil(self) -> bool {
        self.is_nil
    }

    /// The nil map.
    pub closed spec fn spec_nil() -> Self {
        MapValue { id: 0, is_nil: true }
    }

    /// The nil map: reads find nothing and writes fail.
    pub fn nil() -> (r: Self)
        ensures
            r == Self::spec_nil(),
            r.spec_is_nil(),
    {
        MapValue { id: 0, is_nil: true }
    }

    /// A new empty map. The size hint does not change behaviour.
    pub fn with_hint(heap: &mut Heap, hint: usize) -> (r: Self)
        requires
            old(heap).wf(),
        ensures
            final(heap).wf(),
            !r.spec_is_nil(),
            r.spec_id() == old(heap).map_count(),
            final(heap).map_count() == old(heap).map_count() + 1,
            final(heap).map_ok(r),
            final(heap).map_entries(r) == Seq::<(MapKey, Value)>::empty(),
            final(heap).cells_view() == old(heap).cells_view(),
            final(heap).channels_same(*old(heap)),
            forall|m: MapValue| old(heap).map_ok(m) ==> {
                &&& #[trigger] final(heap).map_ok(m)
                &&& final(heap).map_entries(m) == old(heap).map_entries(m)
            },
    {
        let id = heap.maps.len();
        heap.maps.push(MapState { entries: Vec::new() });
        proof {
            assert forall|i: int| 0 <= i < heap.maps@.len() implies sorted_entries(#[trigger] heap.maps@[i].entries@) by {
                if i < id {
                    assert(heap.maps@[i] == old(heap).maps@[i]);
                }
            }
        }
        MapValue { id, is_nil: false }
    }

    /// The number of entries; zero for the nil map.
    pub fn len(&self, heap: &Heap) -> (n: usize)
        requires
            heap.map_ok(*self),
        ensures
            n == heap.map_entries(*self).len(),
    {
        if self.is_nil {
            0
        } else {
            heap.maps[self.id].entries.len()
        }
    }

    /// The position of `key` among the entries.
    fn find(&self, heap: &Heap, key: &MapKey) -> (r: Option<usize>)
        requires
            heap.map_ok(*self),
        ensures
            key_position(heap.map_entries(*self), *key, r),
    {
        if self.is_nil {
            return None;
        }
        let n = heap.maps[self.id].entries.len();
        let mut i: usize = 0;
        while i < n
            invariant
                !self.is_nil,
                heap.map_ok(*self),
                n == heap.map_entries(*self).len(),
                i <= n,
                forall|j: int| 0 <= j < i ==> !same_key(#[trigger] heap.map_entries(*self)[j].0, *key),
            decreases n - i,
        {
            if heap.maps[self.id].entries[i].0.same(key) {
                return Some(i);
            }
            i = i + 1;
        }
        None
    }

    /// A copy of the value stored under `key`, if any.
    pub fn get(&self, heap: &Heap, key: &MapKey) -> (r: Option<Value>)
        requires
            heap.map_ok(*self),
        ensures
            r is None ==> key_position(heap.map_entries(*self), *key, None),
            r matches Some(v) ==> exists|i: usize| #[trigger] key_position(heap.map_entries(*self), *key, Some(i)) && v.equiv(heap.map_entries(*self)[i as int].1),
    {
        match self.find(heap, key) {
            Some(i) => Some(heap.maps[self.id].entries[i].1.duplicate()),
            None => None,
        }
    }

    /// Stores `value` under `key`; fails on the nil map. An existing entry
    /// for the key is replaced, otherwise the entry is added in key order.
    pub fn insert(&self, heap: &mut Heap, key: MapKey, value: Value) -> (r: Result<(), ()>)
        requires
            old(heap).wf(),
            old(heap).map_ok(*self),
        ensures
            final(heap).wf(),
            r is Err <==> self.spec_is_nil(),
            r is Err ==> *final(heap) == *old(heap),
            r is Ok ==> final(heap).only_map_changed(*old(heap), *self),
            r is Ok ==> entries_after_insert(old(heap).map_entries(*self), final(heap).map_entries(*self), key, value),
    {
        if self.is_nil {
            return Err(());
        }
        let ghost old_entries = heap.maps@[self.id as int].entries@;
        let n = heap.maps[self.id].entries.len();
        let mut i: usize = 0;
        while i < n && heap.maps[self.id].entries[i].0.less_than(&key)
            invariant
                !self.is_nil,
                self.id < heap.maps@.len(),
                *heap == *old(heap),
                old_entries == heap.maps@[self.id as int].entries@,
                n == old_entries.len(),
                i <= n,
                forall|j: int| 0 <= j < i ==> key_less(#[trigger] old_entries[j].0, key),
            decreases n - i,
        {
            i = i + 1;
        }
        proof {
            assert(sorted_entries(old_entries));
        }
        if i < n && heap.maps[self.id].entries[i].0.same(&key) {
            let ghost k0 = old_entries[i as int].0;
            heap.maps[self.id].entries.set(i, (key, value));
            proof {
                let new_entries = heap.maps@[self.id as int].entries@;
                assert(new_entries == old_entries.update(i as int, (key, value)));
                assert forall|a: int, b: int| 0 <= a < b < new_entries.len() implies key_less(#[trigger] new_entries[a].0, #[trigger] new_entries[b].0) by {
                    lemma_key_order(old_entries[a].0, old_entries[b].0, key);
                    lemma_key_order(key, k0, old_entries[b].0);
                    lemma_key_order(old_entries[a].0, k0, key);
                    lemma_key_order(k0, key, old_entries[b].0);
                    if a == i as int {
                        assert(key_less(k0, old_entries[b].0));
                    } else if b == i as int {
                        assert(key_less(old_entries[a].0, k0));
                    }
                }
                assert(key_position(old(heap).map_entries(*self), key, Some(i)));
                assert(heap.map_entries(*self) == old(heap).map_entries(*self).update(i as int, (key, value)));
                self.lemma_wf_after_change(*old(heap), *heap);
            }
        } else {
            heap.maps[self.id].entries.insert(i, (key, value));
            proof {
                let new_entries = heap.maps@[self.id as int].entries@;
                assert(new_entries == old_entries.insert(i as int, (key, value)));
                if i < n {
                    lemma_key_order(key, old_entries[i as int].0, key);
                    assert(key_less(key, old_entries[i as int].0));
                }
                assert forall|j: int| 0 <= j < old_entries.len() implies !same_key(#[trigger] old_entries[j].0, key) by {
                    lemma_key_order(old_entries[j].0, key, key);
                    if j >= i {
                        lemma_key_order(key, old_entries[i as int].0, old_entries[j].0);
                        lemma_key_order(old_entries[j].0, key, old_entries[i as int].0);
                    }
                }
                assert forall|a: int, b: int| 0 <= a < b < new_entries.len() implies key_less(#[trigger] new_entries[a].0, #[trigger] new_entries[b].0) by {
                    if b == i as int {
                        assert(key_less(old_entries[a].0, key));
                    } else if a == i as int {
                        lemma_key_order(key, old_entries[i as int].0, old_entries[b - 1].0);
                    } else if a < i && b > i {
                        lemma_key_order(old_entries[a].0, key, old_entries[b - 1].0);
                        lemma_key_order(key, old_entries[i as int].0, old_entries[b - 1].0);
                    } else if a > i {
                        assert(key_less(old_entries[a - 1].0, old_entries[b - 1].0));
                    } else {
                        assert(key_less(old_entries[a].0, old_entries[b].0));
                    }
                }
                assert(key_position(old(heap).map_entries(*self), key, None));
                assert(heap.map_entries(*self) == old(heap).map_entries(*self).insert(i as int, (key, value)));
                self.lemma_wf_after_change(*old(heap), *heap);
            }
        }
        Ok(())
    }

    /// The rest of a well-formed heap stays well formed when one map's
    /// entries change to a sorted sequence.
    proof fn lemma_wf_after_change(&self, before: Heap, after: Heap)
        requires
            before.wf(),
            !self.is_nil,
            self.id < before.maps@.len(),
            after.maps@.len() == before.maps@.len(),
            forall|j: int| 0 <= j < before.maps@.len() && j != self.id ==> #[trigger] after.maps@[j] == before.maps@[j],
            sorted_entries(after.maps@[self.id as int].entries@),
        ensures
            after.wf(),
    {
        assert forall|i: int| 0 <= i < after.maps@.len() implies sorted_entries(#[trigger] after.maps@[i].entries@) by {
            if i != self.id {
                assert(after.maps@[i] == before.maps@[i]);
            }
        }
    }

    /// Removes the entry for `key`, if any; the nil map is left alone.
    pub fn remove(&self, heap: &mut Heap, key: &MapKey)
        requires
            old(heap).wf(),
            old(heap).map_ok(*self),
        ensures
            final(heap).wf(),
            final(heap).only_map_changed(*old(heap), *self),
            entries_after_remove(old(heap).map_entries(*self), final(heap).map_entries(*self), *key),
    {
        match self.find(heap, key) {
            Some(i) => {
                let ghost old_entries = heap.maps@[self.id as int].entries@;
                heap.maps[self.id].entries.remove(i);
                proof {
                    let new_entries = heap.maps@[self.id as int].entries@;
                    assert(new_entries == old_entries.remove(i as int));
                    assert forall|a: int, b: int| 0 <= a < b < new_entries.len() implies key_less(#[trigger] new_entries[a].0, #[trigger] new_entries[b].0) by {
                        if a >= i {
                            assert(key_less(old_entries[a + 1].0, old_entries[b + 1].0));
                        } else if b >= i {
                            assert(key_less(old_entries[a].0, old_entries[b + 1].0));
                        } else {
                            assert(key_less(old_entries[a].0, old_entries[b].0));
                        }
                    }
                    self.lemma_wf_after_change(*old(heap), *heap);
                    assert(key_position(old(heap).map_entries(*self), *key, Some(i)));
                }
            },
            None => {},
        }
    }

    /// Removes every entry; the nil map is left alone.
    pub fn clear(&self, heap: &mut Heap)
        requires
            old(heap).wf(),
            old(heap).map_ok(*self),
        ensures
            final(heap).wf(),
            final(heap).only_map_changed(*old(heap), *self),
            final(heap).map_entries(*self) == Seq::<(MapKey, Value)>::empty(),
    {
        if self.is_nil {
            return;
        }
        heap.maps[self.id].entries = Vec::new();
        proof {
            assert(sorted_entries(heap.maps@[self.id as int].entries@));
            self.lemma_wf_after_change(*old(heap), *heap);
        }
    }

    /// Copies of the entries in ascending key order.
    pub fn visible_entries(&self, heap: &Heap) -> (r: Vec<(MapKey, Value)>)
        requires
            heap.map_ok(*self),
        ensures
            r@.len() == heap.map_entries(*self).len(),
            forall|i: int| 0 <= i < r@.len() ==> {
                &&& same_key(#[trigger] r@[i].0, heap.map_entries(*self)[i].0)
                &&& r@[i].1.equiv(heap.map_entries(*self)[i].1)
            },
    {
        let mut out: Vec<(MapKey, Value)> = Vec::new();
        if self.is_nil {
            return out;
        }
        let n = heap.maps[self.id].entries.len();
        let mut i: usize = 0;
        while i < n
            invariant
                !self.is_nil,
                heap.map_ok(*self),
                n == heap.map_entries(*self).len(),
                i <= n,
                out@.len() == i,
                forall|k: int| 0 <= k < i ==> {
                    &&& same_key(#[trigger] out@[k].0, heap.map_entries(*self)[k].0)
                    &&& out@[k].1.equiv(heap.map_entries(*self)[k].1)
                },
            decreases n - i,
        {
            let key = heap.maps[self.id].entries[i].0.duplicate();
            let value = heap.maps[self.id].entries[i].1.duplicate();
            out.push((key, value));
            i = i + 1;
        }
        out
    }

    /// The keys in ascending order, each as a value of its own type.
    pub fn keys_as_values(&self, heap: &Heap) -> (r: Vec<Value>)
        requires
            heap.map_ok(*self),
        ensures
            r@.len() == heap.map_entries(*self).len(),
            forall|i: int| 0 <= i < r@.len() ==> #[trigger] key_value_of(r@[i], heap.map_entries(*self)[i].0),
    {
        let mut out: Vec<Value> = Vec::new();
        if self.is_nil {
            return out;
        }
        let n = heap.maps[self.id].entries.len();
        let mut i: usize = 0;
        while i < n
            invariant
                !self.is_nil,
                heap.map_ok(*self),
                n == heap.map_entries(*self).len(),
                i <= n,
                out@.len() == i,
                forall|k: int| 0 <= k < i ==> #[trigger] key_value_of(out@[k], heap.map_entries(*self)[k].0),
            decreases n - i,
        {
            out.push(heap.maps[self.id].entries[i].0.to_value());
            i = i + 1;
        }
        out
    }
}

/// `v` is the value form of key `k`.
pub open spec fn key_value_of(v: Value, k: MapKey) -> bool {
    match k {
        MapKey::Integer(n) => v == Value::Integer(n),
        MapKey::Byte(b) => v == Value::Byte(b),
        MapKey::Boolean(b) => v == Value::Boolean(b),
        MapKey::String(s) => v matches Value::String(t) && t@ == s@,
    }
}

// ---------------------------------------------------------------------------
// Slice operations over the heap
// ---------------------------------------------------------------------------

impl SliceValue {
    /// Copies `min(len, source.len)` elements from `source` into the front
    /// of this slice, reading every source element before writing, so that
    /// overlapping windows copy as if through a temporary buffer.
    pub fn copy_from(&self, heap: &mut Heap, source: &Self) -> (count: usize)
        requires
            old(heap).slice_ok(*self),
            old(heap).slice_ok(*source),
        ensures
            count == (if self.spec_len() < source.spec_len() { self.spec_len() } else { source.spec_len() }),
            final(heap).cells_view().len() == old(heap).cells_view().len(),
            forall|k: int| #![trigger final(heap).cells_view()[k]] self.spec_start() <= k < self.spec_start() + count
                ==> final(heap).cells_view()[k].equiv(old(heap).elements(*source)[k - self.spec_start()]),
            forall|k: int| #![trigger final(heap).cells_view()[k]] 0 <= k < old(heap).cells_view().len()
                && !(self.spec_start() <= k < self.spec_start() + count)
                ==> final(heap).cells_view()[k] == old(heap).cells_view()[k],
            final(heap).channels_same(*old(heap)),
            final(heap).maps_same(*old(heap)),
    {
        proof {
            use_type_invariant(self);
        }
        let count = if self.len < source.len { self.len } else { source.len };
        let snapshot = source.visible_elements(heap);
        let ghost before = heap.cells@;
        let mut offset: usize = 0;
        while offset < count
            invariant
                self.start + self.capacity <= usize::MAX,
                old(heap).slice_ok(*self),
                count <= self.len,
                count <= snapshot@.len(),
                seq_equiv(snapshot@, old(heap).elements(*source)),
                before == old(heap).cells@,
                offset <= count,
                heap.cells@.len() == before.len(),
                heap.channels@ == old(heap).channels@,
                heap.maps@ == old(heap).maps@,
                forall|k: int| #![trigger heap.cells@[k]] self.start <= k < self.start + offset
                    ==> heap.cells@[k].equiv(snapshot@[k - self.start]),
                forall|k: int| #![trigger heap.cells@[k]] 0 <= k < before.len() && !(self.start <= k < self.start + offset)
                    ==> heap.cells@[k] == before[k],
            decreases count - offset,
        {
            heap.cells.set(self.start + offset, snapshot[offset].duplicate());
            offset = offset + 1;
        }
        proof {
            assert forall|k: int| #![trigger heap.cells@[k]] self.start <= k < self.start + count implies heap.cells@[k].equiv(old(heap).elements(*source)[k - self.start]) by {
                Value::lemma_equiv_trans(heap.cells@[k], snapshot@[k - self.start], old(heap).elements(*source)[k - self.start]);
            }
        }
        count
    }

    /// Writes the bytes of `source` into the front of this slice, as many
    /// as fit.
    pub fn copy_from_string(&self, heap: &mut Heap, source: &StringValue) -> (count: usize)
        requires
            old(heap).slice_ok(*self),
        ensures
            count == (if self.spec_len() < source@.len() { self.spec_len() } else { source@.len() }),
            final(heap).cells_view().len() == old(heap).cells_view().len(),
            forall|k: int| 0 <= k < old(heap).cells_view().len() ==> #[trigger] final(heap).cells_view()[k] == (if self.spec_start() <= k < self.spec_start() + count {
                Value::Byte(source@[k - self.spec_start()])
            } else {
                old(heap).cells_view()[k]
            }),
            final(heap).channels_same(*old(heap)),
            final(heap).maps_same(*old(heap)),
    {
        proof {
            use_type_invariant(self);
        }
        let count = if self.len < source.len() { self.len } else { source.len() };
        let mut offset: usize = 0;
        while offset < count
            invariant
                self.start + self.capacity <= usize::MAX,
                old(heap).slice_ok(*self),
                count <= self.len,
                count <= source@.len(),
                offset <= count,
                heap.cells@.len() == old(heap).cells@.len(),
                heap.channels@ == old(heap).channels@,
                heap.maps@ == old(heap).maps@,
                forall|k: int| 0 <= k < old(heap).cells@.len() ==> #[trigger] heap.cells@[k] == (if self.start <= k < self.start + offset {
                    Value::Byte(source@[k - self.start])
                } else {
                    old(heap).cells@[k]
                }),
            decreases count - offset,
        {
            heap.cells.set(self.start + offset, Value::Byte(source.as_bytes()[offset]));
            offset = offset + 1;
        }
        count
    }

    /// The bytes of the visible elements; fails if any is not a byte.
    pub fn byte_elements(&self, heap: &Heap) -> (r: Result<Vec<u8>, ()>)
        requires
            heap.slice_ok(*self),
        ensures
            r is Ok <==> all_bytes(heap.elements(*self)),
            r matches Ok(bytes) ==> bytes@ == byte_payloads(heap.elements(*self)),
    {
        proof {
            use_type_invariant(self);
        }
        let mut bytes: Vec<u8> = Vec::new();
        let mut i: usize = 0;
        while i < self.len
            invariant
                self.start + self.capacity <= usize::MAX,
                heap.slice_ok(*self),
                i <= self.len,
                bytes@.len() == i,
                forall|k: int| #![trigger heap.elements(*self)[k]] 0 <= k < i ==> heap.elements(*self)[k] is Byte && bytes@[k] == heap.elements(*self)[k]->Byte_0,
            decreases self.len - i,
        {
            assert(heap.elements(*self)[i as int] == heap.cells@[self.start + i]);
            match &heap.cells[self.start + i] {
                Value::Byte(b) => bytes.push(*b),
                _ => {
                    assert(!(heap.elements(*self)[i as int] is Byte));
                    return Err(());
                },
            }
            i = i + 1;
        }
        assert(bytes@ =~= byte_payloads(heap.elements(*self)));
        Ok(bytes)
    }

    /// The offset of the first occurrence of `needle` among the bytes; an
    /// empty needle is found at 0 without inspecting the elements.
    pub fn byte_index_of(&self, heap: &Heap, needle: &[u8]) -> (r: Result<Option<usize>, ()>)
        requires
            heap.slice_ok(*self),
        ensures
            needle@.len() == 0 ==> r == Ok::<Option<usize>, ()>(Some(0)),
            needle@.len() > 0 ==> (r is Ok <==> all_bytes(heap.elements(*self))),
            r matches Ok(found) ==> needle@.len() > 0 ==> first_search(byte_payloads(heap.elements(*self)), needle@, found),
    {
        if needle.len() == 0 {
            return Ok(Some(0));
        }
        let bytes = self.byte_elements(heap)?;
        Ok(find_first(bytes.as_slice(), needle))
    }

    /// Whether the bytes begin with `prefix`; fails if any element is not a
    /// byte.
    pub fn has_byte_prefix(&self, heap: &Heap, prefix: &[u8]) -> (r: Result<bool, ()>)
        requires
            heap.slice_ok(*self),
        ensures
            r is Ok <==> all_bytes(heap.elements(*self)),
            r matches Ok(b) ==> b == is_prefix(byte_payloads(heap.elements(*self)), prefix@),
    {
        let bytes = self.byte_elements(heap)?;
        Ok(starts_with(bytes.as_slice(), prefix))
    }

    /// Whether the bytes end with `suffix`; fails if any element is not a
    /// byte.
    pub fn has_byte_suffix(&self, heap: &Heap, suffix: &[u8]) -> (r: Result<bool, ()>)
        requires
            heap.slice_ok(*self),
        ensures
            r is Ok <==> all_bytes(heap.elements(*self)),
            r matches Ok(b) ==> b == is_suffix(byte_payloads(heap.elements(*self)), suffix@),
    {
        let bytes = self.byte_elements(heap)?;
        Ok(ends_with(bytes.as_slice(), suffix))
    }

    /// A view past `prefix` when the bytes begin with it, else this slice;
    /// an empty prefix never inspects the elements.
    pub fn trim_byte_prefix(&self, heap: &Heap, prefix: &[u8]) -> (r: Result<Self, ()>)
        requires
            heap.slice_ok(*self),
        ensures
            prefix@.len() == 0 ==> r == Ok::<SliceValue, ()>(*self),
            prefix@.len() > 0 ==> (r is Ok <==> all_bytes(heap.elements(*self))),
            r matches Ok(t) ==> prefix@.len() > 0 ==> (if is_prefix(byte_payloads(heap.elements(*self)), prefix@) {
                &&& t.spec_start() == self.spec_start() + prefix@.len()
                &&& t.spec_len() == self.spec_len() - prefix@.len()
                &&& t.spec_capacity() == self.spec_capacity() - prefix@.len()
                &&& !t.spec_is_nil()
            } else {
                t == *self
            }),
            r matches Ok(t) ==> heap.slice_ok(t),
    {
        proof {
            use_type_invariant(self);
        }
        if prefix.len() == 0 {
            return Ok(*self);
        }
        if self.has_byte_prefix(heap, prefix)? {
            self.slice(prefix.len(), self.len)
        } else {
            Ok(*self)
        }
    }

    /// A view without `suffix` when the bytes end with it, else this
    /// slice; an empty suffix never inspects the elements.
    pub fn trim_byte_suffix(&self, heap: &Heap, suffix: &[u8]) -> (r: Result<Self, ()>)
        requires
            heap.slice_ok(*self),
        ensures
            suffix@.len() == 0 ==> r == Ok::<SliceValue, ()>(*self),
            suffix@.len() > 0 ==> (r is Ok <==> all_bytes(heap.elements(*self))),
            r matches Ok(t) ==> suffix@.len() > 0 ==> (if is_suffix(byte_payloads(heap.elements(*self)), suffix@) {
                &&& t.spec_start() == self.spec_start()
                &&& t.spec_len() == self.spec_len() - suffix@.len()
                &&& t.spec_capacity() == self.spec_capacity()
                &&& t.spec_is_nil() == (self.spec_is_nil() && t.spec_len() == 0)
            } else {
                t == *self
            }),
            r matches Ok(t) ==> heap.slice_ok(t),
    {
        proof {
            use_type_invariant(self);
        }
        if suffix.len() == 0 {
            return Ok(*self);
        }
        if self.has_byte_suffix(heap, suffix)? {
            self.slice(0, self.len - suffix.len())
        } else {
            Ok(*self)
        }
    }

    /// A fresh byte slice holding the bytes of `value`.
    pub fn from_string(heap: &mut Heap, value: &StringValue) -> (r: Self)
        ensures
            final(heap).cells_view() == old(heap).cells_view() + byte_values(value@),
            final(heap).channels_same(*old(heap)),
            final(heap).maps_same(*old(heap)),
            final(heap).slice_ok(r),
            final(heap).elements(r) == byte_values(value@),
            r.spec_start() == old(heap).cells_view().len(),
            r.spec_len() == value@.len(),
            r.spec_capacity() == value@.len(),
            !r.spec_is_nil(),
    {
        Self::from_bytes(heap, value.as_bytes())
    }

    /// A fresh byte slice holding `bytes`.
    pub fn from_bytes(heap: &mut Heap, bytes: &[u8]) -> (r: Self)
        ensures
            final(heap).cells_view() == old(heap).cells_view() + byte_values(bytes@),
            final(heap).channels_same(*old(heap)),
            final(heap).maps_same(*old(heap)),
            final(heap).slice_ok(r),
            final(heap).elements(r) == byte_values(bytes@),
            r.spec_start() == old(heap).cells_view().len(),
            r.spec_len() == bytes@.len(),
            r.spec_capacity() == bytes@.len(),
            !r.spec_is_nil(),
    {
        let mut elements: Vec<Value> = Vec::new();
        let mut i: usize = 0;
        while i < bytes.len()
            invariant
                i <= bytes@.len(),
                elements@ == byte_values(bytes@.take(i as int)),
            decreases bytes@.len() - i,
        {
            elements.push(Value::Byte(bytes[i]));
            i = i + 1;
            assert(elements@ =~= byte_values(bytes@.take(i as int)));
        }
        assert(bytes@.take(i as int) =~= bytes@);
        Self::new(heap, elements)
    }

    /// The slice with copies of `rest` added after its visible elements.
    /// When they fit in the capacity they are written into the existing
    /// cells, which other slices over the same cells observe; otherwise the
    /// visible elements and `rest` are copied to fresh cells.
    pub fn append(&self, heap: &mut Heap, rest: &[Value]) -> (r: Self)
        requires
            old(heap).slice_ok(*self),
            self.spec_len() + rest@.len() <= usize::MAX,
        ensures
            final(heap).slice_ok(r),
            final(heap).channels_same(*old(heap)),
            final(heap).maps_same(*old(heap)),
            rest@.len() == 0 ==> r == *self && final(heap).cells_view() == old(heap).cells_view(),
            rest@.len() > 0 ==> {
                &&& r.spec_len() == self.spec_len() + rest@.len()
                &&& !r.spec_is_nil()
                &&& seq_equiv(final(heap).elements(r), old(heap).elements(*self) + rest@)
            },
            rest@.len() > 0 && self.spec_len() + rest@.len() <= self.spec_capacity() ==> {
                &&& r.spec_start() == self.spec_start()
                &&& r.spec_capacity() == self.spec_capacity()
                &&& final(heap).cells_view().len() == old(heap).cells_view().len()
                &&& forall|k: int| #![trigger final(heap).cells_view()[k]] 0 <= k < old(heap).cells_view().len() && !(self.spec_start() + self.spec_len() <= k < self.spec_start() + r.spec_len())
                    ==> final(heap).cells_view()[k] == old(heap).cells_view()[k]
            },
            rest@.len() > 0 && self.spec_len() + rest@.len() > self.spec_capacity() ==> {
                &&& r.spec_start() == old(heap).cells_view().len()
                &&& r.spec_capacity() == r.spec_len()
                &&& final(heap).cells_view() == old(heap).cells_view() + final(heap).elements(r)
            },
    {
        proof {
            use_type_invariant(self);
        }
        if rest.len() == 0 {
            return *self;
        }
        let new_len = self.len + rest.len();
        if new_len <= self.capacity {
            let ghost before = heap.cells@;
            let mut offset: usize = 0;
            while offset < rest.len()
                invariant
                    self.start + self.capacity <= usize::MAX,
                    old(heap).slice_ok(*self),
                    new_len == self.len + rest@.len(),
                    new_len <= self.capacity,
                    before == old(heap).cells@,
                    offset <= rest@.len(),
                    heap.cells@.len() == before.len(),
                    heap.channels@ == old(heap).channels@,
                    heap.maps@ == old(heap).maps@,
                    forall|k: int| #![trigger heap.cells@[k]] self.start + self.len <= k < self.start + self.len + offset
                        ==> heap.cells@[k].equiv(rest@[k - self.start - self.len]),
                    forall|k: int| #![trigger heap.cells@[k]] 0 <= k < before.len() && !(self.start + self.len <= k < self.start + self.len + offset)
                        ==> heap.cells@[k] == before[k],
                decreases rest@.len() - offset,
            {
                heap.cells.set(self.start + self.len + offset, rest[offset].duplicate());
                offset = offset + 1;
            }
            let r = SliceValue { start: self.start, len: new_len, capacity: self.capacity, is_nil: false };
            proof {
                let e = heap.elements(r);
                let expected = old(heap).elements(*self) + rest@;
                assert forall|i: int| 0 <= i < e.len() implies #[trigger] e[i].equiv(expected[i]) by {
                    assert(e[i] == heap.cells@[self.start + i]);
                    if i < self.len {
                        assert(heap.cells@[self.start + i] == before[self.start + i]);
                        assert(expected[i] == before[self.start + i]);
                        e[i].lemma_equiv_refl();
                    }
                }
            }
            return r;
        }
        let mut elements = self.visible_elements(heap);
        let ghost visible = elements@;
        let copies = duplicate_values(rest);
        let mut copies = copies;
        let ghost copied = copies@;
        elements.append(&mut copies);
        let r = Self::new(heap, elements);
        proof {
            let e = heap.elements(r);
            let expected = old(heap).elements(*self) + rest@;
            assert(e == visible + copied);
            assert forall|i: int| 0 <= i < e.len() implies #[trigger] e[i].equiv(expected[i]) by {
                if i < visible.len() {
                    assert(e[i] == visible[i]);
                } else {
                    assert(e[i] == copied[i - visible.len()]);
                }
            }
            assert(heap.cells@ =~= old(heap).cells@ + heap.elements(r));
        }
        r
    }

    /// Replaces every visible element with the zero value of its own kind.
    pub fn clear(&self, heap: &mut Heap)
        requires
            old(heap).slice_ok(*self),
        ensures
            final(heap).cells_view().len() == old(heap).cells_view().len(),
            forall|k: int| #![trigger final(heap).cells_view()[k]] self.spec_start() <= k < self.spec_start() + self.spec_len()
                ==> old(heap).cells_view()[k].zero_like(final(heap).cells_view()[k]),
            forall|k: int| #![trigger final(heap).cells_view()[k]] 0 <= k < old(heap).cells_view().len()
                && !(self.spec_start() <= k < self.spec_start() + self.spec_len())
                ==> final(heap).cells_view()[k] == old(heap).cells_view()[k],
            final(heap).channels_same(*old(heap)),
            final(heap).maps_same(*old(heap)),
    {
        proof {
            use_type_invariant(self);
        }
        let mut offset: usize = 0;
        while offset < self.len
            invariant
                self.start + self.capacity <= usize::MAX,
                old(heap).slice_ok(*self),
                offset <= self.len,
                heap.cells@.len() == old(heap).cells@.len(),
                heap.channels@ == old(heap).channels@,
                heap.maps@ == old(heap).maps@,
                forall|k: int| #![trigger heap.cells@[k]] self.start <= k < self.start + offset
                    ==> old(heap).cells@[k].zero_like(heap.cells@[k]),
                forall|k: int| #![trigger heap.cells@[k]] 0 <= k < old(heap).cells@.len() && !(self.start <= k < self.start + offset)
                    ==> heap.cells@[k] == old(heap).cells@[k],
            decreases self.len - offset,
        {
            let index = self.start + offset;
            let zero = heap.cells[index].clear_zero_value();
            heap.cells.set(index, zero);
            offset = offset + 1;
        }
    }
}

impl StringValue {
    /// The string holding the bytes of a byte slice; fails if any element
    /// is not a byte.
    pub fn from_byte_slice(slice: &SliceValue, heap: &Heap) -> (r: Result<Self, ()>)
        requires
            heap.slice_ok(*slice),
        ensures
            r is Ok <==> all_bytes(heap.elements(*slice)),
            r matches Ok(s) ==> s@ == byte_payloads(heap.elements(*slice)),
    {
        Ok(Self::new(slice.byte_elements(heap)?))
    }
}

impl Value {
    /// Interchangeability is transitive.
    pub proof fn lemma_equiv_trans(a: Value, b: Value, c: Value)
        requires
            a.equiv(b),
            b.equiv(c),
        ensures
            a.equiv(c),
        decreases a,
    {
        if let (Value::Interface(x), Value::Interface(y), Value::Interface(z)) = (a, b, c) {
            if let (Some(p), Some(q), Some(r)) = (x.value, y.value, z.value) {
                Value::lemma_equiv_trans(*p, *q, *r);
            }
        }
    }
}

// ---------------------------------------------------------------------------
// Display text
// ---------------------------------------------------------------------------

impl Heap {
    /// How deep rendering and comparison may follow slices and maps: one
    /// more than the number of cells and maps, which no acyclic value can
    /// exceed.
    pub closed spec fn depth_budget(self) -> nat {
        self.cells@.len() + self.maps@.len() + 1
    }

    /// The display text of a value, following slices and maps at most
    /// `fuel` levels deep; deeper parts render as `...`.
    pub closed spec fn value_text(self, v: Value, fuel: nat) -> Seq<char>
        decreases fuel, v,
    {
        match v {
            Value::Integer(n) => int_text(n as int),
            Value::Byte(b) => nat_text(b as nat),
            Value::Boolean(b) => bool_text(b),
            Value::String(s) => utf8_lossy(s@),
            Value::Interface(i) => match i.value {
                Some(b) => self.value_text(*b, fuel),
                None => "<nil>"@,
            },
            Value::Slice(s) => if !self.slice_ok(s) {
                "<invalid>"@
            } else if fuel == 0 {
                "..."@
            } else {
                "["@ + self.list_text(self.cells@.subrange(s.start as int, s.start + s.len), (fuel - 1) as nat) + "]"@
            },
            Value::Chan(c) => if !self.channel_ok(c) {
                "<invalid>"@
            } else {
                "chan(len="@ + nat_text(self.channel_buffer(c).len()) + " cap="@ + nat_text(
                self.channel_capacity(c),
            ) + " closed="@ + bool_text(self.channel_closed(c)) + ")"@
            },
            Value::Mapping(m) => if !self.map_ok(m) {
                "<invalid>"@
            } else if fuel == 0 {
                "..."@
            } else {
                "map["@ + self.entries_text(self.map_entries(m), (fuel - 1) as nat) + "]"@
            },
        }
    }

    /// The display texts of `values` separated by single spaces.
    pub closed spec fn list_text(self, values: Seq<Value>, fuel: nat) -> Seq<char>
        decreases fuel, values,
    {
        if values.len() == 0 {
            Seq::empty()
        } else if values.len() == 1 {
            self.value_text(values[0], fuel)
        } else {
            self.list_text(values.subrange(0, values.len() - 1), fuel) + " "@ + self.value_text(
                values[values.len() - 1],
                fuel,
            )
        }
    }

    /// The display text of one map entry, `key:value`.
    pub closed spec fn entry_text(self, entry: (MapKey, Value), fuel: nat) -> Seq<char>
        decreases fuel, entry,
    {
        key_text(entry.0) + ":"@ + self.value_text(entry.1, fuel)
    }

    /// The display texts of map entries separated by single spaces.
    pub closed spec fn entries_text(self, entries: Seq<(MapKey, Value)>, fuel: nat) -> Seq<char>
        decreases fuel, entries,
    {
        if entries.len() == 0 {
            Seq::empty()
        } else if entries.len() == 1 {
            self.entry_text(entries[0], fuel)
        } else {
            self.entries_text(entries.subrange(0, entries.len() - 1), fuel) + " "@ + self.entry_text(
                entries[entries.len() - 1],
                fuel,
            )
        }
    }
}

/// The display text of a map key.
pub open spec fn key_text(k: MapKey) -> Seq<char> {
    match k {
        MapKey::Integer(n) => int_text(n as int),
        MapKey::Byte(b) => nat_text(b as nat),
        MapKey::Boolean(b) => bool_text(b),
        MapKey::String(s) => utf8_lossy(s@),
    }
}

impl Heap {
    /// The depth to which rendering and comparison follow slices and maps:
    /// the depth budget, capped at the largest machine number.
    pub closed spec fn render_fuel(self) -> nat {
        if self.depth_budget() <= usize::MAX {
            self.depth_budget()
        } else {
            usize::MAX as nat
        }
    }

    /// The depth budget as a machine number.
    pub fn render_budget(&self) -> (fuel: usize)
        ensures
            fuel as nat == self.render_fuel(),
    {
        let a = self.cells.len();
        let b = self.maps.len();
        if a < usize::MAX - b {
            a + b + 1
        } else {
            usize::MAX
        }
    }

    /// Appends the display text of `v`, as `print` writes it.
    pub fn push_value_text(&self, text: &mut String, v: &Value, fuel: usize)
        ensures
            final(text)@ == old(text)@ + self.value_text(*v, fuel as nat),
        decreases fuel, v,
    {
        match v {
            Value::Integer(n) => push_int(text, *n),
            Value::Byte(b) => push_nat(text, *b as u64),
            Value::Boolean(b) => push_bool(text, *b),
            Value::String(sv) => {
                let piece = lossy_text(sv.as_bytes());
                push_str(text, piece.as_str());
            },
            Value::Interface(i) => match &i.value {
                Some(b) => self.push_value_text(text, &**b, fuel),
                None => push_str(text, "<nil>"),
            },
            Value::Slice(sl) => {
                if !self.check_slice(sl) {
                    push_str(text, "<invalid>");
                } else if fuel == 0 {
                    push_str(text, "...");
                } else {
                    push_str(text, "[");
                    let ghost before = text@;
                    let ghost elems = self.cells@.subrange(sl.start as int, sl.start + sl.len);
                    let cells_len = self.cells.len();
                    let mut i: usize = 0;
                    while i < sl.len
                        invariant
                            fuel > 0,
                            cells_len == self.cells@.len(),
                            self.slice_ok(*sl),
                            elems == self.cells@.subrange(sl.start as int, sl.start + sl.len),
                            i <= sl.len,
                            text@ == before + self.list_text(elems.subrange(0, i as int), (fuel - 1) as nat),
                        decreases sl.len - i,
                    {
                        proof {
                            let sub = elems.subrange(0, i + 1);
                            assert(sub.subrange(0, sub.len() - 1) =~= elems.subrange(0, i as int));
                            assert(sub[sub.len() - 1] == self.cells@[sl.start + i]);
                            if i == 0 {
                                assert(elems.subrange(0, 0) =~= Seq::<Value>::empty());
                            }
                        }
                        if i > 0 {
                            push_str(text, " ");
                        }
                        self.push_value_text(text, &self.cells[sl.start + i], fuel - 1);
                        i = i + 1;
                        proof {
                            let sub = elems.subrange(0, i as int);
                            if i == 1 {
                                assert(self.list_text(sub, (fuel - 1) as nat) == self.value_text(sub[0], (fuel - 1) as nat));
                            }
                            assert(text@ =~= before + self.list_text(sub, (fuel - 1) as nat));
                        }
                    }
                    assert(elems.subrange(0, i as int) =~= elems);
                    push_str(text, "]");
                }
            },
            Value::Chan(c) => {
                if !self.check_channel(c) {
                    push_str(text, "<invalid>");
                } else {
                    push_str(text, "chan(len=");
                    let n = c.len(self);
                    push_nat(text, n as u64);
                    push_str(text, " cap=");
                    let cap = c.capacity(self);
                    push_nat(text, cap as u64);
                    push_str(text, " closed=");
                    let closed = if c.is_nil { false } else { self.channels[c.id].closed };
                    push_bool(text, closed);
                    push_str(text, ")");
                }
            },
            Value::Mapping(m) => {
                if !self.check_map(m) {
                    push_str(text, "<invalid>");
                } else if fuel == 0 {
                    push_str(text, "...");
                } else {
                    push_str(text, "map[");
                    let ghost before = text@;
                    let ghost entries = self.map_entries(*m);
                    let n = m.len(self);
                    let mut i: usize = 0;
                    while i < n
                        invariant
                            fuel > 0,
                            self.map_ok(*m),
                            !m.is_nil ==> m.id < self.maps@.len(),
                            entries == self.map_entries(*m),
                            n == entries.len(),
                            i <= n,
                            text@ == before + self.entries_text(entries.subrange(0, i as int), (fuel - 1) as nat),
                        decreases n - i,
                    {
                        proof {
                            let sub = entries.subrange(0, i + 1);
                            assert(sub.subrange(0, sub.len() - 1) =~= entries.subrange(0, i as int));
                            if i == 0 {
                                assert(entries.subrange(0, 0) =~= Seq::<(MapKey, Value)>::empty());
                            }
                        }
                        if i > 0 {
                            push_str(text, " ");
                        }
                        let entry = &self.maps[m.id].entries[i];
                        assert(*entry == entries[i as int]);
                        let ghost mid = text@;
                        push_key_text(text, &entry.0);
                        push_str(text, ":");
                        self.push_value_text(text, &entry.1, fuel - 1);
                        assert(text@ =~= mid + self.entry_text(*entry, (fuel - 1) as nat));
                        i = i + 1;
                        proof {
                            let sub = entries.subrange(0, i as int);
                            assert(sub[sub.len() - 1] == entries[i - 1]);
                            if i == 1 {
                                assert(self.entries_text(sub, (fuel - 1) as nat) == self.entry_text(sub[0], (fuel - 1) as nat));
                            }
                            assert(text@ =~= before + self.entries_text(sub, (fuel - 1) as nat));
                        }
                    }
                    assert(entries.subrange(0, i as int) =~= entries);
                    push_str(text, "]");
                }
            },
        }
        proof {
            assert(final(text)@ =~= old(text)@ + self.value_text(*v, fuel as nat));
        }
    }

    /// The display text of `v`, as `print` writes it.
    pub fn render_value(&self, v: &Value) -> (text: String)
        ensures
            text@ == self.value_text(*v, self.render_fuel()),
    {
        let mut text = String::new();
        let fuel = self.render_budget();
        self.push_value_text(&mut text, v, fuel);
        assert(text@ =~= self.value_text(*v, fuel as nat));
        text
    }
}

/// Appends the display text of a map key.
pub fn push_key_text(text: &mut String, k: &MapKey)
    ensures
        final(text)@ == old(text)@ + key_text(*k),
{
    match k {
        MapKey::Integer(n) => push_int(text, *n),
        MapKey::Byte(b) => push_nat(text, *b as u64),
        MapKey::Boolean(b) => push_bool(text, *b),
        MapKey::String(sv) => {
            let piece = lossy_text(sv.as_bytes());
            push_str(text, piece.as_str());
        },
    }
}

// ---------------------------------------------------------------------------
// Equality
// ---------------------------------------------------------------------------

impl Heap {
    /// Equality of plain values is equality of their contents: integers,
    /// bytes and truth values by value, strings by their bytes; and values
    /// of different kinds are never equal.
    pub proof fn law_plain_equality(self, x: i64, y: i64, c: u8, d: u8, p: bool, q: bool, s: StringValue, t: StringValue, fuel: nat)
        ensures
            self.values_eq(Value::Integer(x), Value::Integer(y), fuel) <==> x == y,
            self.values_eq(Value::Byte(c), Value::Byte(d), fuel) <==> c == d,
            self.values_eq(Value::Boolean(p), Value::Boolean(q), fuel) <==> p == q,
            self.values_eq(Value::String(s), Value::String(t), fuel) <==> s@ == t@,
            !self.values_eq(Value::Integer(x), Value::Byte(c), fuel),
            !self.values_eq(Value::Integer(x), Value::String(s), fuel),
            !self.values_eq(Value::Byte(c), Value::Boolean(p), fuel),
    {
    }

    /// Whether two values are equal: scalars and strings by content,
    /// interfaces by dynamic type and payload, channels by identity, and
    /// slices and maps by their shape and contents, followed at most `fuel`
    /// levels deep (deeper contents count as unequal).
    pub closed spec fn values_eq(self, a: Value, b: Value, fuel: nat) -> bool
        decreases fuel, a,
    {
        match (a, b) {
            (Value::Integer(x), Value::Integer(y)) => x == y,
            (Value::Byte(x), Value::Byte(y)) => x == y,
            (Value::Boolean(x), Value::Boolean(y)) => x == y,
            (Value::String(x), Value::String(y)) => x@ == y@,
            (Value::Interface(x), Value::Interface(y)) => {
                &&& x.value_type == y.value_type
                &&& match (x.value, y.value) {
                    (Some(p), Some(q)) => self.values_eq(*p, *q, fuel),
                    (None, None) => true,
                    _ => false,
                }
            },
            (Value::Slice(x), Value::Slice(y)) => {
                &&& self.slice_ok(x)
                &&& self.slice_ok(y)
                &&& x.is_nil == y.is_nil
                &&& x.len == y.len
                &&& x.capacity == y.capacity
                &&& fuel > 0
                &&& self.lists_eq(
                    self.cells@.subrange(x.start as int, x.start + x.len),
                    self.cells@.subrange(y.start as int, y.start + y.len),
                    (fuel - 1) as nat,
                )
            },
            (Value::Chan(x), Value::Chan(y)) => (x.is_nil && y.is_nil) || (!x.is_nil && !y.is_nil
                && x.id == y.id),
            (Value::Mapping(x), Value::Mapping(y)) => {
                &&& self.map_ok(x)
                &&& self.map_ok(y)
                &&& x.is_nil == y.is_nil
                &&& fuel > 0
                &&& self.entries_eq(self.map_entries(x), self.map_entries(y), (fuel - 1) as nat)
            },
            _ => false,
        }
    }

    /// Element-wise equality of two value sequences.
    pub closed spec fn lists_eq(self, xs: Seq<Value>, ys: Seq<Value>, fuel: nat) -> bool
        decreases fuel, xs,
    {
        if xs.len() != ys.len() {
            false
        } else if xs.len() == 0 {
            true
        } else {
            self.lists_eq(xs.subrange(0, xs.len() - 1), ys.subrange(0, ys.len() - 1), fuel)
                && self.values_eq(xs[xs.len() - 1], ys[ys.len() - 1], fuel)
        }
    }

    /// Entry-wise equality of two map entry sequences.
    pub closed spec fn entries_eq(self, xs: Seq<(MapKey, Value)>, ys: Seq<(MapKey, Value)>, fuel: nat) -> bool
        decreases fuel, xs,
    {
        if xs.len() != ys.len() {
            false
        } else if xs.len() == 0 {
            true
        } else {
            &&& self.entries_eq(xs.subrange(0, xs.len() - 1), ys.subrange(0, ys.len() - 1), fuel)
            &&& same_key(xs[xs.len() - 1].0, ys[ys.len() - 1].0)
            &&& self.values_eq(xs[xs.len() - 1].1, ys[ys.len() - 1].1, fuel)
        }
    }

    /// Whether two values are equal, following slices and maps at most
    /// `fuel` levels deep.
    pub fn equal_values(&self, a: &Value, b: &Value, fuel: usize) -> (r: bool)
        ensures
            r == self.values_eq(*a, *b, fuel as nat),
        decreases fuel, a,
    {
        match (a, b) {
            (Value::Integer(x), Value::Integer(y)) => *x == *y,
            (Value::Byte(x), Value::Byte(y)) => *x == *y,
            (Value::Boolean(x), Value::Boolean(y)) => *x == *y,
            (Value::String(x), Value::String(y)) => {
                let c = crate::runtime::byteseq::compare_bytes(x.as_bytes(), y.as_bytes());
                proof {
                    crate::runtime::byteseq::lemma_lex_compare_zero(x@, y@);
                }
                c == 0
            },
            (Value::Interface(x), Value::Interface(y)) => {
                let same_type = match (&x.value_type, &y.value_type) {
                    (Some(p), Some(q)) => p.same_as(q),
                    (None, None) => true,
                    _ => false,
                };
                if !same_type {
                    return false;
                }
                match (&x.value, &y.value) {
                    (Some(p), Some(q)) => self.equal_values(&**p, &**q, fuel),
                    (None, None) => true,
                    _ => false,
                }
            },
            (Value::Slice(x), Value::Slice(y)) => {
                if !self.check_slice(x) || !self.check_slice(y) {
                    return false;
                }
                if x.is_nil != y.is_nil || x.len != y.len || x.capacity != y.capacity || fuel == 0 {
                    return false;
                }
                let ghost xs = self.cells@.subrange(x.start as int, x.start + x.len);
                let ghost ys = self.cells@.subrange(y.start as int, y.start + y.len);
                let cells_len = self.cells.len();
                let mut i: usize = 0;
                while i < x.len
                    invariant
                        fuel > 0,
                        *a == Value::Slice(*x),
                        *b == Value::Slice(*y),
                        x.is_nil == y.is_nil,
                        x.capacity == y.capacity,
                        cells_len == self.cells@.len(),
                        self.slice_ok(*x),
                        self.slice_ok(*y),
                        x.len == y.len,
                        xs == self.cells@.subrange(x.start as int, x.start + x.len),
                        ys == self.cells@.subrange(y.start as int, y.start + y.len),
                        i <= x.len,
                        self.lists_eq(xs.subrange(0, i as int), ys.subrange(0, i as int), (fuel - 1) as nat),
                    decreases x.len - i,
                {
                    let same = self.equal_values(&self.cells[x.start + i], &self.cells[y.start + i], fuel - 1);
                    proof {
                        let xs1 = xs.subrange(0, i + 1);
                        let ys1 = ys.subrange(0, i + 1);
                        assert(xs1.subrange(0, xs1.len() - 1) =~= xs.subrange(0, i as int));
                        assert(ys1.subrange(0, ys1.len() - 1) =~= ys.subrange(0, i as int));
                        assert(xs1[xs1.len() - 1] == self.cells@[x.start + i]);
                        assert(ys1[ys1.len() - 1] == self.cells@[y.start + i]);
                    }
                    if !same {
                        proof {
                            if self.lists_eq(xs, ys, (fuel - 1) as nat) {
                                self.lemma_lists_eq_prefix(xs, ys, (i + 1) as nat, (fuel - 1) as nat);
                                let xs1 = xs.subrange(0, i + 1);
                                let ys1 = ys.subrange(0, i + 1);
                                assert(self.lists_eq(xs1, ys1, (fuel - 1) as nat));
                                assert(self.values_eq(xs1[xs1.len() - 1], ys1[ys1.len() - 1], (fuel - 1) as nat));
                            }
                            assert(!self.lists_eq(xs, ys, (fuel - 1) as nat));
                        }
                        return false;
                    }
                    i = i + 1;
                }
                assert(xs.subrange(0, i as int) =~= xs);
                assert(ys.subrange(0, i as int) =~= ys);
                true
            },
            (Value::Chan(x), Value::Chan(y)) => (x.is_nil && y.is_nil) || (!x.is_nil && !y.is_nil
                && x.id == y.id),
            (Value::Mapping(x), Value::Mapping(y)) => {
                if !self.check_map(x) || !self.check_map(y) {
                    return false;
                }
                if x.is_nil != y.is_nil || fuel == 0 {
                    return false;
                }
                let ghost xs = self.map_entries(*x);
                let ghost ys = self.map_entries(*y);
                let n = x.len(self);
                if n != y.len(self) {
                    assert(!self.entries_eq(xs, ys, (fuel - 1) as nat));
                    return false;
                }
                let mut i: usize = 0;
                while i < n
                    invariant
                        fuel > 0,
                        *a == Value::Mapping(*x),
                        *b == Value::Mapping(*y),
                        self.map_ok(*x),
                        self.map_ok(*y),
                        x.is_nil == y.is_nil,
                        xs == self.map_entries(*x),
                        ys == self.map_entries(*y),
                        n == xs.len(),
                        n == ys.len(),
                        i <= n,
                        self.entries_eq(xs.subrange(0, i as int), ys.subrange(0, i as int), (fuel - 1) as nat),
                    decreases n - i,
                {
                    let ex = &self.maps[x.id].entries[i];
                    let ey = &self.maps[y.id].entries[i];
                    assert(*ex == xs[i as int]);
                    assert(*ey == ys[i as int]);
                    let same = ex.0.same(&ey.0) && self.equal_values(&ex.1, &ey.1, fuel - 1);
                    proof {
                        let xs1 = xs.subrange(0, i + 1);
                        let ys1 = ys.subrange(0, i + 1);
                        assert(xs1.subrange(0, xs1.len() - 1) =~= xs.subrange(0, i as int));
                        assert(ys1.subrange(0, ys1.len() - 1) =~= ys.subrange(0, i as int));
                        assert(xs1[xs1.len() - 1] == xs[i as int]);
                        assert(ys1[ys1.len() - 1] == ys[i as int]);
                    }
                    if !same {
                        proof {
                            if self.entries_eq(xs, ys, (fuel - 1) as nat) {
                                self.lemma_entries_eq_prefix(xs, ys, (i + 1) as nat, (fuel - 1) as nat);
                                let xs1 = xs.subrange(0, i + 1);
                                let ys1 = ys.subrange(0, i + 1);
                                assert(self.entries_eq(xs1, ys1, (fuel - 1) as nat));
                                assert(same_key(xs1[xs1.len() - 1].0, ys1[ys1.len() - 1].0));
                                assert(self.values_eq(xs1[xs1.len() - 1].1, ys1[ys1.len() - 1].1, (fuel - 1) as nat));
                            }
                            assert(!self.entries_eq(xs, ys, (fuel - 1) as nat));
                        }
                        return false;
                    }
                    i = i + 1;
                }
                assert(xs.subrange(0, i as int) =~= xs);
                assert(ys.subrange(0, i as int) =~= ys);
                true
            },
            _ => false,
        }
    }

    /// Equal sequences have equal prefixes.
    proof fn lemma_lists_eq_prefix(self, xs: Seq<Value>, ys: Seq<Value>, k: nat, fuel: nat)
        requires
            k <= xs.len(),
            xs.len() == ys.len(),
            self.lists_eq(xs, ys, fuel),
        ensures
            self.lists_eq(xs.subrange(0, k as int), ys.subrange(0, k as int), fuel),
        decreases xs.len(),
    {
        if k < xs.len() {
            let xs0 = xs.subrange(0, xs.len() - 1);
            let ys0 = ys.subrange(0, ys.len() - 1);
            self.lemma_lists_eq_prefix(xs0, ys0, k, fuel);
            assert(xs0.subrange(0, k as int) =~= xs.subrange(0, k as int));
            assert(ys0.subrange(0, k as int) =~= ys.subrange(0, k as int));
        } else {
            assert(xs.subrange(0, k as int) =~= xs);
            assert(ys.subrange(0, k as int) =~= ys);
        }
    }

    /// Equal entry sequences have equal prefixes.
    proof fn lemma_entries_eq_prefix(self, xs: Seq<(MapKey, Value)>, ys: Seq<(MapKey, Value)>, k: nat, fuel: nat)
        requires
            k <= xs.len(),
            xs.len() == ys.len(),
            self.entries_eq(xs, ys, fuel),
        ensures
            self.entries_eq(xs.subrange(0, k as int), ys.subrange(0, k as int), fuel),
        decreases xs.len(),
    {
        if k < xs.len() {
            let xs0 = xs.subrange(0, xs.len() - 1);
            let ys0 = ys.subrange(0, ys.len() - 1);
            self.lemma_entries_eq_prefix(xs0, ys0, k, fuel);
            assert(xs0.subrange(0, k as int) =~= xs.subrange(0, k as int));
            assert(ys0.subrange(0, k as int) =~= ys.subrange(0, k as int));
        } else {
            assert(xs.subrange(0, k as int) =~= xs);
            assert(ys.subrange(0, k as int) =~= ys);
        }
    }
}

} // verus!
