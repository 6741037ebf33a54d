//! The VM's dynamic type tagging, raw value representation and heap objects.
//!
//! A raw VM value carries its type tag itself; heap-backed categories hold
//! an index into the interpreter's heap.  The VM-internal `Unreachable` tag
//! is modelled explicitly so every API boundary can reject it.

use vstd::prelude::*;

verus! {

/// Rust-mapped runtime type tag of a VM value.
#[derive(Debug, Clone, Copy, PartialEq, Eq, Structural)]
pub enum Ruby {
    Array,
    Bool,
    Data,
    Exception,
    Fixnum,
    Nil,
    Str,
    Symbol,
    Unreachable,
}

impl Ruby {
    /// Class name of a value with this type tag.
    pub open spec fn class_name_spec(self) -> Seq<char> {
        match self {
            Ruby::Array => "Array"@,
            Ruby::Bool => "Boolean"@,
            Ruby::Data => "Data"@,
            Ruby::Exception => "Exception"@,
            Ruby::Fixnum => "Fixnum"@,
            Ruby::Nil => "NilClass"@,
            Ruby::Str => "String"@,
            Ruby::Symbol => "Symbol"@,
            Ruby::Unreachable => "Unreachable"@,
        }
    }

    pub fn class_name(self) -> (r: &'static str)
        ensures
            r@ == self.class_name_spec(),
    {
        match self {
            Ruby::Array => "Array",
            Ruby::Bool => "Boolean",
            Ruby::Data => "Data",
            Ruby::Exception => "Exception",
            Ruby::Fixnum => "Fixnum",
            Ruby::Nil => "NilClass",
            Ruby::Str => "String",
            Ruby::Symbol => "Symbol",
            Ruby::Unreachable => "Unreachable",
        }
    }
}

/// A raw VM value: the token that crosses the host/VM boundary.
///
/// Immediate categories (`Bool`, `Fixnum`, `Nil`, `Sym`, `Unreachable`)
/// carry their payload; heap categories carry an index into the
/// interpreter's heap, which owns the memory.
#[derive(Debug, Clone, Copy, PartialEq, Eq, Structural)]
pub enum RawValue {
    Ary(usize),
    Bool(bool),
    Data(usize),
    Exc(usize),
    Fixnum(i64),
    Nil,
    Sym(usize),
    Str(usize),
    Unreachable,
}

/// Map a raw VM value to its type tag.
pub open spec fn ruby_type_of(v: RawValue) -> Ruby {
    match v {
        RawValue::Ary(_) => Ruby::Array,
        RawValue::Bool(_) => Ruby::Bool,
        RawValue::Data(_) => Ruby::Data,
        RawValue::Exc(_) => Ruby::Exception,
        RawValue::Fixnum(_) => Ruby::Fixnum,
        RawValue::Nil => Ruby::Nil,
        RawValue::Sym(_) => Ruby::Symbol,
        RawValue::Str(_) => Ruby::Str,
        RawValue::Unreachable => Ruby::Unreachable,
    }
}

/// Map a raw VM value to its type tag, executably.
pub fn ruby_type_exec(v: RawValue) -> (r: Ruby)
    ensures
        r == ruby_type_of(v),
{
    match v {
        RawValue::Ary(_) => Ruby::Array,
        RawValue::Bool(_) => Ruby::Bool,
        RawValue::Data(_) => Ruby::Data,
        RawValue::Exc(_) => Ruby::Exception,
        RawValue::Fixnum(_) => Ruby::Fixnum,
        RawValue::Nil => Ruby::Nil,
        RawValue::Sym(_) => Ruby::Symbol,
        RawValue::Str(_) => Ruby::Str,
        RawValue::Unreachable => Ruby::Unreachable,
    }
}

/// An object on the VM heap.
pub enum HeapObj {
    /// An array of raw values.
    Ary(Vec<RawValue>),
    /// An exception, carrying its description.
    Exc(String),
    /// Match result data: an owned copy of the matched text, a copy of the
    /// pattern descriptor, and the span of the region that was searched.
    MatchData { text: String, pattern: String, start: usize, end: usize },
    /// A pattern descriptor (foreign-data backed: single-owner semantics).
    Pattern(String),
    /// A byte-oriented character string.
    Str(String),
}

/// A heap slot: the object plus the collector's liveness flag.  The model
/// never reuses a slot; a collected object merely has `alive == false`.
pub struct HeapSlot {
    pub obj: HeapObj,
    pub alive: bool,
}

/// Well-formedness of a raw value against a heap: heap-backed values index
/// into the heap and their tag agrees with the object stored there.
pub open spec fn val_wf(v: RawValue, h: Seq<HeapSlot>) -> bool {
    match v {
        RawValue::Ary(i) => i < h.len() && h[i as int].obj is Ary,
        RawValue::Exc(i) => i < h.len() && h[i as int].obj is Exc,
        RawValue::Data(i) => i < h.len()
            && (h[i as int].obj is Pattern || h[i as int].obj is MatchData),
        RawValue::Str(i) => i < h.len() && h[i as int].obj is Str,
        _ => true,
    }
}

/// Well-formedness of a heap object: array elements are themselves
/// well-formed values.
pub open spec fn obj_wf(o: HeapObj, h: Seq<HeapSlot>) -> bool {
    match o {
        HeapObj::Ary(elems) => forall|k: int|
            0 <= k < elems@.len() ==> val_wf(#[trigger] elems@[k], h),
        _ => true,
    }
}

/// Whether a raw value directly references heap slot `i`.
pub open spec fn val_refs(v: RawValue, i: int) -> bool {
    match v {
        RawValue::Ary(j) => j == i,
        RawValue::Exc(j) => j == i,
        RawValue::Data(j) => j == i,
        RawValue::Str(j) => j == i,
        _ => false,
    }
}

/// Content of heap slot `i` when it holds a string.
pub open spec fn heap_str(h: Seq<HeapSlot>, i: int) -> Option<Seq<char>> {
    if 0 <= i < h.len() {
        match h[i].obj {
            HeapObj::Str(s) => Some(s@),
            _ => None,
        }
    } else {
        None
    }
}

/// Content of heap slot `i` when it holds an exception.
pub open spec fn heap_exc(h: Seq<HeapSlot>, i: int) -> Option<Seq<char>> {
    if 0 <= i < h.len() {
        match h[i].obj {
            HeapObj::Exc(s) => Some(s@),
            _ => None,
        }
    } else {
        None
    }
}

/// Content of heap slot `i` when it holds an array.
pub open spec fn heap_ary(h: Seq<HeapSlot>, i: int) -> Option<Seq<RawValue>> {
    if 0 <= i < h.len() {
        match h[i].obj {
            HeapObj::Ary(elems) => Some(elems@),
            _ => None,
        }
    } else {
        None
    }
}

/// Content of heap slot `i` when it holds a pattern descriptor.
pub open spec fn heap_pattern(h: Seq<HeapSlot>, i: int) -> Option<Seq<char>> {
    if 0 <= i < h.len() {
        match h[i].obj {
            HeapObj::Pattern(s) => Some(s@),
            _ => None,
        }
    } else {
        None
    }
}

/// Liveness of a raw value against a heap: immediate values are never
/// dead; a heap-backed value is dead exactly when its slot was collected.
pub open spec fn val_dead(v: RawValue, h: Seq<HeapSlot>) -> bool {
    match v {
        RawValue::Ary(i) => !h[i as int].alive,
        RawValue::Exc(i) => !h[i as int].alive,
        RawValue::Data(i) => !h[i as int].alive,
        RawValue::Str(i) => !h[i as int].alive,
        _ => false,
    }
}

/// Value equality as the VM's `==` decides it: immediates structurally,
/// strings by content, other heap categories by identity.
pub open spec fn val_eq(h: Seq<HeapSlot>, a: RawValue, b: RawValue) -> bool {
    match (a, b) {
        (RawValue::Str(i), RawValue::Str(j)) => heap_str(h, i as int) == heap_str(h, j as int),
        _ => a == b,
    }
}

/// Whether heap index `i` occurs in the arena.
pub open spec fn in_arena(a: Seq<usize>, i: int) -> bool {
    exists|k: int| 0 <= k < a.len() && (#[trigger] a[k]) as int == i
}

/// Whether heap index `i` occurs in the first `j` arena entries.
pub open spec fn in_arena_prefix(a: Seq<usize>, j: int, i: int) -> bool {
    exists|k: int| 0 <= k < j && (#[trigger] a[k]) as int == i
}

/// Whether some global variable references heap slot `i`.
pub open spec fn global_refs(g: Seq<RawValue>, i: int) -> bool {
    exists|t: int| 0 <= t < g.len() && val_refs(#[trigger] g[t], i)
}

/// Whether one of the first `t0` global variables references heap slot `i`.
pub open spec fn global_refs_prefix(g: Seq<RawValue>, t0: int, i: int) -> bool {
    exists|t: int| 0 <= t < t0 && val_refs(#[trigger] g[t], i)
}

/// The heap only ever grows, and existing objects are never replaced
/// (collection merely clears the liveness flag).
pub open spec fn heap_extends(h0: Seq<HeapSlot>, h1: Seq<HeapSlot>) -> bool {
    h0.len() <= h1.len() && forall|i: int| 0 <= i < h0.len() ==> h1[i].obj == #[trigger] h0[i].obj
}

/// Compare two string slices by content.
pub fn str_eq(a: &str, b: &str) -> (r: bool)
    ensures
        r == (a@ == b@),
{
    let x: String = a.to_owned();
    let y: String = b.to_owned();
    x == y
}

} // verus!
