//! The conversion contract between host types and VM values.
//!
//! Two asymmetric traits: [`Convert`] is the total direction (host type to
//! VM value, never fails), [`TryConvert`] is the fallible direction (VM
//! value to host type, fails with a typed error whenever the value's
//! runtime type does not match).  Container conversions are element-wise
//! and fail as a whole when any element fails.

use vstd::prelude::*;

use crate::interp::{state_eq, Artichoke};
use crate::types::{heap_ary, heap_str, ruby_type_of, val_wf, HeapObj, HeapSlot, RawValue};
use crate::value::Value;
use crate::ArtichokeError;

verus! {

/// Effect of allocating a fresh string with content `content`: the new
/// slot is alive, rooted in the arena, and everything else is unchanged.
pub open spec fn pushed_string(
    pre: Artichoke,
    post: Artichoke,
    content: Seq<char>,
    v: RawValue,
) -> bool {
    &&& pre.heap@.len() < usize::MAX
    &&& post.heap@.len() == pre.heap@.len() + 1
    &&& forall|i: int| 0 <= i < pre.heap@.len() ==> post.heap@[i] == #[trigger] pre.heap@[i]
    &&& heap_str(post.heap@, pre.heap@.len() as int) == Some(content)
    &&& post.heap@[pre.heap@.len() as int].alive
    &&& v == RawValue::Str(pre.heap@.len() as usize)
    &&& post.arena@ == pre.arena@.push(pre.heap@.len() as usize)
    &&& post.symbols@ == pre.symbols@
    &&& post.globals@ == pre.globals@
    &&& post.exc == pre.exc
    &&& post.most_recent == pre.most_recent
    &&& post.num_set_regexp_capture_globals == pre.num_set_regexp_capture_globals
}

/// Total conversion from a host value to a VM value.  Must not fail: a
/// panic would indicate a programmer error, never a data error.
pub trait Convert<T> {
    /// The interpreter state this converter is.
    spec fn cst(&self) -> Artichoke;

    /// Inputs the conversion accepts (totality may still need the value
    /// handle to be well formed against this interpreter).
    spec fn conv_pre(pre: Artichoke, t: T) -> bool;

    /// Relation between the prior state, the resulting state, the host
    /// value and the produced raw VM value.
    spec fn conv_rel(pre: Artichoke, post: Artichoke, t: T, v: RawValue) -> bool;

    fn convert(&mut self, value: T) -> (r: Value)
        requires
            old(self).cst().wf(),
            Self::conv_pre(old(self).cst(), value),
        ensures
            final(self).cst().wf(),
            val_wf(r@, final(self).cst().heap@),
            Self::conv_rel(old(self).cst(), final(self).cst(), value, r@),
    ;
}

/// Fallible conversion from a VM value to a host value, used whenever the
/// value's runtime type is unknown ahead of time.
pub trait TryConvert<T> {
    /// The interpreter state this converter is.
    spec fn tst(&self) -> Artichoke;

    /// Whether `t` is the host reading of `v` against heap `h`.
    spec fn tc_ok(h: Seq<HeapSlot>, v: RawValue, t: T) -> bool;

    /// Whether the conversion of `v` fails against heap `h`.
    spec fn tc_fails(h: Seq<HeapSlot>, v: RawValue) -> bool;

    fn try_convert(&self, value: Value) -> (r: Result<T, ArtichokeError>)
        requires
            self.tst().wf(),
            val_wf(value@, self.tst().heap@),
        ensures
            match r {
                Ok(t) => Self::tc_ok(self.tst().heap@, value@, t) && !Self::tc_fails(
                    self.tst().heap@,
                    value@,
                ),
                Err(e) => Self::tc_fails(self.tst().heap@, value@) && e
                    == ArtichokeError::ConvertToRust(ruby_type_of(value@)),
            },
    ;
}

/// For every implemented host type, the converter's state is the
/// interpreter itself.  Generic code (such as `funcall`) carries this as
/// an assumption; concrete instantiations prove it by unfolding.
pub open spec fn tst_identity<T>() -> bool where Artichoke: TryConvert<T> {
    forall|a: Artichoke| #[trigger] <Artichoke as TryConvert<T>>::tst(&a) == a
}

impl Convert<bool> for Artichoke {
    open spec fn cst(&self) -> Artichoke {
        *self
    }

    open spec fn conv_pre(pre: Artichoke, t: bool) -> bool {
        true
    }

    open spec fn conv_rel(pre: Artichoke, post: Artichoke, t: bool, v: RawValue) -> bool {
        state_eq(pre, post) && v == RawValue::Bool(t)
    }

    fn convert(&mut self, value: bool) -> (r: Value) {
        Value::new(RawValue::Bool(value))
    }
}

impl Convert<i64> for Artichoke {
    open spec fn cst(&self) -> Artichoke {
        *self
    }

    open spec fn conv_pre(pre: Artichoke, t: i64) -> bool {
        true
    }

    open spec fn conv_rel(pre: Artichoke, post: Artichoke, t: i64, v: RawValue) -> bool {
        state_eq(pre, post) && v == RawValue::Fixnum(t)
    }

    fn convert(&mut self, value: i64) -> (r: Value) {
        Value::new(RawValue::Fixnum(value))
    }
}

impl<'a> Convert<&'a str> for Artichoke {
    open spec fn cst(&self) -> Artichoke {
        *self
    }

    open spec fn conv_pre(pre: Artichoke, t: &'a str) -> bool {
        true
    }

    open spec fn conv_rel(pre: Artichoke, post: Artichoke, t: &'a str, v: RawValue) -> bool {
        pushed_string(pre, post, t@, v)
    }

    fn convert(&mut self, value: &'a str) -> (r: Value) {
        let idx = self.allocate(HeapObj::Str(value.to_owned()));
        proof {
            assert(vstd::std_specs::vec::spec_vec_len(&self.heap) == self.heap@.len());
        }
        Value::new(RawValue::Str(idx))
    }
}

impl Convert<String> for Artichoke {
    open spec fn cst(&self) -> Artichoke {
        *self
    }

    open spec fn conv_pre(pre: Artichoke, t: String) -> bool {
        true
    }

    open spec fn conv_rel(pre: Artichoke, post: Artichoke, t: String, v: RawValue) -> bool {
        pushed_string(pre, post, t@, v)
    }

    fn convert(&mut self, value: String) -> (r: Value) {
        let idx = self.allocate(HeapObj::Str(value));
        proof {
            assert(vstd::std_specs::vec::spec_vec_len(&self.heap) == self.heap@.len());
        }
        Value::new(RawValue::Str(idx))
    }
}

impl Convert<Option<Value>> for Artichoke {
    open spec fn cst(&self) -> Artichoke {
        *self
    }

    open spec fn conv_pre(pre: Artichoke, t: Option<Value>) -> bool {
        t matches Some(x) ==> val_wf(x@, pre.heap@)
    }

    open spec fn conv_rel(pre: Artichoke, post: Artichoke, t: Option<Value>, v: RawValue) -> bool {
        state_eq(pre, post) && v == (match t {
            Some(x) => x@,
            None => RawValue::Nil,
        })
    }

    fn convert(&mut self, value: Option<Value>) -> (r: Value) {
        match value {
            Some(x) => x,
            None => Value::new(RawValue::Nil),
        }
    }
}

impl Convert<Value> for Artichoke {
    open spec fn cst(&self) -> Artichoke {
        *self
    }

    open spec fn conv_pre(pre: Artichoke, t: Value) -> bool {
        val_wf(t@, pre.heap@)
    }

    open spec fn conv_rel(pre: Artichoke, post: Artichoke, t: Value, v: RawValue) -> bool {
        state_eq(pre, post) && v == t@
    }

    fn convert(&mut self, value: Value) -> (r: Value) {
        value
    }
}

impl TryConvert<bool> for Artichoke {
    open spec fn tst(&self) -> Artichoke {
        *self
    }

    open spec fn tc_ok(h: Seq<HeapSlot>, v: RawValue, t: bool) -> bool {
        v == RawValue::Bool(t)
    }

    open spec fn tc_fails(h: Seq<HeapSlot>, v: RawValue) -> bool {
        !(v is Bool)
    }

    fn try_convert(&self, value: Value) -> (r: Result<bool, ArtichokeError>) {
        match value.inner() {
            RawValue::Bool(b) => Ok(b),
            _ => Err(ArtichokeError::ConvertToRust(value.ruby_type())),
        }
    }
}

impl TryConvert<i64> for Artichoke {
    open spec fn tst(&self) -> Artichoke {
        *self
    }

    open spec fn tc_ok(h: Seq<HeapSlot>, v: RawValue, t: i64) -> bool {
        v == RawValue::Fixnum(t)
    }

    open spec fn tc_fails(h: Seq<HeapSlot>, v: RawValue) -> bool {
        !(v is Fixnum)
    }

    fn try_convert(&self, value: Value) -> (r: Result<i64, ArtichokeError>) {
        match value.inner() {
            RawValue::Fixnum(n) => Ok(n),
            _ => Err(ArtichokeError::ConvertToRust(value.ruby_type())),
        }
    }
}

impl TryConvert<String> for Artichoke {
    open spec fn tst(&self) -> Artichoke {
        *self
    }

    open spec fn tc_ok(h: Seq<HeapSlot>, v: RawValue, t: String) -> bool {
        v matches RawValue::Str(i) && heap_str(h, i as int) == Some(t@)
    }

    open spec fn tc_fails(h: Seq<HeapSlot>, v: RawValue) -> bool {
        !(v is Str)
    }

    fn try_convert(&self, value: Value) -> (r: Result<String, ArtichokeError>) {
        match value.inner() {
            RawValue::Str(i) => match &self.heap[i].obj {
                HeapObj::Str(s) => Ok(s.clone()),
                _ => {
                    proof {
                        assert(false);
                    }
                    Err(ArtichokeError::ConvertToRust(crate::types::Ruby::Str))
                },
            },
            _ => Err(ArtichokeError::ConvertToRust(value.ruby_type())),
        }
    }
}

impl TryConvert<Option<String>> for Artichoke {
    open spec fn tst(&self) -> Artichoke {
        *self
    }

    open spec fn tc_ok(h: Seq<HeapSlot>, v: RawValue, t: Option<String>) -> bool {
        match t {
            None => v is Nil,
            Some(s) => v matches RawValue::Str(i) && heap_str(h, i as int) == Some(s@),
        }
    }

    open spec fn tc_fails(h: Seq<HeapSlot>, v: RawValue) -> bool {
        !(v is Str || v is Nil)
    }

    fn try_convert(&self, value: Value) -> (r: Result<Option<String>, ArtichokeError>) {
        match value.inner() {
            RawValue::Nil => Ok(None),
            RawValue::Str(i) => match &self.heap[i].obj {
                HeapObj::Str(s) => Ok(Some(s.clone())),
                _ => {
                    proof {
                        assert(false);
                    }
                    Err(ArtichokeError::ConvertToRust(crate::types::Ruby::Str))
                },
            },
            _ => Err(ArtichokeError::ConvertToRust(value.ruby_type())),
        }
    }
}

impl TryConvert<Value> for Artichoke {
    open spec fn tst(&self) -> Artichoke {
        *self
    }

    open spec fn tc_ok(h: Seq<HeapSlot>, v: RawValue, t: Value) -> bool {
        t@ == v
    }

    open spec fn tc_fails(h: Seq<HeapSlot>, v: RawValue) -> bool {
        false
    }

    fn try_convert(&self, value: Value) -> (r: Result<Value, ArtichokeError>) {
        Ok(value)
    }
}

/// Whether every element of an array is a string.
pub open spec fn all_str_elems(elems: Seq<RawValue>) -> bool {
    forall|k: int| 0 <= k < elems.len() ==> (#[trigger] elems[k]) is Str
}

impl TryConvert<Vec<String>> for Artichoke {
    open spec fn tst(&self) -> Artichoke {
        *self
    }

    open spec fn tc_ok(h: Seq<HeapSlot>, v: RawValue, t: Vec<String>) -> bool {
        &&& v matches RawValue::Ary(i)
        &&& heap_ary(h, i as int) matches Some(elems)
        &&& t@.len() == elems.len()
        &&& forall|k: int|
            0 <= k < elems.len() ==> ((#[trigger] elems[k]) matches RawValue::Str(j) && heap_str(
                h,
                j as int,
            ) == Some(t@[k]@))
    }

    open spec fn tc_fails(h: Seq<HeapSlot>, v: RawValue) -> bool {
        match v {
            RawValue::Ary(i) => match heap_ary(h, i as int) {
                Some(elems) => !all_str_elems(elems),
                None => true,
            },
            _ => true,
        }
    }

    fn try_convert(&self, value: Value) -> (r: Result<Vec<String>, ArtichokeError>) {
        let tag = value.ruby_type();
        match value.inner() {
            RawValue::Ary(i) => {
                let elems: &Vec<RawValue> = match &self.heap[i].obj {
                    HeapObj::Ary(elems) => elems,
                    _ => {
                        proof {
                            assert(false);
                        }
                        return Err(ArtichokeError::ConvertToRust(tag));
                    },
                };
                let mut out: Vec<String> = Vec::new();
                let mut k: usize = 0;
                while k < elems.len()
                    invariant
                        self.wf(),
                        heap_ary(self.heap@, i as int) == Some(elems@),
                        k <= elems@.len(),
                        out@.len() == k,
                        tag == ruby_type_of(value@),
                        value@ == RawValue::Ary(i),
                        forall|m: int|
                            0 <= m < k ==> ((#[trigger] elems@[m]) matches RawValue::Str(j)
                                && heap_str(self.heap@, j as int) == Some(out@[m]@)),
                    decreases elems@.len() - k,
                {
                    proof {
                        assert(crate::types::obj_wf(self.heap@[i as int].obj, self.heap@));
                        assert(val_wf(elems@[k as int], self.heap@));
                    }
                    match elems[k] {
                        RawValue::Str(j) => match &self.heap[j].obj {
                            HeapObj::Str(s) => {
                                out.push(s.clone());
                            },
                            _ => {
                                proof {
                                    assert(false);
                                }
                                return Err(ArtichokeError::ConvertToRust(tag));
                            },
                        },
                        _ => {
                            proof {
                                assert(!all_str_elems(elems@)) by {
                                    if all_str_elems(elems@) {
                                        assert((elems@[k as int]) is Str);
                                    }
                                }
                            }
                            return Err(ArtichokeError::ConvertToRust(tag));
                        },
                    }
                    k += 1;
                }
                proof {
                    assert(all_str_elems(elems@));
                }
                Ok(out)
            },
            _ => Err(ArtichokeError::ConvertToRust(tag)),
        }
    }
}

/// Round trip for booleans: converting a host boolean and reading it back
/// yields the same boolean, and nothing else.
pub proof fn lemma_round_trip_bool(pre: Artichoke, post: Artichoke, x: bool, v: RawValue)
    requires
        <Artichoke as Convert<bool>>::conv_rel(pre, post, x, v),
    ensures
        !<Artichoke as TryConvert<bool>>::tc_fails(post.heap@, v),
        forall|y: bool| <Artichoke as TryConvert<bool>>::tc_ok(post.heap@, v, y) <==> y == x,
{
}

/// Round trip for integers.
pub proof fn lemma_round_trip_int(pre: Artichoke, post: Artichoke, x: i64, v: RawValue)
    requires
        <Artichoke as Convert<i64>>::conv_rel(pre, post, x, v),
    ensures
        !<Artichoke as TryConvert<i64>>::tc_fails(post.heap@, v),
        forall|y: i64| <Artichoke as TryConvert<i64>>::tc_ok(post.heap@, v, y) <==> y == x,
{
}

/// Round trip for strings: converting a host string allocates a VM string
/// whose only host reading is the original content.
pub proof fn lemma_round_trip_str(pre: Artichoke, post: Artichoke, x: &str, v: RawValue)
    requires
        <Artichoke as Convert<&str>>::conv_rel(pre, post, x, v),
    ensures
        !<Artichoke as TryConvert<String>>::tc_fails(post.heap@, v),
        forall|y: String| <Artichoke as TryConvert<String>>::tc_ok(post.heap@, v, y) <==> y@ == x@,
{
    assert forall|y: String| <Artichoke as TryConvert<String>>::tc_ok(post.heap@, v, y) <==> y@
        == x@ by {
        if <Artichoke as TryConvert<String>>::tc_ok(post.heap@, v, y) {
            assert(heap_str(post.heap@, pre.heap@.len() as int) == Some(y@));
        }
    }
}

/// Round trip for owned strings.
pub proof fn lemma_round_trip_string(pre: Artichoke, post: Artichoke, x: String, v: RawValue)
    requires
        <Artichoke as Convert<String>>::conv_rel(pre, post, x, v),
    ensures
        !<Artichoke as TryConvert<String>>::tc_fails(post.heap@, v),
        forall|y: String| <Artichoke as TryConvert<String>>::tc_ok(post.heap@, v, y) <==> y@ == x@,
{
    assert forall|y: String| <Artichoke as TryConvert<String>>::tc_ok(post.heap@, v, y) <==> y@
        == x@ by {
        if <Artichoke as TryConvert<String>>::tc_ok(post.heap@, v, y) {
            assert(heap_str(post.heap@, pre.heap@.len() as int) == Some(y@));
        }
    }
}

/// Round trip for value handles: the identity conversion in both
/// directions.
pub proof fn lemma_round_trip_value(pre: Artichoke, post: Artichoke, x: Value, v: RawValue)
    requires
        <Artichoke as Convert<Value>>::conv_rel(pre, post, x, v),
    ensures
        !<Artichoke as TryConvert<Value>>::tc_fails(post.heap@, v),
        forall|y: Value| <Artichoke as TryConvert<Value>>::tc_ok(post.heap@, v, y) <==> y@ == x@,
{
}

} // verus!
