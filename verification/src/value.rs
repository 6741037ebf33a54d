//! Value handles and protected call dispatch.
//!
//! A [`Value`] is the host-side token for a VM-resident value.  Calls into
//! the VM go through [`Value::funcall`], the sole sanctioned entry point:
//! it takes a GC savepoint, packages the request into a [`Protect`]
//! record, performs the call, classifies the outcome (success, exception,
//! extraction failure, unreachable value) and restores the savepoint on
//! every path out.

use vstd::prelude::*;

use crate::convert::TryConvert;
use crate::digits::dec_int;
use crate::digits::i64_dec;
use crate::interp::{has_sym, state_eq, Artichoke};
use crate::types::{
    heap_ary, heap_exc, heap_extends, heap_str, ruby_type_exec, ruby_type_of, str_eq, val_dead,
    val_eq, val_wf, HeapObj, HeapSlot, RawValue, Ruby,
};
use crate::ArtichokeError;
use crate::MRB_FUNCALL_ARGC_MAX;

verus! {

/// Wrapper around a raw VM value.
///
/// The handle carries no ownership of VM memory — the VM owns it — only a
/// liveness claim backed by the arena protocol.  It is deliberately not
/// `Clone`: see [`Value::try_clone`].
#[derive(Debug)]
pub struct Value {
    raw: RawValue,
}

impl View for Value {
    type V = RawValue;

    closed spec fn view(&self) -> RawValue {
        self.raw
    }
}

/// The message of every wrong-arity failure.
pub open spec fn arity_msg() -> Seq<char> {
    "ArgumentError: wrong number of arguments"@
}

/// The message raised for a missing method.
pub open spec fn nomethod_msg(name: Seq<char>) -> Seq<char> {
    "NoMethodError: undefined method '"@ + name + "'"@
}

/// The message raised when string concatenation receives a non-string.
pub open spec fn plus_type_msg(arg: RawValue) -> Seq<char> {
    "TypeError: "@ + (if arg is Nil {
        "nil"@
    } else {
        ruby_type_of(arg).class_name_spec()
    }) + " cannot be converted to String"@
}

/// The message raised when a string argument was expected.
pub open spec fn type_conv_msg() -> Seq<char> {
    "TypeError: no implicit conversion into String"@
}

/// The message raised for the unsupported split form.
pub open spec fn split_sep_msg() -> Seq<char> {
    "NotImplementedError: String#split with a nonempty separator"@
}

/// Existing slots are untouched (object and liveness alike).
pub open spec fn heap_same_prefix(h0: Seq<HeapSlot>, h1: Seq<HeapSlot>) -> bool {
    forall|i: int| 0 <= i < h0.len() ==> h1[i] == #[trigger] h0[i]
}

/// Exactly one string slot with content `content` was appended.
pub open spec fn pushed_str_slot(h0: Seq<HeapSlot>, h1: Seq<HeapSlot>, content: Seq<char>) -> bool {
    &&& h1.len() == h0.len() + 1
    &&& heap_same_prefix(h0, h1)
    &&& heap_str(h1, h0.len() as int) == Some(content)
    &&& h1[h0.len() as int].alive
}

/// Exactly one exception slot with description `msg` was appended.
pub open spec fn pushed_exc_slot(h0: Seq<HeapSlot>, h1: Seq<HeapSlot>, msg: Seq<char>) -> bool {
    &&& h1.len() == h0.len() + 1
    &&& heap_same_prefix(h0, h1)
    &&& heap_exc(h1, h0.len() as int) == Some(msg)
    &&& h1[h0.len() as int].alive
}

/// The call raised: an exception carrying `msg` was allocated and is the
/// outcome.
pub open spec fn raised(
    h0: Seq<HeapSlot>,
    h1: Seq<HeapSlot>,
    msg: Seq<char>,
    out: Result<RawValue, RawValue>,
) -> bool {
    pushed_exc_slot(h0, h1, msg) && out == Err::<RawValue, RawValue>(
        RawValue::Exc(h0.len() as usize),
    )
}

/// The call returned a fresh string with content `content`.
pub open spec fn returned_str(
    h0: Seq<HeapSlot>,
    h1: Seq<HeapSlot>,
    content: Seq<char>,
    out: Result<RawValue, RawValue>,
) -> bool {
    pushed_str_slot(h0, h1, content) && out == Ok::<RawValue, RawValue>(
        RawValue::Str(h0.len() as usize),
    )
}

/// The call allocated one string per part followed by the array holding
/// them all.
pub open spec fn pushed_split_slots(
    h0: Seq<HeapSlot>,
    h1: Seq<HeapSlot>,
    parts: Seq<Seq<char>>,
) -> bool {
    &&& h1.len() == h0.len() + parts.len() + 1
    &&& heap_same_prefix(h0, h1)
    &&& forall|k: int|
        0 <= k < parts.len() ==> heap_str(h1, h0.len() + k) == Some(#[trigger] parts[k]) && h1[h0.len()
            + k].alive
    &&& heap_ary(h1, h0.len() as int + parts.len() as int) == Some(
        Seq::new(parts.len(), |k: int| RawValue::Str((h0.len() + k) as usize)),
    )
    &&& h1[h0.len() as int + parts.len() as int].alive
}

/// What `to_s` produces, when the receiver supports it.
pub open spec fn to_s_chars(h: Seq<HeapSlot>, v: RawValue) -> Option<Seq<char>> {
    match v {
        RawValue::Bool(b) => Some(if b { "true"@ } else { "false"@ }),
        RawValue::Nil => Some(Seq::<char>::empty()),
        RawValue::Fixnum(n) => Some(dec_int(n as int)),
        RawValue::Str(i) => heap_str(h, i as int),
        _ => None,
    }
}

/// What `inspect` produces, when the receiver supports it.
pub open spec fn inspect_chars(h: Seq<HeapSlot>, v: RawValue) -> Option<Seq<char>> {
    match v {
        RawValue::Bool(b) => Some(if b { "true"@ } else { "false"@ }),
        RawValue::Nil => Some("nil"@),
        RawValue::Fixnum(n) => Some(dec_int(n as int)),
        RawValue::Str(i) => match heap_str(h, i as int) {
            Some(c) => Some("\""@ + c + "\""@),
            None => None,
        },
        _ => None,
    }
}

/// Splitting with the empty separator: one single-character string per
/// character.
pub open spec fn split_chars(s: Seq<char>) -> Seq<Seq<char>> {
    Seq::new(s.len(), |i: int| seq![s[i]])
}

/// Which method names a receiver answers to.
pub open spec fn responds_spec(v: RawValue, name: Seq<char>) -> bool {
    if name == "to_s"@ || name == "inspect"@ {
        ||| ruby_type_of(v) is Bool
        ||| ruby_type_of(v) is Nil
        ||| ruby_type_of(v) is Fixnum
        ||| ruby_type_of(v) is Str
    } else if name == "freeze"@ || name == "respond_to?"@ || name == "nil?"@ || name == "=="@ {
        true
    } else if name == "+"@ || name == "split"@ {
        v is Str
    } else {
        false
    }
}

/// The VM's method dispatch: relates the heap before and after a call of
/// `name` on `recv` with arguments `args` to the raw outcome `out`
/// (`Err` carries the raised exception value).
pub open spec fn dispatch_rel(
    h0: Seq<HeapSlot>,
    h1: Seq<HeapSlot>,
    recv: RawValue,
    name: Seq<char>,
    args: Seq<RawValue>,
    out: Result<RawValue, RawValue>,
) -> bool {
    if name == "to_s"@ {
        if args.len() != 0 {
            raised(h0, h1, arity_msg(), out)
        } else {
            match to_s_chars(h0, recv) {
                Some(c) => returned_str(h0, h1, c, out),
                None => raised(h0, h1, nomethod_msg(name), out),
            }
        }
    } else if name == "inspect"@ {
        if args.len() != 0 {
            raised(h0, h1, arity_msg(), out)
        } else {
            match inspect_chars(h0, recv) {
                Some(c) => returned_str(h0, h1, c, out),
                None => raised(h0, h1, nomethod_msg(name), out),
            }
        }
    } else if name == "freeze"@ {
        if args.len() != 0 {
            raised(h0, h1, arity_msg(), out)
        } else {
            h1 == h0 && out == Ok::<RawValue, RawValue>(recv)
        }
    } else if name == "respond_to?"@ {
        if args.len() != 1 {
            raised(h0, h1, arity_msg(), out)
        } else {
            match args[0] {
                RawValue::Str(i) => match heap_str(h0, i as int) {
                    Some(m) => h1 == h0 && out == Ok::<RawValue, RawValue>(
                        RawValue::Bool(responds_spec(recv, m)),
                    ),
                    None => raised(h0, h1, type_conv_msg(), out),
                },
                _ => raised(h0, h1, type_conv_msg(), out),
            }
        }
    } else if name == "nil?"@ {
        if args.len() != 0 {
            raised(h0, h1, arity_msg(), out)
        } else {
            h1 == h0 && out == Ok::<RawValue, RawValue>(RawValue::Bool(recv is Nil))
        }
    } else if name == "=="@ {
        if args.len() != 1 {
            raised(h0, h1, arity_msg(), out)
        } else {
            h1 == h0 && out == Ok::<RawValue, RawValue>(RawValue::Bool(val_eq(h0, recv, args[0])))
        }
    } else if name == "+"@ {
        match recv {
            RawValue::Str(i) => {
                if args.len() != 1 {
                    raised(h0, h1, arity_msg(), out)
                } else {
                    match (heap_str(h0, i as int), args[0]) {
                        (Some(a), RawValue::Str(j)) => match heap_str(h0, j as int) {
                            Some(b) => returned_str(h0, h1, a + b, out),
                            None => raised(h0, h1, plus_type_msg(args[0]), out),
                        },
                        (Some(a), _) => raised(h0, h1, plus_type_msg(args[0]), out),
                        (None, _) => raised(h0, h1, nomethod_msg(name), out),
                    }
                }
            },
            _ => raised(h0, h1, nomethod_msg(name), out),
        }
    } else if name == "split"@ {
        match recv {
            RawValue::Str(i) => {
                if args.len() != 1 {
                    raised(h0, h1, arity_msg(), out)
                } else {
                    match (heap_str(h0, i as int), args[0]) {
                        (Some(a), RawValue::Str(j)) => match heap_str(h0, j as int) {
                            Some(sep) => if sep.len() == 0 {
                                pushed_split_slots(h0, h1, split_chars(a)) && out == Ok::<
                                    RawValue,
                                    RawValue,
                                >(RawValue::Ary((h0.len() + a.len()) as usize))
                            } else {
                                raised(h0, h1, split_sep_msg(), out)
                            },
                            None => raised(h0, h1, type_conv_msg(), out),
                        },
                        (Some(a), _) => raised(h0, h1, type_conv_msg(), out),
                        (None, _) => raised(h0, h1, nomethod_msg(name), out),
                    }
                }
            },
            _ => raised(h0, h1, nomethod_msg(name), out),
        }
    } else {
        raised(h0, h1, nomethod_msg(name), out)
    }
}

/// Allocate an exception and report it as the raised outcome.
fn raise(interp: &mut Artichoke, msg: String) -> (out: Result<RawValue, RawValue>)
    requires
        old(interp).wf(),
    ensures
        final(interp).wf(),
        raised(old(interp).heap@, final(interp).heap@, msg@, out),
        final(interp).arena@ == old(interp).arena@.push(old(interp).heap@.len() as usize),
        final(interp).symbols@ == old(interp).symbols@,
        final(interp).globals@ == old(interp).globals@,
        final(interp).exc == old(interp).exc,
        final(interp).most_recent == old(interp).most_recent,
        final(interp).num_set_regexp_capture_globals == old(
            interp,
        ).num_set_regexp_capture_globals,
        out matches Err(ev) && val_wf(ev, final(interp).heap@),
{
    let idx = interp.allocate(HeapObj::Exc(msg));
    Err(RawValue::Exc(idx))
}

/// Build the wrong-arity message.
fn arity_string() -> (r: String)
    ensures
        r@ == arity_msg(),
{
    String::from_str("ArgumentError: wrong number of arguments")
}

/// Build the missing-method message.
fn nomethod_string(name: &str) -> (r: String)
    ensures
        r@ == nomethod_msg(name@),
{
    let mut r = String::from_str("NoMethodError: undefined method '");
    r.append(name);
    r.append("'");
    proof {
        assert(r@ =~= nomethod_msg(name@));
    }
    r
}

/// Build the concatenation type-error message.
fn plus_type_string(arg: RawValue) -> (r: String)
    ensures
        r@ == plus_type_msg(arg),
{
    let mut r = String::from_str("TypeError: ");
    let is_nil = match arg {
        RawValue::Nil => true,
        _ => false,
    };
    if is_nil {
        r.append("nil");
    } else {
        r.append(ruby_type_exec(arg).class_name());
    }
    r.append(" cannot be converted to String");
    proof {
        assert(r@ =~= plus_type_msg(arg));
    }
    r
}

/// Compute `to_s` of a receiver, when it supports it.
fn to_s_string(interp: &Artichoke, recv: RawValue) -> (r: Option<String>)
    requires
        interp.wf(),
        val_wf(recv, interp.heap@),
    ensures
        match r {
            Some(s) => to_s_chars(interp.heap@, recv) == Some(s@),
            None => to_s_chars(interp.heap@, recv) is None,
        },
{
    match recv {
        RawValue::Bool(b) => Some(
            if b {
                String::from_str("true")
            } else {
                String::from_str("false")
            },
        ),
        RawValue::Nil => {
            let r = String::new();
            proof {
                assert(r@ =~= Seq::<char>::empty());
            }
            Some(r)
        },
        RawValue::Fixnum(n) => Some(i64_dec(n)),
        RawValue::Str(i) => match &interp.heap[i].obj {
            HeapObj::Str(s) => Some(s.clone()),
            _ => {
                proof {
                    assert(false);
                }
                None
            },
        },
        _ => None,
    }
}

/// Compute `inspect` of a receiver, when it supports it.
fn inspect_string(interp: &Artichoke, recv: RawValue) -> (r: Option<String>)
    requires
        interp.wf(),
        val_wf(recv, interp.heap@),
    ensures
        match r {
            Some(s) => inspect_chars(interp.heap@, recv) == Some(s@),
            None => inspect_chars(interp.heap@, recv) is None,
        },
{
    match recv {
        RawValue::Bool(b) => Some(
            if b {
                String::from_str("true")
            } else {
                String::from_str("false")
            },
        ),
        RawValue::Nil => Some(String::from_str("nil")),
        RawValue::Fixnum(n) => Some(i64_dec(n)),
        RawValue::Str(i) => match &interp.heap[i].obj {
            HeapObj::Str(s) => {
                let mut q = String::from_str("\"");
                q.append(s.as_str());
                q.append("\"");
                proof {
                    assert(q@ =~= "\""@ + s@ + "\""@);
                }
                Some(q)
            },
            _ => {
                proof {
                    assert(false);
                }
                None
            },
        },
        _ => None,
    }
}

/// Decide equality as the VM's `==` does.
fn val_eq_exec(interp: &Artichoke, a: RawValue, b: RawValue) -> (r: bool)
    requires
        interp.wf(),
        val_wf(a, interp.heap@),
        val_wf(b, interp.heap@),
    ensures
        r == val_eq(interp.heap@, a, b),
{
    match (a, b) {
        (RawValue::Str(i), RawValue::Str(j)) => match (&interp.heap[i].obj, &interp.heap[j].obj) {
            (HeapObj::Str(x), HeapObj::Str(y)) => str_eq(x.as_str(), y.as_str()),
            _ => {
                proof {
                    assert(false);
                }
                false
            },
        },
        _ => a == b,
    }
}

/// Decide whether a receiver answers to a method name.
fn responds_exec(recv: RawValue, name: &str) -> (r: bool)
    ensures
        r == responds_spec(recv, name@),
{
    if str_eq(name, "to_s") || str_eq(name, "inspect") {
        match recv {
            RawValue::Bool(_) => true,
            RawValue::Nil => true,
            RawValue::Fixnum(_) => true,
            RawValue::Str(_) => true,
            _ => false,
        }
    } else if str_eq(name, "freeze") || str_eq(name, "respond_to?") || str_eq(name, "nil?")
        || str_eq(name, "==") {
        true
    } else if str_eq(name, "+") || str_eq(name, "split") {
        match recv {
            RawValue::Str(_) => true,
            _ => false,
        }
    } else {
        false
    }
}

/// The VM call primitive: dispatch `sym` on `recv`.
///
/// Allocations made by the method (result strings, the raised exception)
/// are rooted in the arena; the caller's savepoint bounds their lifetime.
fn vm_dispatch(
    interp: &mut Artichoke,
    recv: RawValue,
    sym: usize,
    args: &Vec<RawValue>,
    block: Option<RawValue>,
) -> (out: Result<RawValue, RawValue>)
    requires
        old(interp).wf(),
        (sym as int) < old(interp).symbols@.len(),
        val_wf(recv, old(interp).heap@),
        forall|i: int| 0 <= i < args@.len() ==> val_wf(#[trigger] args@[i], old(interp).heap@),
    ensures
        final(interp).wf(),
        dispatch_rel(
            old(interp).heap@,
            final(interp).heap@,
            recv,
            old(interp).symbols@[sym as int]@,
            args@,
            out,
        ),
        heap_extends(old(interp).heap@, final(interp).heap@),
        final(interp).arena@.len() >= old(interp).arena@.len(),
        final(interp).arena@.subrange(0, old(interp).arena@.len() as int) == old(interp).arena@,
        final(interp).symbols@ == old(interp).symbols@,
        final(interp).globals@ == old(interp).globals@,
        final(interp).exc == old(interp).exc,
        final(interp).most_recent == old(interp).most_recent,
        final(interp).num_set_regexp_capture_globals == old(
            interp,
        ).num_set_regexp_capture_globals,
        (out matches Ok(v) ==> val_wf(v, final(interp).heap@)),
        (out matches Err(ev) ==> val_wf(ev, final(interp).heap@)),
{
    let name: String = self_symbol(interp, sym);
    let nm: &str = name.as_str();
    proof {
        assert(old(interp).arena@.subrange(0, old(interp).arena@.len() as int) =~= old(
            interp,
        ).arena@);
    }
    if str_eq(nm, "to_s") {
        if args.len() != 0 {
            return raise(interp, arity_string());
        }
        match to_s_string(interp, recv) {
            Some(s) => {
                let idx = interp.allocate(HeapObj::Str(s));
                Ok(RawValue::Str(idx))
            },
            None => raise(interp, nomethod_string(nm)),
        }
    } else if str_eq(nm, "inspect") {
        if args.len() != 0 {
            return raise(interp, arity_string());
        }
        match inspect_string(interp, recv) {
            Some(s) => {
                let idx = interp.allocate(HeapObj::Str(s));
                Ok(RawValue::Str(idx))
            },
            None => raise(interp, nomethod_string(nm)),
        }
    } else if str_eq(nm, "freeze") {
        if args.len() != 0 {
            return raise(interp, arity_string());
        }
        Ok(recv)
    } else if str_eq(nm, "respond_to?") {
        if args.len() != 1 {
            return raise(interp, arity_string());
        }
        match args[0] {
            RawValue::Str(i) => match &interp.heap[i].obj {
                HeapObj::Str(m) => {
                    let b = responds_exec(recv, m.clone().as_str());
                    Ok(RawValue::Bool(b))
                },
                _ => {
                    proof {
                        assert(false);
                    }
                    raise(interp, type_conv_string())
                },
            },
            _ => raise(interp, type_conv_string()),
        }
    } else if str_eq(nm, "nil?") {
        if args.len() != 0 {
            return raise(interp, arity_string());
        }
        let b = match recv {
            RawValue::Nil => true,
            _ => false,
        };
        Ok(RawValue::Bool(b))
    } else if str_eq(nm, "==") {
        if args.len() != 1 {
            return raise(interp, arity_string());
        }
        let b = val_eq_exec(interp, recv, args[0]);
        Ok(RawValue::Bool(b))
    } else if str_eq(nm, "+") {
        let i = match recv {
            RawValue::Str(i) => i,
            _ => {
                return raise(interp, nomethod_string(nm));
            },
        };
        if args.len() != 1 {
            return raise(interp, arity_string());
        }
        let j = match args[0] {
            RawValue::Str(j) => j,
            _ => {
                return raise(interp, plus_type_string(args[0]));
            },
        };
        let mut a: String = match &interp.heap[i].obj {
            HeapObj::Str(s) => s.clone(),
            _ => {
                proof {
                    assert(false);
                }
                String::new()
            },
        };
        let b: String = match &interp.heap[j].obj {
            HeapObj::Str(s) => s.clone(),
            _ => {
                proof {
                    assert(false);
                }
                String::new()
            },
        };
        a.append(b.as_str());
        let idx = interp.allocate(HeapObj::Str(a));
        Ok(RawValue::Str(idx))
    } else if str_eq(nm, "split") {
        let i = match recv {
            RawValue::Str(i) => i,
            _ => {
                return raise(interp, nomethod_string(nm));
            },
        };
        if args.len() != 1 {
            return raise(interp, arity_string());
        }
        let j = match args[0] {
            RawValue::Str(j) => j,
            _ => {
                return raise(interp, type_conv_string());
            },
        };
        let content: String = match &interp.heap[i].obj {
            HeapObj::Str(s) => s.clone(),
            _ => {
                proof {
                    assert(false);
                }
                String::new()
            },
        };
        let sep_empty: bool = match &interp.heap[j].obj {
            HeapObj::Str(s) => s.as_str().is_empty(),
            _ => {
                proof {
                    assert(false);
                }
                true
            },
        };
        if !sep_empty {
            return raise(interp, split_sep_string());
        }
        let ghost h0 = interp.heap@;
        let ghost a0 = interp.arena@;
        let ghost cs = content@;
        let n = content.as_str().unicode_len();
        let mut elems: Vec<RawValue> = Vec::new();
        let mut k: usize = 0;
        while k < n
            invariant
                interp.wf(),
                k <= n,
                n == cs.len(),
                content@ == cs,
                heap_same_prefix(h0, interp.heap@),
                interp.heap@.len() == h0.len() + k,
                forall|m: int|
                    0 <= m < k ==> heap_str(interp.heap@, h0.len() + m) == Some(seq![cs[m]])
                        && interp.heap@[h0.len() + m].alive,
                elems@.len() == k,
                forall|m: int|
                    0 <= m < k ==> ((#[trigger] elems@[m]) matches RawValue::Str(j) && j as int
                        == h0.len() + m),
                interp.arena@.len() >= a0.len(),
                interp.arena@.subrange(0, a0.len() as int) == a0,
                interp.symbols@ == old(interp).symbols@,
                interp.globals@ == old(interp).globals@,
                interp.exc == old(interp).exc,
                interp.most_recent == old(interp).most_recent,
                interp.num_set_regexp_capture_globals == old(
                    interp,
                ).num_set_regexp_capture_globals,
            decreases n - k,
        {
            let piece: String = content.as_str().substring_char(k, k + 1).to_owned();
            proof {
                assert(piece@ =~= seq![cs[k as int]]);
            }
            let ghost before = interp.heap@;
            let idx = interp.allocate(HeapObj::Str(piece));
            elems.push(RawValue::Str(idx));
            proof {
                assert(idx as int == h0.len() + k);
                assert(interp.arena@.subrange(0, a0.len() as int) =~= a0);
            }
            k += 1;
        }
        proof {
            assert forall|m: int| 0 <= m < elems@.len() implies (#[trigger] elems@[m])
                == RawValue::Str((h0.len() + m) as usize) && val_wf(elems@[m], interp.heap@) by {
                assert(heap_str(interp.heap@, h0.len() + m) == Some(seq![cs[m]]));
            }
            assert(elems@ =~= Seq::new(cs.len(), |m: int| RawValue::Str((h0.len() + m) as usize)));
        }
        let idx_a = interp.allocate(HeapObj::Ary(elems));
        proof {
            assert(heap_ary(interp.heap@, h0.len() as int + cs.len() as int) matches Some(e) && e =~= Seq::new(
                split_chars(cs).len(),
                |m: int| RawValue::Str((h0.len() + m) as usize),
            ));
            assert(pushed_split_slots(h0, interp.heap@, split_chars(cs)));
            assert(interp.arena@.subrange(0, a0.len() as int) =~= a0);
        }
        Ok(RawValue::Ary(idx_a))
    } else {
        raise(interp, nomethod_string(nm))
    }
}

/// Build the string-argument type-error message.
fn type_conv_string() -> (r: String)
    ensures
        r@ == type_conv_msg(),
{
    String::from_str("TypeError: no implicit conversion into String")
}

/// Build the unsupported-split message.
fn split_sep_string() -> (r: String)
    ensures
        r@ == split_sep_msg(),
{
    String::from_str("NotImplementedError: String#split with a nonempty separator")
}

/// Read a symbol's name.
fn self_symbol(interp: &Artichoke, sym: usize) -> (r: String)
    requires
        (sym as int) < interp.symbols@.len(),
    ensures
        r@ == interp.symbols@[sym as int]@,
{
    interp.symbols[sym].clone()
}

/// The protected-call request record: target, method symbol, argument
/// list and optional block.
///
/// The record is a plain, destructor-free bundle that crosses the call
/// boundary whole: [`Protect::run`] takes it by value, extracts its
/// fields and releases it before performing the actual VM call, because
/// the VM's abort-current-call signalling may keep that call from ever
/// returning through this frame.
pub struct Protect {
    pub slf: RawValue,
    pub func_sym: usize,
    pub args: Vec<RawValue>,
    pub block: Option<RawValue>,
}

impl Protect {
    pub fn new(slf: RawValue, func_sym: usize, args: Vec<RawValue>) -> (r: Protect)
        ensures
            r.slf == slf,
            r.func_sym == func_sym,
            r.args@ == args@,
            r.block is None,
    {
        Protect { slf, func_sym, args, block: None }
    }

    pub fn with_block(self, block: RawValue) -> (r: Protect)
        ensures
            r.slf == self.slf,
            r.func_sym == self.func_sym,
            r.args@ == self.args@,
            r.block == Some(block),
    {
        Protect { slf: self.slf, func_sym: self.func_sym, args: self.args, block: Some(block) }
    }

    /// The trampoline: consume the request record, pull its fields out,
    /// and only then perform the actual VM call.
    pub fn run(interp: &mut Artichoke, protect: Protect) -> (out: Result<RawValue, RawValue>)
        requires
            old(interp).wf(),
            (protect.func_sym as int) < old(interp).symbols@.len(),
            val_wf(protect.slf, old(interp).heap@),
            forall|i: int|
                0 <= i < protect.args@.len() ==> val_wf(
                    #[trigger] protect.args@[i],
                    old(interp).heap@,
                ),
    ensures
            final(interp).wf(),
            dispatch_rel(
                old(interp).heap@,
                final(interp).heap@,
                protect.slf,
                old(interp).symbols@[protect.func_sym as int]@,
                protect.args@,
                out,
            ),
            heap_extends(old(interp).heap@, final(interp).heap@),
            final(interp).arena@.len() >= old(interp).arena@.len(),
            final(interp).arena@.subrange(0, old(interp).arena@.len() as int) == old(
                interp,
            ).arena@,
            final(interp).symbols@ == old(interp).symbols@,
            final(interp).globals@ == old(interp).globals@,
            final(interp).exc == old(interp).exc,
            final(interp).most_recent == old(interp).most_recent,
            final(interp).num_set_regexp_capture_globals == old(
                interp,
            ).num_set_regexp_capture_globals,
            (out matches Ok(v) ==> val_wf(v, final(interp).heap@)),
            (out matches Err(ev) ==> val_wf(ev, final(interp).heap@)),
    {
        let Protect { slf, func_sym, args, block } = protect;
        vm_dispatch(interp, slf, func_sym, &args, block)
    }
}

/// The raw values of a slice of handles.
pub open spec fn raws_of(args: Seq<Value>) -> Seq<RawValue> {
    Seq::new(args.len(), |i: int| args[i]@)
}

/// Symbol-table effect of a call: at most the called name was interned.
pub open spec fn interned_only(
    pre: Artichoke,
    post_syms: Seq<String>,
    post_globals: Seq<RawValue>,
    name: Seq<char>,
) -> bool {
    if has_sym(pre.symbols@, name) {
        post_syms == pre.symbols@ && post_globals == pre.globals@
    } else {
        &&& post_syms.len() == pre.symbols@.len() + 1
        &&& forall|i: int| 0 <= i < pre.symbols@.len() ==> post_syms[i] == #[trigger] pre.symbols@[i]
        &&& post_syms[pre.symbols@.len() as int]@ == name
        &&& post_globals == pre.globals@.push(RawValue::Nil)
    }
}

pub open spec fn funcall_case<T>(
    pre: Artichoke,
    post: Artichoke,
    recv: RawValue,
    name: Seq<char>,
    args: Seq<RawValue>,
    r: Result<T, ArtichokeError>,
    out: Result<RawValue, RawValue>,
) -> bool where Artichoke: TryConvert<T> {
    &&& dispatch_rel(pre.heap@, post.heap@, recv, name, args, out)
    &&& post.arena@ == pre.arena@
    &&& interned_only(pre, post.symbols@, post.globals@, name)
    &&& post.num_set_regexp_capture_globals == pre.num_set_regexp_capture_globals
    &&& match out {
        Ok(v) => {
            &&& post.exc is None
            &&& post.most_recent == Some(v)
            &&& if ruby_type_of(v) is Unreachable {
                r == Err::<T, ArtichokeError>(ArtichokeError::UnreachableValue)
            } else {
                match r {
                    Ok(t) => <Artichoke as TryConvert<T>>::tc_ok(post.heap@, v, t)
                        && !<Artichoke as TryConvert<T>>::tc_fails(post.heap@, v),
                    Err(e) => <Artichoke as TryConvert<T>>::tc_fails(post.heap@, v) && e
                        == ArtichokeError::ConvertToRust(ruby_type_of(v)),
                }
            }
        },
        Err(ev) => {
            &&& post.exc == Some(ev)
            &&& post.most_recent == pre.most_recent
            &&& match ev {
                RawValue::Exc(i) => match heap_exc(post.heap@, i as int) {
                    Some(msg) => r matches Err(e) && e matches ArtichokeError::Exec(m) && m@
                        == msg,
                    None => r == Err::<T, ArtichokeError>(
                        ArtichokeError::UnableToExtract(Ruby::Exception),
                    ),
                },
                _ => r == Err::<T, ArtichokeError>(
                    ArtichokeError::UnableToExtract(ruby_type_of(ev)),
                ),
            }
        },
    }
}

/// Full effect of a protected call of `name` on `recv`: the dispatch
/// outcome exists and is classified exactly once, and the savepoint taken
/// on entry is restored on every path (the arena is exactly as before).
pub open spec fn funcall_rel<T>(
    pre: Artichoke,
    post: Artichoke,
    recv: RawValue,
    name: Seq<char>,
    args: Seq<RawValue>,
    r: Result<T, ArtichokeError>,
) -> bool where Artichoke: TryConvert<T> {
    exists|out: Result<RawValue, RawValue>| #[trigger] funcall_case::<T>(
        pre,
        post,
        recv,
        name,
        args,
        r,
        out,
    )
}

/// The last error recorded by the VM, read from the error slot.
pub enum LastError {
    /// The previous call raised; the description was extracted.
    Exception(String),
    /// Something sat in the error slot that could not be read as an
    /// exception: the error channel itself is not trustworthy.
    Unreadable(Ruby),
    /// The previous call completed without raising.
    NoError,
}

/// Read and classify the interpreter's last-error slot.
pub fn last_error(interp: &Artichoke) -> (r: LastError)
    requires
        interp.wf(),
    ensures
        match interp.exc {
            Option::None => r is NoError,
            Option::Some(ev) => match ev {
                RawValue::Exc(i) => match heap_exc(interp.heap@, i as int) {
                    Some(msg) => r matches LastError::Exception(m) && m@ == msg,
                    None => r matches LastError::Unreadable(t) && t == Ruby::Exception,
                },
                _ => r matches LastError::Unreadable(t) && t == ruby_type_of(ev),
            },
        },
{
    match interp.exc {
        None => LastError::NoError,
        Some(ev) => match ev {
            RawValue::Exc(i) => match &interp.heap[i].obj {
                HeapObj::Exc(m) => LastError::Exception(m.clone()),
                _ => {
                    proof {
                        assert(false);
                    }
                    LastError::Unreadable(Ruby::Exception)
                },
            },
            _ => LastError::Unreadable(ruby_type_exec(ev)),
        },
    }
}

/// Arena effect of protecting a value: heap-backed values are rooted,
/// immediates need no rooting.
pub open spec fn protect_push(a0: Seq<usize>, a1: Seq<usize>, v: RawValue) -> bool {
    match v {
        RawValue::Ary(i) => a1 == a0.push(i),
        RawValue::Exc(i) => a1 == a0.push(i),
        RawValue::Data(i) => a1 == a0.push(i),
        RawValue::Str(i) => a1 == a0.push(i),
        _ => a1 == a0,
    }
}

/// Immediate values (booleans, nil, integers, symbols) are never dead,
/// independent of savepoints or collection.
pub proof fn lemma_immediate_never_dead(v: RawValue, h: Seq<HeapSlot>)
    requires
        !(v is Ary),
        !(v is Exc),
        !(v is Data),
        !(v is Str),
    ensures
        !val_dead(v, h),
{
}

/// Every description a raised dispatch produces is non-empty.
pub proof fn lemma_exception_description_nonempty(
    h0: Seq<HeapSlot>,
    h1: Seq<HeapSlot>,
    recv: RawValue,
    name: Seq<char>,
    args: Seq<RawValue>,
    out: Result<RawValue, RawValue>,
)
    requires
        dispatch_rel(h0, h1, recv, name, args, out),
        out is Err,
        h0.len() <= usize::MAX,
    ensures
        out matches Err(ev) && ev matches RawValue::Exc(j) && (heap_exc(h1, j as int) matches Some(
            msg,
        ) && msg.len() > 0),
{
    reveal_strlit("ArgumentError: wrong number of arguments");
    reveal_strlit("NoMethodError: undefined method '");
    reveal_strlit("TypeError: ");
    reveal_strlit("TypeError: no implicit conversion into String");
    reveal_strlit("NotImplementedError: String#split with a nonempty separator");
}

impl Value {
    /// Construct a new handle around a raw VM value.
    pub fn new(value: RawValue) -> (r: Value)
        ensures
            r@ == value,
    {
        Value { raw: value }
    }

    /// The raw VM value that this handle wraps.
    pub fn inner(&self) -> (r: RawValue)
        ensures
            r == self@,
    {
        self.raw
    }

    /// This value's Rust-mapped type tag.  Pure, no side effects.
    pub fn ruby_type(&self) -> (r: Ruby)
        ensures
            r == ruby_type_of(self@),
    {
        ruby_type_exec(self.raw)
    }

    /// Whether this value carries the VM-internal sentinel tag.  Such
    /// values must never be passed back into VM calls.
    pub fn is_unreachable(&self) -> (r: bool)
        ensures
            r == (ruby_type_of(self@) is Unreachable),
    {
        match self.raw {
            RawValue::Unreachable => true,
            _ => false,
        }
    }

    /// Whether this value is nil.
    pub fn is_nil(&self) -> (r: bool)
        ensures
            r == (self@ is Nil),
    {
        match self.raw {
            RawValue::Nil => true,
            _ => false,
        }
    }

    /// Root this value in the GC arena until the next savepoint restore,
    /// preventing collection across subsequent calls that may allocate.
    pub fn protect(&self, interp: &mut Artichoke)
        requires
            old(interp).wf(),
            val_wf(self@, old(interp).heap@),
        ensures
            final(interp).wf(),
            protect_push(old(interp).arena@, final(interp).arena@, self@),
            final(interp).heap@ == old(interp).heap@,
            final(interp).symbols@ == old(interp).symbols@,
            final(interp).globals@ == old(interp).globals@,
            final(interp).exc == old(interp).exc,
            final(interp).most_recent == old(interp).most_recent,
            final(interp).num_set_regexp_capture_globals == old(
                interp,
            ).num_set_regexp_capture_globals,
    {
        let target: Option<usize> = match self.raw {
            RawValue::Ary(i) => Some(i),
            RawValue::Exc(i) => Some(i),
            RawValue::Data(i) => Some(i),
            RawValue::Str(i) => Some(i),
            _ => None,
        };
        if let Some(i) = target {
            interp.arena.push(i);
        }
    }

    /// Whether this value is unreachable by any GC root.  Immediate
    /// values are always reported alive.
    pub fn is_dead(&self, interp: &Artichoke) -> (r: bool)
        requires
            val_wf(self@, interp.heap@),
        ensures
            r == val_dead(self@, interp.heap@),
    {
        match self.raw {
            RawValue::Ary(i) => !interp.heap[i].alive,
            RawValue::Exc(i) => !interp.heap[i].alive,
            RawValue::Data(i) => !interp.heap[i].alive,
            RawValue::Str(i) => !interp.heap[i].alive,
            _ => false,
        }
    }

    /// Duplicate this handle.  Foreign-data backed values have
    /// single-owner semantics in the VM's object model: duplicating such
    /// a handle is a fatal usage error and is refused, rather than
    /// producing a second usable handle to the same resource.
    pub fn try_clone(&self) -> (r: Option<Value>)
        ensures
            match r {
                Some(v) => v@ == self@ && !(ruby_type_of(self@) is Data),
                None => ruby_type_of(self@) is Data,
            },
    {
        if self.ruby_type() == Ruby::Data {
            None
        } else {
            Some(Value::new(self.raw))
        }
    }
}

/// State effect shared by the convenience wrappers built on `funcall`:
/// the heap only gains slots, the arena is exactly restored, the symbol
/// and global tables only gain the interned method name, and the
/// capture-global high-water mark is untouched.
pub open spec fn call_frame(pre: Artichoke, post: Artichoke) -> bool {
    &&& heap_same_prefix(pre.heap@, post.heap@)
    &&& post.heap@.len() >= pre.heap@.len()
    &&& post.arena@ == pre.arena@
    &&& post.symbols@.len() >= pre.symbols@.len()
    &&& (forall|i: int| 0 <= i < pre.symbols@.len() ==> post.symbols@[i] == #[trigger] pre.symbols@[i])
    &&& post.globals@.len() >= pre.globals@.len()
    &&& (forall|i: int| 0 <= i < pre.globals@.len() ==> post.globals@[i] == #[trigger] pre.globals@[i])
    &&& post.num_set_regexp_capture_globals == pre.num_set_regexp_capture_globals
}

/// What `to_s` reports: the receiver's string form, or the fallback for
/// receivers whose call fails.
pub open spec fn to_s_display(h: Seq<HeapSlot>, v: RawValue) -> Seq<char> {
    match to_s_chars(h, v) {
        Some(c) => c,
        None => "<unknown>"@,
    }
}

/// What `inspect` reports.
pub open spec fn inspect_display(h: Seq<HeapSlot>, v: RawValue) -> Seq<char> {
    match inspect_chars(h, v) {
        Some(c) => c,
        None => "<unknown>"@,
    }
}

impl Value {
    /// Invoke `func` on this value inside the VM, with a protected call.
    ///
    /// Checks the argument bound before any VM work, takes a savepoint,
    /// packages the request into a [`Protect`] record, runs the call,
    /// classifies the outcome exactly once and restores the savepoint on
    /// every path out.  On success the result is converted to `T` through
    /// the conversion contract.
    pub fn funcall<T>(
        &self,
        interp: &mut Artichoke,
        func: &str,
        args: &[Value],
        block: Option<&Value>,
    ) -> (r: Result<T, ArtichokeError>) where Artichoke: TryConvert<T>
        requires
            old(interp).wf(),
            crate::convert::tst_identity::<T>(),
            val_wf(self@, old(interp).heap@),
            forall|i: int| 0 <= i < args@.len() ==> val_wf((#[trigger] args@[i])@, old(interp).heap@),
            (block matches Some(b) ==> val_wf(b@, old(interp).heap@)),
        ensures
            final(interp).wf(),
            args@.len() > MRB_FUNCALL_ARGC_MAX ==> (r == Err::<T, ArtichokeError>(
                ArtichokeError::TooManyArgs {
                    given: args@.len() as usize,
                    max: MRB_FUNCALL_ARGC_MAX,
                },
            ) && state_eq(*old(interp), *final(interp))),
            args@.len() <= MRB_FUNCALL_ARGC_MAX ==> funcall_rel(
                *old(interp),
                *final(interp),
                self@,
                func@,
                raws_of(args@),
                r,
            ),
    {
        let savepoint = interp.create_arena_savepoint();
        let n = args.len();
        let mut raws: Vec<RawValue> = Vec::new();
        let mut i: usize = 0;
        while i < n
            invariant
                i <= n,
                n == args@.len(),
                raws@.len() == i,
                forall|m: int| 0 <= m < i ==> raws@[m] == (#[trigger] args@[m])@,
            decreases n - i,
        {
            raws.push(args[i].inner());
            i += 1;
        }
        proof {
            assert(raws@ =~= raws_of(args@));
        }
        if raws.len() > MRB_FUNCALL_ARGC_MAX {
            return Err(ArtichokeError::TooManyArgs { given: raws.len(), max: MRB_FUNCALL_ARGC_MAX });
        }
        let func_sym = interp.sym_intern(func);
        let mut protect = Protect::new(self.inner(), func_sym, raws);
        if let Some(b) = block {
            protect = protect.with_block(b.inner());
        }
        let out = Protect::run(interp, protect);
        match out {
            Ok(v) => {
                interp.exc = None;
                interp.most_recent = Some(v);
            },
            Err(ev) => {
                interp.exc = Some(ev);
            },
        }
        proof {
            assert(interp.wf());
        }
        interp.arena_restore(savepoint);
        proof {
            assert(interp.arena@ =~= old(interp).arena@);
        }
        let r = match last_error(interp) {
            LastError::Exception(msg) => Err(ArtichokeError::Exec(msg)),
            LastError::Unreadable(tag) => Err(ArtichokeError::UnableToExtract(tag)),
            LastError::NoError => {
                let v = match out {
                    Ok(v) => v,
                    Err(_) => {
                        proof {
                            assert(false);
                        }
                        RawValue::Nil
                    },
                };
                let value = Value::new(v);
                if value.is_unreachable() {
                    Err(ArtichokeError::UnreachableValue)
                } else {
                    interp.try_convert(value)
                }
            },
        };
        proof {
            if args@.len() <= MRB_FUNCALL_ARGC_MAX {
                assert(funcall_case::<T>(
                    *old(interp),
                    *interp,
                    self@,
                    func@,
                    raws_of(args@),
                    r,
                    out,
                ));
            }
        }
        r
    }

    /// The receiver's string form, as `to_s` reports it; never fails.
    pub fn to_s(&self, interp: &mut Artichoke) -> (r: String)
        requires
            old(interp).wf(),
            val_wf(self@, old(interp).heap@),
        ensures
            final(interp).wf(),
            call_frame(*old(interp), *final(interp)),
            r@ == to_s_display(old(interp).heap@, self@),
    {
        proof {
            assert forall|a: Artichoke| #[trigger] <Artichoke as TryConvert<String>>::tst(&a)
                == a by {}
            assert(crate::convert::tst_identity::<String>());
        }
        let argv: Vec<Value> = Vec::new();
        let res = self.funcall::<String>(interp, "to_s", argv.as_slice(), None);
        proof {
            let out = choose|out: Result<RawValue, RawValue>| funcall_case::<String>(
                *old(interp),
                *interp,
                self@,
                "to_s"@,
                raws_of(argv@),
                res,
                out,
            );
            assert(funcall_case::<String>(
                *old(interp),
                *interp,
                self@,
                "to_s"@,
                raws_of(argv@),
                res,
                out,
            ));
            assert(vstd::std_specs::vec::spec_vec_len(&old(interp).heap) == old(
                interp,
            ).heap@.len());
        }
        match res {
            Ok(s) => s,
            Err(_) => String::from_str("<unknown>"),
        }
    }

    /// The receiver's debug form, as `inspect` reports it; never fails.
    pub fn inspect(&self, interp: &mut Artichoke) -> (r: String)
        requires
            old(interp).wf(),
            val_wf(self@, old(interp).heap@),
        ensures
            final(interp).wf(),
            call_frame(*old(interp), *final(interp)),
            r@ == inspect_display(old(interp).heap@, self@),
    {
        proof {
            reveal_strlit("to_s");
            reveal_strlit("inspect");
            assert("to_s"@.len() == 4);
            assert("inspect"@.len() == 7);
            assert forall|a: Artichoke| #[trigger] <Artichoke as TryConvert<String>>::tst(&a)
                == a by {}
            assert(crate::convert::tst_identity::<String>());
        }
        let argv: Vec<Value> = Vec::new();
        let res = self.funcall::<String>(interp, "inspect", argv.as_slice(), None);
        proof {
            let out = choose|out: Result<RawValue, RawValue>| funcall_case::<String>(
                *old(interp),
                *interp,
                self@,
                "inspect"@,
                raws_of(argv@),
                res,
                out,
            );
            assert(funcall_case::<String>(
                *old(interp),
                *interp,
                self@,
                "inspect"@,
                raws_of(argv@),
                res,
                out,
            ));
            assert(vstd::std_specs::vec::spec_vec_len(&old(interp).heap) == old(
                interp,
            ).heap@.len());
        }
        match res {
            Ok(s) => s,
            Err(_) => String::from_str("<unknown>"),
        }
    }

    /// Generate a debug representation of self: the class name followed
    /// by the inspect form in angle brackets.  This function can never
    /// fail.
    pub fn to_s_debug(&self, interp: &mut Artichoke) -> (r: String)
        requires
            old(interp).wf(),
            val_wf(self@, old(interp).heap@),
        ensures
            final(interp).wf(),
            call_frame(*old(interp), *final(interp)),
            r@ == ruby_type_of(self@).class_name_spec() + "<"@ + inspect_display(
                old(interp).heap@,
                self@,
            ) + ">"@,
    {
        let mut r = String::from_str(self.ruby_type().class_name());
        r.append("<");
        let body = self.inspect(interp);
        r.append(body.as_str());
        r.append(">");
        proof {
            assert(r@ =~= ruby_type_of(self@).class_name_spec() + "<"@ + inspect_display(
                old(interp).heap@,
                self@,
            ) + ">"@);
        }
        r
    }

    /// Freeze the receiver inside the VM and root the frozen result so it
    /// survives the next savepoint restore.
    pub fn freeze(&self, interp: &mut Artichoke) -> (r: Result<(), ArtichokeError>)
        requires
            old(interp).wf(),
            val_wf(self@, old(interp).heap@),
        ensures
            final(interp).wf(),
            !(ruby_type_of(self@) is Unreachable) ==> (r is Ok && protect_push(
                old(interp).arena@,
                final(interp).arena@,
                self@,
            )),
            ruby_type_of(self@) is Unreachable ==> (r == Err::<(), ArtichokeError>(
                ArtichokeError::UnreachableValue,
            ) && final(interp).arena@ == old(interp).arena@),
    {
        proof {
            reveal_strlit("to_s");
            reveal_strlit("inspect");
            reveal_strlit("freeze");
            assert forall|a: Artichoke| #[trigger] <Artichoke as TryConvert<Value>>::tst(&a)
                == a by {}
            assert(crate::convert::tst_identity::<Value>());
        }
        let argv: Vec<Value> = Vec::new();
        let res = self.funcall::<Value>(interp, "freeze", argv.as_slice(), None);
        proof {
            let out = choose|out: Result<RawValue, RawValue>| funcall_case::<Value>(
                *old(interp),
                *interp,
                self@,
                "freeze"@,
                raws_of(argv@),
                res,
                out,
            );
            assert(funcall_case::<Value>(
                *old(interp),
                *interp,
                self@,
                "freeze"@,
                raws_of(argv@),
                res,
                out,
            ));
        }
        let frozen = match res {
            Ok(v) => v,
            Err(e) => {
                proof {
                    assert(ruby_type_of(self@) is Unreachable);
                }
                return Err(e);
            },
        };
        frozen.protect(interp);
        Ok(())
    }

    /// Whether the receiver answers to `method`.
    pub fn respond_to(&self, interp: &mut Artichoke, method: &str) -> (r: Result<
        bool,
        ArtichokeError,
    >)
        requires
            old(interp).wf(),
            val_wf(self@, old(interp).heap@),
        ensures
            final(interp).wf(),
            r == Ok::<bool, ArtichokeError>(responds_spec(self@, method@)),
    {
        proof {
            reveal_strlit("to_s");
            reveal_strlit("inspect");
            reveal_strlit("freeze");
            reveal_strlit("respond_to?");
            assert("to_s"@.len() == 4);
            assert("inspect"@.len() == 7);
            assert("freeze"@.len() == 6);
            assert("respond_to?"@.len() == 11);
            assert forall|a: Artichoke| #[trigger] <Artichoke as TryConvert<bool>>::tst(&a)
                == a by {}
            assert(crate::convert::tst_identity::<bool>());
        }
        let m = crate::convert::Convert::<&str>::convert(interp, method);
        let ghost mid = *interp;
        let mut argv: Vec<Value> = Vec::new();
        argv.push(m);
        let res = self.funcall::<bool>(interp, "respond_to?", argv.as_slice(), None);
        proof {
            let out = choose|out: Result<RawValue, RawValue>| funcall_case::<bool>(
                mid,
                *interp,
                self@,
                "respond_to?"@,
                raws_of(argv@),
                res,
                out,
            );
            assert(funcall_case::<bool>(
                mid,
                *interp,
                self@,
                "respond_to?"@,
                raws_of(argv@),
                res,
                out,
            ));
        }
        res
    }

    /// Convert this value to the host type `T`, consuming the handle.
    pub fn try_into<T>(self, interp: &Artichoke) -> (r: Result<T, ArtichokeError>) where
        Artichoke: TryConvert<T>,
        requires
            interp.wf(),
            crate::convert::tst_identity::<T>(),
            val_wf(self@, interp.heap@),
        ensures
            match r {
                Ok(t) => <Artichoke as TryConvert<T>>::tc_ok(interp.heap@, self@, t)
                    && !<Artichoke as TryConvert<T>>::tc_fails(interp.heap@, self@),
                Err(e) => <Artichoke as TryConvert<T>>::tc_fails(interp.heap@, self@) && e
                    == ArtichokeError::ConvertToRust(ruby_type_of(self@)),
            },
    {
        interp.try_convert(self)
    }

    /// Convert a copy of this value to the host type `T`.  The receiver
    /// must not be foreign-data backed: duplicating such a handle is a
    /// fatal usage error.
    pub fn itself<T>(&self, interp: &Artichoke) -> (r: Result<T, ArtichokeError>) where
        Artichoke: TryConvert<T>,
        requires
            interp.wf(),
            crate::convert::tst_identity::<T>(),
            val_wf(self@, interp.heap@),
            !(ruby_type_of(self@) is Data),
        ensures
            match r {
                Ok(t) => <Artichoke as TryConvert<T>>::tc_ok(interp.heap@, self@, t)
                    && !<Artichoke as TryConvert<T>>::tc_fails(interp.heap@, self@),
                Err(e) => <Artichoke as TryConvert<T>>::tc_fails(interp.heap@, self@) && e
                    == ArtichokeError::ConvertToRust(ruby_type_of(self@)),
            },
    {
        match self.try_clone() {
            Some(v) => v.try_into(interp),
            None => {
                proof {
                    assert(false);
                }
                Err(ArtichokeError::UnreachableValue)
            },
        }
    }
}

} // verus!
