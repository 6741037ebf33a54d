//! The interpreter: process-wide VM state with explicit lifecycle.
//!
//! Holds the VM heap, the GC arena (root stack), the symbol table, the
//! global-variable table, the last-error slot, the "most recent call
//! result" root and the capture-global high-water mark.  All access goes
//! through this handle; there are no ambient globals.

use vstd::prelude::*;

use crate::types::{
    global_refs, heap_extends, in_arena, obj_wf, val_refs, val_wf, HeapObj, HeapSlot, RawValue,
};

verus! {

/// Shared process-wide VM state.
pub struct Artichoke {
    /// The VM heap.  Slots are never reused; collection clears `alive`.
    pub heap: Vec<HeapSlot>,
    /// The GC arena: a stack of rooted heap indices.  Every allocation is
    /// rooted here until the enclosing savepoint is restored.
    pub arena: Vec<usize>,
    /// The symbol table: interned names, identified by index.
    pub symbols: Vec<String>,
    /// Global variables, indexed by the symbol of their name; an entry is
    /// `Nil` until set.
    pub globals: Vec<RawValue>,
    /// The last-error slot: the exception raised by the most recent VM
    /// call, if any.
    pub exc: Option<RawValue>,
    /// The VM's own root for the result of the most recent top-level call.
    pub most_recent: Option<RawValue>,
    /// How many numbered capture globals the previous match set.
    pub num_set_regexp_capture_globals: usize,
}

/// Whether the symbol `name` is interned.
pub open spec fn has_sym(syms: Seq<String>, name: Seq<char>) -> bool {
    exists|i: int| 0 <= i < syms.len() && (#[trigger] syms[i])@ == name
}

/// The symbol of an interned name.  Unique whenever the table is
/// duplicate-free, as [`Artichoke::wf`] guarantees.
pub open spec fn sym_at(syms: Seq<String>, name: Seq<char>) -> int {
    choose|i: int| 0 <= i < syms.len() && (#[trigger] syms[i])@ == name
}

/// Value of the global variable `name`: `Nil` when the name was never
/// interned or never set.
pub open spec fn gv_val(syms: Seq<String>, globals: Seq<RawValue>, name: Seq<char>) -> RawValue {
    if has_sym(syms, name) {
        globals[sym_at(syms, name)]
    } else {
        RawValue::Nil
    }
}

/// Any index holding `name` is the index `sym_at` picks.
pub proof fn lemma_sym_at_unique(syms: Seq<String>, name: Seq<char>, i: int)
    requires
        forall|a: int, b: int|
            0 <= a < b < syms.len() ==> (#[trigger] syms[a])@ != (#[trigger] syms[b])@,
        0 <= i < syms.len(),
        syms[i]@ == name,
    ensures
        has_sym(syms, name),
        sym_at(syms, name) == i,
{
    assert(has_sym(syms, name));
    let j = sym_at(syms, name);
    if i < j {
        assert(syms[i]@ != syms[j]@);
    } else if j < i {
        assert(syms[j]@ != syms[i]@);
    }
}

/// Effect of interning `name`: the state is unchanged except that an
/// absent name is appended to the symbol table, with a fresh `Nil` global.
pub open spec fn intern_rel(pre: Artichoke, post: Artichoke, name: Seq<char>, r: usize) -> bool {
    &&& post.heap@ == pre.heap@
    &&& post.arena@ == pre.arena@
    &&& post.exc == pre.exc
    &&& post.most_recent == pre.most_recent
    &&& post.num_set_regexp_capture_globals == pre.num_set_regexp_capture_globals
    &&& (r as int) < post.symbols@.len()
    &&& post.symbols@[r as int]@ == name
    &&& r as int == sym_at(post.symbols@, name)
    &&& has_sym(post.symbols@, name)
    &&& if has_sym(pre.symbols@, name) {
        &&& post.symbols@ == pre.symbols@
        &&& post.globals@ == pre.globals@
        &&& r as int == sym_at(pre.symbols@, name)
    } else {
        &&& post.symbols@.len() == pre.symbols@.len() + 1
        &&& forall|i: int|
            0 <= i < pre.symbols@.len() ==> post.symbols@[i] == #[trigger] pre.symbols@[i]
        &&& post.globals@ == pre.globals@.push(RawValue::Nil)
        &&& r as int == pre.symbols@.len()
    }
}

/// Observational equality of two interpreter states.
pub open spec fn state_eq(a: Artichoke, b: Artichoke) -> bool {
    &&& a.heap@ == b.heap@
    &&& a.arena@ == b.arena@
    &&& a.symbols@ == b.symbols@
    &&& a.globals@ == b.globals@
    &&& a.exc == b.exc
    &&& a.most_recent == b.most_recent
    &&& a.num_set_regexp_capture_globals == b.num_set_regexp_capture_globals
}

/// Whether heap slot `i` is reachable from a GC root: the arena, a global
/// variable, the most-recent-result root, or the last-error slot.
pub open spec fn rooted(s: Artichoke, i: int) -> bool {
    ||| in_arena(s.arena@, i)
    ||| global_refs(s.globals@, i)
    ||| (s.most_recent matches Some(v) && val_refs(v, i))
    ||| (s.exc matches Some(v) && val_refs(v, i))
}

/// Liveness of heap slot `i` after a full collection of state `s`.
pub open spec fn gc_alive(s: Artichoke, i: int) -> bool {
    s.heap@[i].alive && rooted(s, i)
}

/// A value created and still rooted in the arena (for example by
/// `protect`) is never collected: `is_dead` stays false across a full
/// collection performed before the rooting savepoint is restored.
pub proof fn lemma_protected_survives_gc(s: Artichoke, i: int)
    requires
        0 <= i < s.heap@.len(),
        s.heap@[i].alive,
        in_arena(s.arena@, i),
    ensures
        gc_alive(s, i),
{
}

/// A slot reachable from no root does not survive a full collection: once
/// the savepoint that rooted a value is restored, and no global or
/// most-recent-result root refers to it, it is collected.
pub proof fn lemma_unrooted_dies(s: Artichoke, i: int)
    requires
        !rooted(s, i),
    ensures
        !gc_alive(s, i),
{
}

impl Artichoke {
    /// Well-formedness: symbol and global tables correspond, symbols are
    /// duplicate-free, and every reachable value indexes a heap slot of
    /// its own tag.
    pub open spec fn wf(self) -> bool {
        &&& self.symbols@.len() == self.globals@.len()
        &&& forall|a: int, b: int|
            0 <= a < b < self.symbols@.len()
                ==> (#[trigger] self.symbols@[a])@ != (#[trigger] self.symbols@[b])@
        &&& forall|i: int|
            0 <= i < self.arena@.len() ==> (#[trigger] self.arena@[i] as int) < self.heap@.len()
        &&& forall|i: int| 0 <= i < self.globals@.len() ==> val_wf(#[trigger] self.globals@[i], self.heap@)
        &&& (self.exc matches Some(v) ==> val_wf(v, self.heap@))
        &&& (self.most_recent matches Some(v) ==> val_wf(v, self.heap@))
        &&& forall|i: int| 0 <= i < self.heap@.len() ==> obj_wf((#[trigger] self.heap@[i]).obj, self.heap@)
    }

    /// A fresh interpreter: everything empty.
    pub fn new() -> (r: Artichoke)
        ensures
            r.wf(),
            r.heap@.len() == 0,
            r.arena@.len() == 0,
            r.symbols@.len() == 0,
            r.globals@.len() == 0,
            r.exc is None,
            r.most_recent is None,
            r.num_set_regexp_capture_globals == 0,
    {
        Artichoke {
            heap: Vec::new(),
            arena: Vec::new(),
            symbols: Vec::new(),
            globals: Vec::new(),
            exc: None,
            most_recent: None,
            num_set_regexp_capture_globals: 0,
        }
    }

    /// Allocate a heap object.  The new slot is alive and immediately
    /// rooted in the arena, so it survives until the enclosing savepoint
    /// is restored.
    pub fn allocate(&mut self, obj: HeapObj) -> (r: usize)
        requires
            old(self).wf(),
            obj_wf(obj, old(self).heap@),
        ensures
            final(self).wf(),
            r == old(self).heap@.len(),
            final(self).heap@ == old(self).heap@.push(HeapSlot { obj, alive: true }),
            final(self).arena@ == old(self).arena@.push(r),
            final(self).symbols@ == old(self).symbols@,
            final(self).globals@ == old(self).globals@,
            final(self).exc == old(self).exc,
            final(self).most_recent == old(self).most_recent,
            final(self).num_set_regexp_capture_globals == old(self).num_set_regexp_capture_globals,
            forall|n: Seq<char>| #[trigger] gv_of(*final(self), n) == gv_of(*old(self), n),
            forall|i: int|
                0 <= i < old(self).heap@.len() ==> #[trigger] crate::types::heap_str(
                    final(self).heap@,
                    i,
                ) == crate::types::heap_str(old(self).heap@, i),
    {
        let r = self.heap.len();
        self.heap.push(HeapSlot { obj, alive: true });
        self.arena.push(r);
        proof {
            assert(heap_extends(old(self).heap@, self.heap@));
            assert forall|i: int| 0 <= i < self.heap@.len() implies obj_wf(
                (#[trigger] self.heap@[i]).obj,
                self.heap@,
            ) by {
                assert(obj_wf(self.heap@[i].obj, old(self).heap@));
            }
            assert forall|i: int| 0 <= i < self.globals@.len() implies val_wf(
                #[trigger] self.globals@[i],
                self.heap@,
            ) by {
                assert(val_wf(self.globals@[i], old(self).heap@));
            }
        }
        r
    }

    /// Intern `name` in the symbol table, returning its stable symbol.
    pub fn sym_intern(&mut self, name: &str) -> (r: usize)
        requires
            old(self).wf(),
        ensures
            final(self).wf(),
            intern_rel(*old(self), *final(self), name@, r),
    {
        let n = self.symbols.len();
        let mut i: usize = 0;
        while i < n
            invariant
                n == self.symbols@.len(),
                i <= n,
                forall|k: int| 0 <= k < i ==> (#[trigger] self.symbols@[k])@ != name@,
                self.wf(),
            decreases n - i,
        {
            if crate::types::str_eq(self.symbols[i].as_str(), name) {
                proof {
                    lemma_sym_at_unique(self.symbols@, name@, i as int);
                }
                return i;
            }
            i += 1;
        }
        let r = n;
        self.symbols.push(name.to_owned());
        self.globals.push(RawValue::Nil);
        proof {
            assert(!has_sym(old(self).symbols@, name@));
            assert forall|a: int, b: int| 0 <= a < b < self.symbols@.len() implies (
            #[trigger] self.symbols@[a])@ != (#[trigger] self.symbols@[b])@ by {
                if b < n {
                    assert(old(self).symbols@[a]@ != old(self).symbols@[b]@);
                }
            }
            lemma_sym_at_unique(self.symbols@, name@, r as int);
            assert forall|i2: int| 0 <= i2 < self.globals@.len() implies val_wf(
                #[trigger] self.globals@[i2],
                self.heap@,
            ) by {
                if i2 < n {
                    assert(val_wf(old(self).globals@[i2], self.heap@));
                }
            }
        }
        r
    }

    /// Set the global variable identified by symbol `sym`.
    pub fn gv_set(&mut self, sym: usize, v: RawValue)
        requires
            old(self).wf(),
            (sym as int) < old(self).globals@.len(),
            val_wf(v, old(self).heap@),
        ensures
            final(self).wf(),
            final(self).globals@ == old(self).globals@.update(sym as int, v),
            final(self).heap@ == old(self).heap@,
            final(self).arena@ == old(self).arena@,
            final(self).symbols@ == old(self).symbols@,
            final(self).exc == old(self).exc,
            final(self).most_recent == old(self).most_recent,
            final(self).num_set_regexp_capture_globals == old(self).num_set_regexp_capture_globals,
    {
        self.globals.set(sym, v);
    }

    /// Read the global variable identified by symbol `sym`.
    pub fn gv_get(&self, sym: usize) -> (r: RawValue)
        requires
            (sym as int) < self.globals@.len(),
        ensures
            r == self.globals@[sym as int],
    {
        self.globals[sym]
    }

    /// Take a GC savepoint: a checkpoint of the current root stack.
    pub fn create_arena_savepoint(&self) -> (r: usize)
        ensures
            r == self.arena@.len(),
    {
        self.arena.len()
    }

    /// Restore a savepoint, releasing every rooting added since it was
    /// taken.
    pub fn arena_restore(&mut self, savepoint: usize)
        requires
            old(self).wf(),
            savepoint <= old(self).arena@.len(),
        ensures
            final(self).wf(),
            final(self).arena@ == old(self).arena@.subrange(0, savepoint as int),
            final(self).heap@ == old(self).heap@,
            final(self).symbols@ == old(self).symbols@,
            final(self).globals@ == old(self).globals@,
            final(self).exc == old(self).exc,
            final(self).most_recent == old(self).most_recent,
            final(self).num_set_regexp_capture_globals == old(self).num_set_regexp_capture_globals,
    {
        self.arena.truncate(savepoint);
    }

    /// Force an immediate full collection: every heap slot unreachable
    /// from the roots (arena, globals, most-recent result, last-error
    /// slot) is collected; rooted slots are untouched.
    pub fn full_gc(&mut self)
        requires
            old(self).wf(),
        ensures
            final(self).wf(),
            final(self).heap@.len() == old(self).heap@.len(),
            forall|i: int|
                0 <= i < old(self).heap@.len()
                    ==> (#[trigger] final(self).heap@[i]).obj == old(self).heap@[i].obj,
            forall|i: int|
                0 <= i < old(self).heap@.len()
                    ==> (#[trigger] final(self).heap@[i]).alive == gc_alive(*old(self), i),
            final(self).arena@ == old(self).arena@,
            final(self).symbols@ == old(self).symbols@,
            final(self).globals@ == old(self).globals@,
            final(self).exc == old(self).exc,
            final(self).most_recent == old(self).most_recent,
            final(self).num_set_regexp_capture_globals == old(self).num_set_regexp_capture_globals,
    {
        let n = self.heap.len();
        let mut marks: Vec<bool> = Vec::new();
        let mut i: usize = 0;
        while i < n
            invariant
                i <= n,
                marks@.len() == i,
                forall|k: int| 0 <= k < i ==> !(#[trigger] marks@[k]),
            decreases n - i,
        {
            marks.push(false);
            i += 1;
        }
        let mut j: usize = 0;
        while j < self.arena.len()
            invariant
                self == old(self),
                self.wf(),
                n == self.heap@.len(),
                marks@.len() == n,
                j <= self.arena@.len(),
                forall|k: int|
                    0 <= k < n
                        ==> #[trigger] marks@[k] == crate::types::in_arena_prefix(
                        self.arena@,
                        j as int,
                        k,
                    ),
            decreases self.arena@.len() - j,
        {
            let idx = self.arena[j];
            marks.set(idx, true);
            proof {
                assert forall|k: int| 0 <= k < n implies #[trigger] marks@[k]
                    == crate::types::in_arena_prefix(self.arena@, j + 1, k) by {
                    if k == idx as int {
                        assert(self.arena@[j as int] == idx);
                        assert(crate::types::in_arena_prefix(self.arena@, j + 1, k));
                    }
                }
            }
            j += 1;
        }
        let mut g: usize = 0;
        while g < self.globals.len()
            invariant
                self == old(self),
                self.wf(),
                n == self.heap@.len(),
                marks@.len() == n,
                g <= self.globals@.len(),
                forall|k: int|
                    0 <= k < n
                        ==> #[trigger] marks@[k] == (in_arena(self.arena@, k)
                        || crate::types::global_refs_prefix(self.globals@, g as int, k)),
            decreases self.globals@.len() - g,
        {
            let v = self.globals[g];
            let target: Option<usize> = match v {
                RawValue::Ary(t) => Some(t),
                RawValue::Exc(t) => Some(t),
                RawValue::Data(t) => Some(t),
                RawValue::Str(t) => Some(t),
                _ => None,
            };
            if let Some(t) = target {
                marks.set(t, true);
            }
            proof {
                assert forall|k: int| 0 <= k < n implies #[trigger] marks@[k] == (in_arena(
                    self.arena@,
                    k,
                ) || crate::types::global_refs_prefix(self.globals@, g + 1, k)) by {
                    if val_refs(self.globals@[g as int], k) {
                        assert(crate::types::global_refs_prefix(self.globals@, g + 1, k));
                    }
                }
            }
            g += 1;
        }
        let mr = self.most_recent;
        if let Some(v) = mr {
            let target: Option<usize> = match v {
                RawValue::Ary(t) => Some(t),
                RawValue::Exc(t) => Some(t),
                RawValue::Data(t) => Some(t),
                RawValue::Str(t) => Some(t),
                _ => None,
            };
            if let Some(t) = target {
                marks.set(t, true);
            }
        }
        let ex = self.exc;
        if let Some(v) = ex {
            let target: Option<usize> = match v {
                RawValue::Ary(t) => Some(t),
                RawValue::Exc(t) => Some(t),
                RawValue::Data(t) => Some(t),
                RawValue::Str(t) => Some(t),
                _ => None,
            };
            if let Some(t) = target {
                marks.set(t, true);
            }
        }
        proof {
            assert forall|k: int| 0 <= k < n implies #[trigger] marks@[k] == rooted(*self, k) by {}
        }
        let mut p: usize = 0;
        while p < n
            invariant
                n == self.heap@.len(),
                marks@.len() == n,
                p <= n,
                self.arena@ == old(self).arena@,
                self.symbols@ == old(self).symbols@,
                self.globals@ == old(self).globals@,
                self.exc == old(self).exc,
                self.most_recent == old(self).most_recent,
                self.num_set_regexp_capture_globals == old(self).num_set_regexp_capture_globals,
                forall|k: int| 0 <= k < n ==> #[trigger] marks@[k] == rooted(*old(self), k),
                forall|i2: int|
                    0 <= i2 < n ==> (#[trigger] self.heap@[i2]).obj == old(self).heap@[i2].obj,
                forall|i2: int|
                    0 <= i2 < p ==> (#[trigger] self.heap@[i2]).alive == gc_alive(*old(self), i2),
                forall|i2: int|
                    p <= i2 < n ==> (#[trigger] self.heap@[i2]).alive == old(self).heap@[i2].alive,
            decreases n - p,
        {
            if !marks[p] {
                self.heap[p].alive = false;
            }
            p += 1;
        }
        proof {
            assert forall|i2: int| 0 <= i2 < self.heap@.len() implies obj_wf(
                (#[trigger] self.heap@[i2]).obj,
                self.heap@,
            ) by {
                assert(obj_wf(old(self).heap@[i2].obj, old(self).heap@));
                assert(heap_extends(old(self).heap@, self.heap@));
            }
            assert forall|i2: int| 0 <= i2 < self.globals@.len() implies val_wf(
                #[trigger] self.globals@[i2],
                self.heap@,
            ) by {
                assert(val_wf(old(self).globals@[i2], old(self).heap@));
                assert(heap_extends(old(self).heap@, self.heap@));
            }
        }
    }
}

/// Value of the global variable `name` in state `s`.
pub open spec fn gv_of(s: Artichoke, name: Seq<char>) -> RawValue {
    gv_val(s.symbols@, s.globals@, name)
}

impl Artichoke {
    /// Set the global variable `name`, interning it if needed.  Every
    /// other global keeps its value.
    pub fn gv_set_by_name(&mut self, name: &str, v: RawValue)
        requires
            old(self).wf(),
            val_wf(v, old(self).heap@),
        ensures
            final(self).wf(),
            final(self).heap@ == old(self).heap@,
            final(self).arena@ == old(self).arena@,
            final(self).exc == old(self).exc,
            final(self).most_recent == old(self).most_recent,
            final(self).num_set_regexp_capture_globals == old(
                self,
            ).num_set_regexp_capture_globals,
            final(self).symbols@.len() >= old(self).symbols@.len(),
            forall|i: int|
                0 <= i < old(self).symbols@.len() ==> final(self).symbols@[i] == #[trigger] old(
                    self,
                ).symbols@[i],
            gv_of(*final(self), name@) == v,
            forall|n2: Seq<char>|
                n2 != name@ ==> #[trigger] gv_of(*final(self), n2) == gv_of(*old(self), n2),
    {
        let sym = self.sym_intern(name);
        self.gv_set(sym, v);
        proof {
            lemma_sym_at_unique(self.symbols@, name@, sym as int);
            assert(gv_of(*self, name@) == v);
            assert forall|n2: Seq<char>| n2 != name@ implies #[trigger] gv_of(*self, n2) == gv_of(
                *old(self),
                n2,
            ) by {
                if has_sym(old(self).symbols@, n2) {
                    let j = sym_at(old(self).symbols@, n2);
                    lemma_sym_at_unique(old(self).symbols@, n2, j);
                    lemma_sym_at_unique(self.symbols@, n2, j);
                    assert(j != sym as int);
                    assert(self.globals@[j] == old(self).globals@[j]);
                } else {
                    if has_sym(self.symbols@, n2) {
                        let j = sym_at(self.symbols@, n2);
                        assert(self.symbols@[j]@ == n2);
                        if j < old(self).symbols@.len() {
                            assert(old(self).symbols@[j]@ == n2);
                            assert(false);
                        } else {
                            assert(self.symbols@[j]@ == name@);
                            assert(false);
                        }
                    }
                }
            }
        }
    }
}

} // verus!
