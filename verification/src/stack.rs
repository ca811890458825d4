//! The operand stack of a frame.
//!
//! The stack holds handles, the top last. A `long` or a `double` takes one
//! entry, so the operations that the instruction set defines by category
//! look at the cell on top to tell how many entries a value has.

use vstd::prelude::*;
use crate::oop::{Heap, Oop, OopRef, OopView};

verus! {

/// An operand stack of at most `max_stack` entries.
pub struct Stack {
    inner: Vec<OopRef>,
    max_stack: usize,
}

impl View for Stack {
    type V = Seq<OopRef>;

    closed spec fn view(&self) -> Seq<OopRef> {
        self.inner@
    }
}

/// Whether the cell `v` holds a value of category 2: a `long` or a `double`.
pub open spec fn is_wide(v: OopView) -> bool {
    v is Long || v is Double
}

impl Stack {
    /// The most entries that the stack may hold.
    pub closed spec fn capacity(&self) -> nat {
        self.max_stack as nat
    }

    /// The stack's invariant: it holds no more than it may.
    pub open spec fn wf(&self) -> bool {
        self@.len() <= self.capacity()
    }

    /// An empty stack.
    pub fn new(max_stack: usize) -> (stack: Stack)
        ensures
            stack@ == Seq::<OopRef>::empty(),
            stack.capacity() == max_stack,
            stack.wf(),
    {
        Stack { inner: Vec::new(), max_stack }
    }

    /// The number of entries.
    pub fn len(&self) -> (n: usize)
        ensures
            n == self@.len(),
    {
        self.inner.len()
    }

    /// Removes every entry.
    pub fn clear(&mut self)
        ensures
            final(self)@ == Seq::<OopRef>::empty(),
            final(self).capacity() == old(self).capacity(),
            final(self).wf(),
    {
        self.inner.clear();
    }

    /// Puts `v` on top.
    pub fn push(&mut self, v: OopRef)
        requires
            old(self)@.len() < old(self).capacity(),
        ensures
            final(self)@ == old(self)@.push(v),
            final(self).capacity() == old(self).capacity(),
            final(self).wf(),
    {
        self.inner.push(v);
    }

    /// Takes the top entry.
    pub fn pop_ref(&mut self) -> (v: OopRef)
        requires
            old(self)@.len() > 0,
            old(self).wf(),
        ensures
            v == old(self)@.last(),
            final(self)@ == old(self)@.drop_last(),
            final(self).capacity() == old(self).capacity(),
            final(self).wf(),
    {
        match self.inner.pop() {
            Some(v) => v,
            None => OopRef { cell: 0 },
        }
    }

    /// Takes the top entry, which denotes an `Int` cell, and gives its value.
    pub fn pop_int(&mut self, heap: &Heap) -> (v: i32)
        requires
            old(self)@.len() > 0,
            old(self).wf(),
            heap.contains(old(self)@.last()),
            heap@[old(self)@.last().cell as int] is Int,
        ensures
            v == heap@[old(self)@.last().cell as int]->Int_0,
            final(self)@ == old(self)@.drop_last(),
            final(self).capacity() == old(self).capacity(),
            final(self).wf(),
    {
        let r = self.pop_ref();
        match heap.get(r) {
            Oop::Int(v) => *v,
            _ => 0,
        }
    }

    /// Takes the top entry, which denotes a `Long` cell, and gives its value.
    pub fn pop_long(&mut self, heap: &Heap) -> (v: i64)
        requires
            old(self)@.len() > 0,
            old(self).wf(),
            heap.contains(old(self)@.last()),
            heap@[old(self)@.last().cell as int] is Long,
        ensures
            v == heap@[old(self)@.last().cell as int]->Long_0,
            final(self)@ == old(self)@.drop_last(),
            final(self).capacity() == old(self).capacity(),
            final(self).wf(),
    {
        let r = self.pop_ref();
        match heap.get(r) {
            Oop::Long(v) => *v,
            _ => 0,
        }
    }

    /// Takes the top entry, which denotes a `Double` cell, and gives the bit
    /// pattern of its value.
    pub fn pop_double(&mut self, heap: &Heap) -> (bits: u64)
        requires
            old(self)@.len() > 0,
            old(self).wf(),
            heap.contains(old(self)@.last()),
            heap@[old(self)@.last().cell as int] is Double,
        ensures
            bits == heap@[old(self)@.last().cell as int]->Double_0,
            final(self)@ == old(self)@.drop_last(),
            final(self).capacity() == old(self).capacity(),
            final(self).wf(),
    {
        let r = self.pop_ref();
        match heap.get(r) {
            Oop::Double(v) => *v,
            _ => 0,
        }
    }

    /// `dup`: the top entry once more.
    pub fn dup(&mut self)
        requires
            old(self)@.len() > 0,
            old(self)@.len() < old(self).capacity(),
        ensures
            final(self)@ == old(self)@.push(old(self)@.last()),
            final(self).capacity() == old(self).capacity(),
            final(self).wf(),
    {
        let top = self.inner[self.inner.len() - 1];
        self.inner.push(top);
    }

    /// `swap`: the two top entries change places.
    pub fn swap(&mut self)
        requires
            old(self)@.len() >= 2,
            old(self).wf(),
        ensures
            final(self)@ == old(self)@.drop_last().drop_last().push(old(self)@.last()).push(
                old(self)@[old(self)@.len() - 2],
            ),
            final(self).capacity() == old(self).capacity(),
            final(self).wf(),
    {
        let n = self.inner.len();
        let v1 = self.inner[n - 1];
        let v2 = self.inner[n - 2];
        self.inner[n - 2] = v1;
        self.inner[n - 1] = v2;
        assert(self@ =~= old(self)@.drop_last().drop_last().push(v1).push(v2));
    }

    /// `dup_x1`: the top entry once more, below the entry under it.
    pub fn dup_x1(&mut self)
        requires
            old(self)@.len() >= 2,
            old(self)@.len() < old(self).capacity(),
        ensures
            final(self)@ == old(self)@.drop_last().drop_last().push(old(self)@.last()).push(
                old(self)@[old(self)@.len() - 2],
            ).push(old(self)@.last()),
            final(self).capacity() == old(self).capacity(),
            final(self).wf(),
    {
        let n = self.inner.len();
        let v1 = self.inner[n - 1];
        let v2 = self.inner[n - 2];
        self.inner[n - 2] = v1;
        self.inner[n - 1] = v2;
        self.inner.push(v1);
        assert(self@ =~= old(self)@.drop_last().drop_last().push(v1).push(v2).push(v1));
    }

    /// Whether the top entry denotes a value of category 2.
    pub fn top_is_wide(&self, heap: &Heap) -> (wide: bool)
        requires
            self@.len() > 0,
            heap.contains(self@.last()),
        ensures
            wide == is_wide(heap@[self@.last().cell as int]),
    {
        match heap.get(self.inner[self.inner.len() - 1]) {
            Oop::Long(_) => true,
            Oop::Double(_) => true,
            _ => false,
        }
    }

    /// `dup2`: the top value once more if it is of category 2, else the
    /// two top entries once more.
    pub fn dup2(&mut self, heap: &Heap)
        requires
            old(self)@.len() > 0,
            heap.contains(old(self)@.last()),
            if is_wide(heap@[old(self)@.last().cell as int]) {
                old(self)@.len() + 1 <= old(self).capacity()
            } else {
                old(self)@.len() >= 2 && old(self)@.len() + 2 <= old(self).capacity()
            },
        ensures
            final(self)@ == if is_wide(heap@[old(self)@.last().cell as int]) {
                old(self)@.push(old(self)@.last())
            } else {
                old(self)@.push(old(self)@[old(self)@.len() - 2]).push(old(self)@.last())
            },
            final(self).capacity() == old(self).capacity(),
            final(self).wf(),
    {
        let n = self.inner.len();
        let v1 = self.inner[n - 1];
        if self.top_is_wide(heap) {
            self.inner.push(v1);
        } else {
            let v2 = self.inner[n - 2];
            self.inner.push(v2);
            self.inner.push(v1);
        }
    }

    /// `dup2_x1`: the top value once more, below the entry under it, if it
    /// is of category 2; else the two top entries once more, below the
    /// third.
    pub fn dup2_x1(&mut self, heap: &Heap)
        requires
            old(self)@.len() >= 2,
            heap.contains(old(self)@.last()),
            if is_wide(heap@[old(self)@.last().cell as int]) {
                old(self)@.len() + 1 <= old(self).capacity()
            } else {
                old(self)@.len() >= 3 && old(self)@.len() + 2 <= old(self).capacity()
            },
        ensures
            final(self)@ == if is_wide(heap@[old(self)@.last().cell as int]) {
                old(self)@.drop_last().drop_last().push(old(self)@.last()).push(
                    old(self)@[old(self)@.len() - 2],
                ).push(old(self)@.last())
            } else {
                old(self)@.drop_last().drop_last().drop_last().push(
                    old(self)@[old(self)@.len() - 2],
                ).push(old(self)@.last()).push(old(self)@[old(self)@.len() - 3]).push(
                    old(self)@[old(self)@.len() - 2],
                ).push(old(self)@.last())
            },
            final(self).capacity() == old(self).capacity(),
            final(self).wf(),
    {
        let n = self.inner.len();
        let v1 = self.inner[n - 1];
        let v2 = self.inner[n - 2];
        if self.top_is_wide(heap) {
            self.inner[n - 2] = v1;
            self.inner[n - 1] = v2;
            self.inner.push(v1);
            assert(self@ =~= old(self)@.drop_last().drop_last().push(v1).push(v2).push(v1));
        } else {
            let v3 = self.inner[n - 3];
            self.inner[n - 3] = v2;
            self.inner[n - 2] = v1;
            self.inner[n - 1] = v3;
            self.inner.push(v2);
            self.inner.push(v1);
            assert(self@ =~= old(self)@.drop_last().drop_last().drop_last().push(v2).push(v1).push(
                v3,
            ).push(v2).push(v1));
        }
    }
}

} // verus!
