//! How the live elements lie in the slots.
//!
//! The element at position `p` sits in slot `p % capacity`. As long as no more
//! than `capacity` elements are live, no two of them share a slot, so putting
//! an element in touches only the slot of the write position, and taking one
//! out only the slot of the read position.

use crate::state::RingState;
use vstd::arithmetic::div_mod::{
    lemma_fundamental_div_mod,
    lemma_fundamental_div_mod_converse,
    lemma_mod_multiples_vanish,
    lemma_small_mod,
};
use vstd::prelude::*;

verus! {

/// Going round from `base`, the slot of `base + k` lies `k` slots on.
pub proof fn lemma_offset_of_slot(base: nat, k: nat, capacity: nat)
    requires
        k < capacity,
    ensures
        (((base + k) % capacity) - base) % (capacity as int) == k,
{
    let c: int = capacity as int;
    let x: int = (base + k) as int;
    let q: int = x / c;
    lemma_fundamental_div_mod(x, c);
    assert(x % c - base == c * (-q) + k) by (nonlinear_arith)
        requires
            x == c * q + x % c,
            x == base + k,
    ;
    lemma_mod_multiples_vanish(-q, k as int, c);
    lemma_small_mod(k, capacity);
}

/// A slot that lies `k` slots on from `base`, going round, is the slot of `base + k`.
pub proof fn lemma_slot_of_offset(base: nat, j: int, k: int, capacity: nat)
    requires
        0 <= j < capacity,
        (j - base) % (capacity as int) == k,
    ensures
        0 <= k < capacity,
        j == (base + k) % (capacity as int),
{
    let c: int = capacity as int;
    let x: int = j - base;
    let q: int = x / c;
    lemma_fundamental_div_mod(x, c);
    assert(base + k == c * (-q) + j) by (nonlinear_arith)
        requires
            x == c * q + k,
            x == j - base,
    ;
    lemma_mod_multiples_vanish(-q, j, c);
    lemma_small_mod(j as nat, capacity);
}

/// Moving `base` one on moves every offset one back, going round.
pub proof fn lemma_offset_step(base: nat, j: int, capacity: nat)
    requires
        capacity > 0,
    ensures
        (j - (base + 1)) % (capacity as int) == (if (j - base) % (capacity as int) == 0 {
            capacity - 1
        } else {
            (j - base) % (capacity as int) - 1
        }),
{
    let c: int = capacity as int;
    let x: int = j - base;
    let q: int = x / c;
    let r: int = x % c;
    lemma_fundamental_div_mod(x, c);
    if r == 0 {
        assert(x - 1 == (q - 1) * c + (c - 1)) by (nonlinear_arith)
            requires
                x == c * q + r,
                r == 0,
        ;
        lemma_fundamental_div_mod_converse(x - 1, c, q - 1, c - 1);
    } else {
        lemma_fundamental_div_mod_converse(x - 1, c, q, r - 1);
    }
}

impl<T> RingState<T> {
    /// Each live element sits in the slot of its position, and every other
    /// slot holds nothing: of the `capacity` positions from the read position
    /// on, each has a slot of its own, which holds the element at that
    /// position if the position is live, and nothing if it is not.
    pub proof fn lemma_slots(self)
        requires
            self.wf(),
        ensures
            self.slots().len() == self.capacity,
            forall|pos: nat|
                self.read_pos <= pos < self.read_pos + self.capacity
                    ==> #[trigger] self.slots()[self.slot_of(pos) as int] == (if self.is_live(pos) {
                    Some(self.item_at(pos))
                } else {
                    None
                }),
            forall|j: int|
                0 <= j < self.capacity ==> 0 <= #[trigger] self.offset(j) < self.capacity
                    && self.slot_of((self.read_pos + self.offset(j)) as nat) == j,
    {
        assert forall|pos: nat|
            self.read_pos <= pos < self.read_pos + self.capacity
        implies #[trigger] self.slots()[self.slot_of(pos) as int] == (if self.is_live(pos) {
            Some(self.item_at(pos))
        } else {
            None
        }) by {
            lemma_offset_of_slot(self.read_pos, (pos - self.read_pos) as nat, self.capacity);
        }
        assert forall|j: int| 0 <= j < self.capacity implies 0 <= #[trigger] self.offset(j)
            < self.capacity && self.slot_of((self.read_pos + self.offset(j)) as nat) == j by {
            lemma_slot_of_offset(self.read_pos, j, self.offset(j), self.capacity);
        }
    }

    /// No two live elements share a slot.
    pub proof fn lemma_slots_distinct(self, p: nat, q: nat)
        requires
            self.wf(),
            self.is_live(p),
            self.is_live(q),
            p != q,
        ensures
            self.slot_of(p) != self.slot_of(q),
    {
        lemma_offset_of_slot(self.read_pos, (p - self.read_pos) as nat, self.capacity);
        lemma_offset_of_slot(self.read_pos, (q - self.read_pos) as nat, self.capacity);
    }

    /// Putting an element in fills the slot of the write position and leaves
    /// the other slots as they are.
    pub proof fn lemma_push_slots(self, item: T)
        requires
            self.wf(),
            !self.is_full(),
        ensures
            self.slots()[self.slot_of(self.write_pos) as int] is None,
            self.push(item).slots() == self.slots().update(
                self.slot_of(self.write_pos) as int,
                Some(item),
            ),
    {
        let next = self.push(item);
        let w = self.slot_of(self.write_pos) as int;
        lemma_offset_of_slot(self.read_pos, self.items.len(), self.capacity);
        assert forall|j: int| 0 <= j < self.capacity implies #[trigger] next.slots()[j]
            == self.slots().update(w, Some(item))[j] by {
            if j != w {
                lemma_slot_of_offset(self.read_pos, j, self.offset(j), self.capacity);
            }
        }
    }

    /// Taking the oldest element out empties the slot of the read position,
    /// which held that element, and leaves the other slots as they are.
    pub proof fn lemma_pop_slots(self)
        requires
            self.wf(),
            !self.is_empty(),
        ensures
            self.slots()[self.slot_of(self.read_pos) as int] == Some(self.front()),
            self.pop().slots() == self.slots().update(self.slot_of(self.read_pos) as int, None),
    {
        let next = self.pop();
        let r = self.slot_of(self.read_pos) as int;
        lemma_offset_of_slot(self.read_pos, 0, self.capacity);
        assert forall|j: int| 0 <= j < self.capacity implies #[trigger] next.slots()[j]
            == self.slots().update(r, None)[j] by {
            lemma_offset_step(self.read_pos, j, self.capacity);
            if j != r {
                lemma_slot_of_offset(self.read_pos, j, self.offset(j), self.capacity);
            }
        }
    }
}

} // verus!
