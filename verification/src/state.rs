//! The mathematical state of a ring buffer.
//!
//! A buffer is told here by four values: its capacity, the two positions and
//! the live elements in the order in which they went in. A position counts
//! elements and only ever grows: the write position is the number of elements
//! that went in, the read position the number that came out. The element
//! at position `p` is live while `read_pos <= p < write_pos`, and it sits in
//! slot `p % capacity`.

use vstd::prelude::*;

verus! {

/// What a ring buffer is, as a value.
#[verifier::ext_equal]
pub struct RingState<T> {
    /// The number of slots.
    pub capacity: nat,
    /// How many elements came out so far.
    pub read_pos: nat,
    /// How many elements went in so far.
    pub write_pos: nat,
    /// The live elements, the oldest first.
    pub items: Seq<T>,
}

impl<T> RingState<T> {
    /// The conditions that every state of a buffer meets.
    pub open spec fn wf(self) -> bool {
        &&& self.capacity > 0
        &&& self.read_pos <= self.write_pos
        &&& self.write_pos - self.read_pos <= self.capacity
        &&& self.items.len() == self.write_pos - self.read_pos
    }

    /// The state of a new buffer.
    pub open spec fn empty(capacity: nat) -> Self {
        RingState { capacity, read_pos: 0, write_pos: 0, items: Seq::empty() }
    }

    /// The number of live elements.
    pub open spec fn len(self) -> nat {
        self.items.len()
    }

    /// The number of elements that still fit.
    pub open spec fn free(self) -> nat {
        if self.items.len() <= self.capacity {
            (self.capacity - self.items.len()) as nat
        } else {
            0
        }
    }

    /// Whether no element is live.
    pub open spec fn is_empty(self) -> bool {
        self.items.len() == 0
    }

    /// Whether as many elements are live as there are slots.
    pub open spec fn is_full(self) -> bool {
        self.items.len() >= self.capacity
    }

    /// The state after `item` went in.
    pub open spec fn push(self, item: T) -> Self {
        RingState { write_pos: self.write_pos + 1, items: self.items.push(item), ..self }
    }

    /// The state after an attempt to put `item` in: unchanged where the buffer is full.
    pub open spec fn try_push(self, item: T) -> Self {
        if self.is_full() {
            self
        } else {
            self.push(item)
        }
    }

    /// The oldest live element.
    pub open spec fn front(self) -> T
        recommends
            !self.is_empty(),
    {
        self.items[0]
    }

    /// The oldest live element, if there is one.
    pub open spec fn peek(self) -> Option<T> {
        if self.is_empty() {
            None
        } else {
            Some(self.items[0])
        }
    }

    /// The state after the oldest element came out.
    pub open spec fn pop(self) -> Self
        recommends
            !self.is_empty(),
    {
        RingState { read_pos: self.read_pos + 1, items: self.items.drop_first(), ..self }
    }

    /// The state after an attempt to take an element out: unchanged where the buffer is empty.
    pub open spec fn try_pop(self) -> Self {
        if self.is_empty() {
            self
        } else {
            self.pop()
        }
    }

    /// The state after all of `xs` went in, in order.
    pub open spec fn write(self, xs: Seq<T>) -> Self {
        RingState { write_pos: self.write_pos + xs.len(), items: self.items + xs, ..self }
    }

    /// How many of `n` offered elements an attempt to write takes.
    pub open spec fn accepted(self, n: nat) -> nat {
        if n <= self.free() {
            n
        } else {
            self.free()
        }
    }

    /// The `n` oldest live elements, the oldest first.
    pub open spec fn oldest(self, n: nat) -> Seq<T>
        recommends
            n <= self.len(),
    {
        self.items.take(n as int)
    }

    /// The state after the `n` oldest elements came out.
    pub open spec fn read(self, n: nat) -> Self
        recommends
            n <= self.len(),
    {
        RingState { read_pos: self.read_pos + n, items: self.items.skip(n as int), ..self }
    }

    /// How many elements an attempt to read `n` gives.
    pub open spec fn available(self, n: nat) -> nat {
        if n <= self.len() {
            n
        } else {
            self.len()
        }
    }

    /// Whether the element at position `pos` is live.
    pub open spec fn is_live(self, pos: nat) -> bool {
        self.read_pos <= pos < self.write_pos
    }

    /// The element at a live position.
    pub open spec fn item_at(self, pos: nat) -> T
        recommends
            self.is_live(pos),
    {
        self.items[pos - self.read_pos]
    }

    /// The slot of a position.
    pub open spec fn slot_of(self, pos: nat) -> nat {
        pos % self.capacity
    }

    /// How many positions slot `j` lies after the slot of the read position, going round.
    pub open spec fn offset(self, j: int) -> int {
        (j - self.read_pos) % (self.capacity as int)
    }

    /// What slot `j` holds: a live element, or nothing.
    pub open spec fn content(self, j: int) -> Option<T> {
        if self.offset(j) < self.items.len() {
            Some(self.items[self.offset(j)])
        } else {
            None
        }
    }

    /// What the slots hold, slot by slot.
    pub open spec fn slots(self) -> Seq<Option<T>> {
        Seq::new(self.capacity, |j: int| self.content(j))
    }
}

/// Whether each element of `dst` is a clone of the element of `src` at its place.
pub open spec fn clones_of<T: Clone>(src: Seq<T>, dst: Seq<T>) -> bool {
    &&& src.len() == dst.len()
    &&& forall|i: int|
        #![trigger src[i]]
        #![trigger dst[i]]
        0 <= i < src.len() ==> cloned(src[i], dst[i])
}

} // verus!
