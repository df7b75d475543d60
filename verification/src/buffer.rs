//! The ring buffer.
//!
//! [`RingBuffer`] keeps a fixed number of slots and two positions. Elements go
//! in at the write position and come out at the read position, in the order in
//! which they went in. The contracts speak of the buffer's view, a
//! [`RingState`].
//!
//! A buffer has one owner at a time: the methods that change it take `&mut
//! self`. Nothing else can then free a slot or bring an element while a call
//! runs, so the calls that would otherwise wait (`push`, `pop`, `write`,
//! `read`) ask in their `requires` that there is room, or that there are
//! elements; `try_push`, `try_pop`, `try_write` and `try_read` ask for nothing
//! and report what they could do.

use crate::position::{
    advance,
    lemma_reduced_advance,
    lemma_reduced_distance,
    lemma_reduced_slot,
    occupancy,
    reduced,
    slot,
};
use crate::state::{clones_of, RingState};
use vstd::prelude::*;

verus! {

/// The slots and the reduced positions, with the state they stand for.
struct Ring<T> {
    size: usize,
    items: Vec<Option<T>>,
    write: usize,
    read: usize,
    state: Ghost<RingState<T>>,
}

impl<T> Ring<T> {
    /// The slots hold exactly the live elements, each in the slot of its
    /// position, and the two counters are the reduced positions.
    spec fn wf(self) -> bool {
        &&& self.state@.wf()
        &&& self.state@.capacity == self.size
        &&& self.size <= usize::MAX / 2
        &&& self.items@ == self.state@.slots()
        &&& self.write == reduced(self.state@.write_pos, self.state@.capacity)
        &&& self.read == reduced(self.state@.read_pos, self.state@.capacity)
    }

    fn new(size: usize) -> (ring: Self)
        requires
            0 < size <= usize::MAX / 2,
        ensures
            ring.wf(),
            ring.state@ == RingState::<T>::empty(size as nat),
    {
        let mut items: Vec<Option<T>> = Vec::with_capacity(size);
        let mut i: usize = 0;
        while i < size
            invariant
                i <= size,
                items@.len() == i,
                forall|j: int| 0 <= j < i ==> items@[j] is None,
            decreases size - i,
        {
            items.push(None);
            i += 1;
        }
        let ghost state = RingState::<T>::empty(size as nat);
        proof {
            assert(items@ =~= state.slots());
        }
        Ring { size, items, write: 0, read: 0, state: Ghost(state) }
    }

    fn len(&self) -> (n: usize)
        requires
            self.wf(),
        ensures
            n == self.state@.len(),
        no_unwind
    {
        proof {
            lemma_reduced_distance(
                self.state@.read_pos,
                self.state@.write_pos,
                self.state@.capacity,
            );
        }
        occupancy(self.write, self.read, self.size)
    }

    /// Puts `item` into the slot of the write position, then advances that position.
    fn put(&mut self, item: T)
        requires
            old(self).wf(),
            !old(self).state@.is_full(),
        ensures
            final(self).wf(),
            final(self).state@ == old(self).state@.push(item),
        no_unwind
    {
        let ghost before = self.state@;
        proof {
            lemma_reduced_slot(before.write_pos, before.capacity);
            lemma_reduced_advance(before.write_pos, before.capacity);
            before.lemma_push_slots(item);
        }
        let i: usize = slot(self.write, self.size);
        self.items[i] = Some(item);
        self.write = advance(self.write, self.size);
        self.state = Ghost(before.push(item));
    }

    /// Takes the element out of the slot of the read position, then advances
    /// that position.
    fn take(&mut self) -> (cell: Option<T>)
        requires
            old(self).wf(),
            !old(self).state@.is_empty(),
        ensures
            final(self).wf(),
            cell == Some(old(self).state@.front()),
            final(self).state@ == old(self).state@.pop(),
        no_unwind
    {
        let ghost before = self.state@;
        proof {
            lemma_reduced_slot(before.read_pos, before.capacity);
            lemma_reduced_advance(before.read_pos, before.capacity);
            before.lemma_pop_slots();
        }
        let i: usize = slot(self.read, self.size);
        let mut cell: Option<T> = None;
        core::mem::swap(&mut self.items[i], &mut cell);
        self.read = advance(self.read, self.size);
        self.state = Ghost(before.pop());
        cell
    }
}

/// A first-in, first-out buffer with a fixed number of slots.
pub struct RingBuffer<T> {
    ring: Ring<T>,
}

impl<T> View for RingBuffer<T> {
    type V = RingState<T>;

    closed spec fn view(&self) -> RingState<T> {
        self.ring.state@
    }
}

impl<T> RingBuffer<T> {
    #[verifier::type_invariant]
    spec fn inv(self) -> bool {
        self.ring.wf()
    }

    /// What the slots hold, slot by slot.
    pub closed spec fn slots(&self) -> Seq<Option<T>> {
        self.ring.items@
    }

    /// What holds of every buffer at every call: its state is well formed,
    /// each live element sits in the slot of its position, and every other
    /// slot holds nothing.
    pub open spec fn wf(&self) -> bool {
        &&& self@.wf()
        &&& self.slots() == self@.slots()
    }

    /// Makes an empty buffer of `size` slots.
    ///
    /// A buffer without slots could never take an element. The positions are
    /// kept modulo twice the number of slots, which therefore has to fit in a
    /// `usize`.
    pub fn new(size: usize) -> (rb: RingBuffer<T>)
        requires
            0 < size <= usize::MAX / 2,
        ensures
            rb@ == RingState::<T>::empty(size as nat),
            rb.wf(),
    {
        RingBuffer { ring: Ring::new(size) }
    }

    /// The number of slots.
    pub fn capacity(&self) -> (n: usize)
        ensures
            n == self@.capacity,
            self.wf(),
    {
        proof {
            use_type_invariant(self);
        }
        self.ring.size
    }

    /// The number of live elements: the write position less the read position.
    pub fn len(&self) -> (n: usize)
        ensures
            n == self@.len(),
            n == self@.write_pos - self@.read_pos,
            self.wf(),
    {
        proof {
            use_type_invariant(self);
        }
        self.ring.len()
    }

    /// Puts `item` in: writes it into the slot of the write position and
    /// advances that position.
    ///
    /// There has to be room. The caller holds the buffer for itself while the
    /// call runs, so no room could be made while the call waited for it.
    pub fn push(&mut self, item: T)
        requires
            !old(self)@.is_full(),
        ensures
            final(self)@ == old(self)@.push(item),
            final(self).wf(),
    {
        proof {
            use_type_invariant(&*self);
        }
        self.ring.put(item);
    }

    /// Puts `item` in if there is room. Gives `None`, and leaves the buffer as
    /// it is, if the buffer is full; `item` is then dropped.
    pub fn try_push(&mut self, item: T) -> (accepted: Option<()>)
        ensures
            accepted is Some <==> !old(self)@.is_full(),
            final(self)@ == old(self)@.try_push(item),
            final(self).wf(),
    {
        proof {
            use_type_invariant(&*self);
        }
        if self.ring.len() == self.ring.size {
            return None;
        }
        self.ring.put(item);
        Some(())
    }

    /// Takes the oldest element out: moves it out of the slot of the read
    /// position, which is left empty, and advances that position.
    ///
    /// There has to be an element. The caller holds the buffer for itself
    /// while the call runs, so none could come while the call waited for it.
    pub fn pop(&mut self) -> (item: T)
        requires
            !old(self)@.is_empty(),
        ensures
            item == old(self)@.front(),
            final(self)@ == old(self)@.pop(),
            final(self).wf(),
    {
        proof {
            use_type_invariant(&*self);
        }
        let cell: Option<T> = self.ring.take();
        cell.unwrap()
    }

    /// Takes the oldest element out if there is one. Gives `None`, and leaves
    /// the buffer as it is, if the buffer is empty.
    pub fn try_pop(&mut self) -> (item: Option<T>)
        ensures
            item == old(self)@.peek(),
            final(self)@ == old(self)@.try_pop(),
            final(self).wf(),
    {
        proof {
            use_type_invariant(&*self);
        }
        if self.ring.len() == 0 {
            return None;
        }
        self.ring.take()
    }

    /// Puts a clone of each element of `buffer` in, in order. There has to be
    /// room for all of them.
    pub fn write(&mut self, buffer: &[T]) where T: Clone
        requires
            buffer@.len() <= old(self)@.free(),
        ensures
            clones_of(buffer@, final(self)@.items.skip(old(self)@.len() as int)),
            final(self)@ == old(self)@.write(final(self)@.items.skip(old(self)@.len() as int)),
            final(self).wf(),
    {
        proof {
            use_type_invariant(&*self);
        }
        let ghost before = self@;
        let mut i: usize = 0;
        while i < buffer.len()
            invariant
                i <= buffer@.len(),
                buffer@.len() <= before.free(),
                self.wf(),
                clones_of(buffer@.take(i as int), self@.items.skip(before.len() as int)),
                self@ == before.write(self@.items.skip(before.len() as int)),
            decreases buffer@.len() - i,
        {
            self.push(buffer[i].clone());
            i += 1;
        }
    }

    /// Puts clones of the elements of `buffer` in, in order, until the buffer
    /// is full, and gives the number of elements that went in. The elements
    /// that went in are the first of `buffer`; the rest is left alone.
    pub fn try_write(&mut self, buffer: &[T]) -> (count: usize) where T: Clone
        ensures
            count == old(self)@.accepted(buffer@.len()),
            clones_of(
                buffer@.take(count as int),
                final(self)@.items.skip(old(self)@.len() as int),
            ),
            final(self)@ == old(self)@.write(final(self)@.items.skip(old(self)@.len() as int)),
            final(self).wf(),
    {
        proof {
            use_type_invariant(&*self);
        }
        let ghost before = self@;
        let mut counter: usize = 0;
        while counter < buffer.len()
            invariant
                counter <= buffer@.len(),
                counter <= before.free(),
                before == old(self)@,
                self.wf(),
                clones_of(buffer@.take(counter as int), self@.items.skip(before.len() as int)),
                self@ == before.write(self@.items.skip(before.len() as int)),
            decreases buffer@.len() - counter,
        {
            if self.try_push(buffer[counter].clone()).is_none() {
                return counter;
            }
            counter += 1;
        }
        counter
    }

    /// Takes the `size` oldest elements out, the oldest first. The buffer has
    /// to hold that many.
    pub fn read(&mut self, size: usize) -> (v: Vec<T>)
        requires
            size <= old(self)@.len(),
        ensures
            v@ == old(self)@.oldest(size as nat),
            final(self)@ == old(self)@.read(size as nat),
            final(self).wf(),
    {
        proof {
            use_type_invariant(&*self);
        }
        let ghost before = self@;
        let mut v: Vec<T> = Vec::with_capacity(size);
        let mut i: usize = 0;
        while i < size
            invariant
                i <= size <= before.len(),
                self.wf(),
                v@ == before.oldest(i as nat),
                self@ == before.read(i as nat),
            decreases size - i,
        {
            let item: T = self.pop();
            v.push(item);
            i += 1;
        }
        v
    }

    /// Takes up to `size` of the oldest elements out, the oldest first: fewer
    /// where the buffer holds fewer.
    pub fn try_read(&mut self, size: usize) -> (v: Vec<T>)
        ensures
            v@ == old(self)@.oldest(old(self)@.available(size as nat)),
            final(self)@ == old(self)@.read(old(self)@.available(size as nat)),
            final(self).wf(),
    {
        proof {
            use_type_invariant(&*self);
        }
        let ghost before = self@;
        let held: usize = self.ring.len();
        let mut v: Vec<T> = Vec::with_capacity(if size <= held { size } else { held });
        let mut i: usize = 0;
        while i < size
            invariant
                i <= size,
                i <= before.len(),
                before == old(self)@,
                self.wf(),
                v@ == before.oldest(i as nat),
                self@ == before.read(i as nat),
            decreases size - i,
        {
            match self.try_pop() {
                Some(item) => {
                    v.push(item);
                },
                None => {
                    return v;
                },
            }
            i += 1;
        }
        v
    }
}

} // verus!
