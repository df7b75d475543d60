//! What holds of every ring buffer.
//!
//! The laws are stated of [`RingState`], the value that the contracts of
//! [`RingBuffer`](crate::buffer::RingBuffer) speak of, so each one holds of
//! every buffer that the library makes.

use crate::state::RingState;
use vstd::prelude::*;

verus! {

/// One step at a buffer: an attempt to put an element in, or an attempt to
/// take one out.
pub enum Op<T> {
    Push(T),
    Pop,
}

impl<T> RingState<T> {
    /// The state after one step. A step that finds the buffer full, or empty,
    /// changes nothing.
    pub open spec fn step(self, op: Op<T>) -> Self {
        match op {
            Op::Push(item) => self.try_push(item),
            Op::Pop => self.try_pop(),
        }
    }

    /// The state after the steps `ops`, taken in order.
    pub open spec fn run(self, ops: Seq<Op<T>>) -> Self
        decreases ops.len(),
    {
        if ops.len() == 0 {
            self
        } else {
            self.run(ops.drop_last()).step(ops.last())
        }
    }

    /// The elements that went in during the steps `ops`, in the order in
    /// which they went in.
    pub open spec fn went_in(self, ops: Seq<Op<T>>) -> Seq<T>
        decreases ops.len(),
    {
        if ops.len() == 0 {
            Seq::empty()
        } else {
            let earlier = self.went_in(ops.drop_last());
            match ops.last() {
                Op::Push(item) => if self.run(ops.drop_last()).is_full() {
                    earlier
                } else {
                    earlier.push(item)
                },
                Op::Pop => earlier,
            }
        }
    }

    /// The elements that came out during the steps `ops`, in the order in
    /// which they came out.
    pub open spec fn came_out(self, ops: Seq<Op<T>>) -> Seq<T>
        decreases ops.len(),
    {
        if ops.len() == 0 {
            Seq::empty()
        } else {
            let earlier = self.came_out(ops.drop_last());
            match ops.last() {
                Op::Push(_) => earlier,
                Op::Pop => match self.run(ops.drop_last()).peek() {
                    Some(item) => earlier.push(item),
                    None => earlier,
                },
            }
        }
    }

    /// First in, first out: whatever the steps and however they alternate,
    /// the elements come out in the order in which they went in. What was
    /// live at the start, followed by what went in, is what came out,
    /// followed by what is live at the end. So what came out of a buffer
    /// that was empty at the start is the front of what went in, and what is
    /// live at the end is the rest.
    pub proof fn lemma_fifo(self, ops: Seq<Op<T>>)
        requires
            self.wf(),
        ensures
            self.run(ops).wf(),
            self.run(ops).capacity == self.capacity,
            self.items + self.went_in(ops) == self.came_out(ops) + self.run(ops).items,
            self.is_empty() ==> self.came_out(ops) == self.went_in(ops).take(
                self.came_out(ops).len() as int,
            ),
            self.is_empty() ==> self.run(ops).items == self.went_in(ops).skip(
                self.came_out(ops).len() as int,
            ),
        decreases ops.len(),
    {
        if ops.len() > 0 {
            self.lemma_fifo(ops.drop_last());
            if let Op::Push(item) = ops.last() {
                let went_in = self.went_in(ops.drop_last());
                assert(self.items + went_in.push(item) =~= (self.items + went_in).push(item));
            }
        }
    }

    /// The positions count the elements: after any steps the write position
    /// has grown by the number of elements that went in and the read position
    /// by the number that came out, and the number of live elements is the
    /// one less the other.
    pub proof fn lemma_occupancy(self, ops: Seq<Op<T>>)
        requires
            self.wf(),
        ensures
            self.run(ops).write_pos == self.write_pos + self.went_in(ops).len(),
            self.run(ops).read_pos == self.read_pos + self.came_out(ops).len(),
            self.run(ops).len() == self.run(ops).write_pos - self.run(ops).read_pos,
            self.run(ops).len() == self.len() + self.went_in(ops).len() - self.came_out(
                ops,
            ).len(),
        decreases ops.len(),
    {
        if ops.len() > 0 {
            self.lemma_occupancy(ops.drop_last());
        }
    }

    /// Writing a sequence is putting its elements in one after the other.
    pub proof fn lemma_write_is_pushing(self, xs: Seq<T>, item: T)
        ensures
            self.write(Seq::empty()) == self,
            self.write(xs.push(item)) == self.write(xs).push(item),
    {
    }

    /// Reading `n` elements is taking the oldest out, `n` times over.
    pub proof fn lemma_read_is_popping(self, n: nat)
        requires
            n < self.len(),
        ensures
            self.read(0) == self,
            self.oldest(0) == Seq::<T>::empty(),
            self.read(n + 1) == self.read(n).pop(),
            self.oldest(n + 1) == self.oldest(n).push(self.read(n).front()),
    {
    }

    /// An attempt that cannot be met is turned down and changes nothing: to
    /// put an element into a full buffer, or to take one out of an empty one.
    pub proof fn lemma_turned_down(self, item: T)
        ensures
            self.is_full() ==> self.try_push(item) == self,
            self.is_empty() ==> self.try_pop() == self && self.peek() is None,
            !self.is_full() ==> self.try_push(item) == self.push(item),
            !self.is_empty() ==> self.try_pop() == self.pop() && self.peek() == Some(
                self.front(),
            ),
    {
    }

    /// The capacity bounds the buffer: once as many elements went into an
    /// empty buffer as it has slots, and none came out, that many are live,
    /// the buffer is full, and an attempt to put one more in is turned down
    /// and changes nothing.
    pub proof fn lemma_capacity_bound(self, xs: Seq<T>, extra: T)
        requires
            self.wf(),
            self.is_empty(),
            xs.len() == self.capacity,
        ensures
            self.write(xs).wf(),
            self.write(xs).len() == self.capacity,
            self.write(xs).write_pos - self.write(xs).read_pos == self.capacity,
            self.write(xs).is_full(),
            self.write(xs).try_push(extra) == self.write(xs),
    {
    }

    /// Offered more than fits, an attempt to write takes exactly as many
    /// elements as were free, from the front of what was offered, and leaves
    /// the buffer full.
    pub proof fn lemma_bulk_prefix(self, xs: Seq<T>)
        requires
            self.wf(),
            xs.len() > self.free(),
        ensures
            self.accepted(xs.len()) == self.free(),
            self.write(xs.take(self.free() as int)).wf(),
            self.write(xs.take(self.free() as int)).is_full(),
            self.write(xs.take(self.free() as int)).items == self.items + xs.take(
                self.free() as int,
            ),
    {
    }

    /// Slots that were vacated are used again: after `n` elements came out of
    /// a full buffer, exactly `n` fit again, they end up behind the elements
    /// that stayed, and the `i`-th of them sits in the slot that the `i`-th of
    /// those that came out had.
    pub proof fn lemma_refill(self, n: nat, ys: Seq<T>, i: nat)
        requires
            self.wf(),
            self.is_full(),
            n <= self.capacity,
            ys.len() >= n,
            i < n,
        ensures
            self.read(n).wf(),
            self.read(n).accepted(ys.len()) == n,
            self.read(n).write(ys.take(n as int)).wf(),
            self.read(n).write(ys.take(n as int)).is_full(),
            self.read(n).write(ys.take(n as int)).items == self.items.skip(n as int) + ys.take(
                n as int,
            ),
            self.slot_of(self.write_pos + i) == self.slot_of(self.read_pos + i),
    {
        vstd::arithmetic::div_mod::lemma_mod_add_multiples_vanish(
            (self.read_pos + i) as int,
            self.capacity as int,
        );
    }

    /// What was written into an empty buffer is read back as it was, in
    /// order, and the buffer is empty again.
    pub proof fn lemma_round_trip(self, xs: Seq<T>)
        requires
            self.wf(),
            self.is_empty(),
            xs.len() <= self.capacity,
        ensures
            xs.len() <= self.free(),
            self.write(xs).wf(),
            self.write(xs).len() == xs.len(),
            self.write(xs).oldest(xs.len()) == xs,
            self.write(xs).read(xs.len()).wf(),
            self.write(xs).read(xs.len()).is_empty(),
    {
    }
}

} // verus!
