//! The hand-over between a producer and a consumer that share the slots.
//!
//! Where one side puts elements in while another takes them out, neither
//! holds the buffer for itself, and a step of the one may fall between any two
//! steps of the other. Each side then advances only its own position and only
//! looks at the other's. To put an element in, the producer looks at the read
//! position, writes the element into the slot of the write position, and
//! publishes the next write position. To take one out, the consumer looks at
//! the write position, takes the element out of the slot of the read
//! position, and publishes the next read position. What a side saw of the
//! other's position may be out of date by the time it acts on it.
//!
//! This module states those six steps on a value, [`SharedRing`], and proves that
//! in whatever order they are taken
//! * the producer writes only into a slot that holds nothing,
//! * the consumer finds in its slot the oldest element that was published,
//! * the published buffer changes only when a side publishes, and then as by
//!   [`RingState::push`] or [`RingState::pop`].
//!
//! So the published buffer goes through a run of single puts and takes, of
//! which [`RingState::lemma_fifo`] holds.

use crate::laws::Op;
use crate::position::{lemma_reduced_distance, reduced};
use crate::state::RingState;
use vstd::prelude::*;

verus! {

/// A buffer between a producer and a consumer, with what either has under way.
#[verifier::ext_equal]
pub struct SharedRing<T> {
    /// The two published positions and the elements between them.
    pub published: RingState<T>,
    /// What the slots hold.
    pub slots: Seq<Option<T>>,
    /// The read position as the producer last saw it.
    pub seen_read: nat,
    /// The write position as the consumer last saw it.
    pub seen_write: nat,
    /// The element that the producer has written and not yet published.
    pub written: Option<T>,
    /// The element that the consumer has taken and not yet published.
    pub taken: Option<T>,
}

/// One step of one of the two sides.
pub enum Step<T> {
    ProducerLooks,
    ProducerWrites(T),
    ProducerPublishes,
    ConsumerLooks,
    ConsumerTakes,
    ConsumerPublishes,
}

impl<T> SharedRing<T> {
    /// A new buffer, with nothing under way.
    pub open spec fn new(capacity: nat) -> Self {
        SharedRing {
            published: RingState::empty(capacity),
            slots: RingState::<T>::empty(capacity).slots(),
            seen_read: 0,
            seen_write: 0,
            written: None,
            taken: None,
        }
    }

    /// The state that the slots stand for: the published one, with what is
    /// under way already done.
    pub open spec fn in_slots(self) -> RingState<T> {
        let left = if self.taken is Some {
            self.published.pop()
        } else {
            self.published
        };
        match self.written {
            Some(item) => left.push(item),
            None => left,
        }
    }

    /// What holds after any steps.
    pub open spec fn inv(self) -> bool {
        &&& self.published.wf()
        &&& self.seen_read <= self.published.read_pos
        &&& self.published.read_pos <= self.seen_write <= self.published.write_pos
        &&& self.published.write_pos - self.seen_read <= self.published.capacity
        &&& self.written is Some ==> self.published.write_pos - self.seen_read
            < self.published.capacity
        &&& self.taken is Some ==> self.published.read_pos < self.seen_write
        &&& self.taken is Some ==> self.taken == Some(self.published.front())
        &&& self.slots == self.in_slots().slots()
    }

    /// Whether a side may take the step. A side that has something under way
    /// can only publish it. The producer writes only where the read position
    /// it saw leaves room, the consumer takes only where the write position it
    /// saw lies ahead.
    pub open spec fn enabled(self, step: Step<T>) -> bool {
        match step {
            Step::ProducerLooks => true,
            Step::ProducerWrites(_) => self.written is None && self.published.write_pos
                - self.seen_read < self.published.capacity,
            Step::ProducerPublishes => self.written is Some,
            Step::ConsumerLooks => true,
            Step::ConsumerTakes => self.taken is None && self.seen_write
                != self.published.read_pos,
            Step::ConsumerPublishes => self.taken is Some,
        }
    }

    /// The state after a step that the side may take.
    pub open spec fn after(self, step: Step<T>) -> Self {
        let write_slot = self.published.slot_of(self.published.write_pos) as int;
        let read_slot = self.published.slot_of(self.published.read_pos) as int;
        match step {
            Step::ProducerLooks => SharedRing { seen_read: self.published.read_pos, ..self },
            Step::ProducerWrites(item) => SharedRing {
                slots: self.slots.update(write_slot, Some(item)),
                written: Some(item),
                ..self
            },
            Step::ProducerPublishes => SharedRing {
                published: self.published.push(self.written->0),
                written: None,
                ..self
            },
            Step::ConsumerLooks => SharedRing { seen_write: self.published.write_pos, ..self },
            Step::ConsumerTakes => SharedRing {
                slots: self.slots.update(read_slot, None),
                taken: self.slots[read_slot],
                ..self
            },
            Step::ConsumerPublishes => SharedRing {
                published: self.published.pop(),
                taken: None,
                ..self
            },
        }
    }

    /// The state after a step: unchanged where the side may not take it.
    pub open spec fn step(self, step: Step<T>) -> Self {
        if self.enabled(step) {
            self.after(step)
        } else {
            self
        }
    }

    /// The state after the steps `steps`, taken in order.
    pub open spec fn run(self, steps: Seq<Step<T>>) -> Self
        decreases steps.len(),
    {
        if steps.len() == 0 {
            self
        } else {
            self.run(steps.drop_last()).step(steps.last())
        }
    }

    /// What the steps `steps` publish, in order: a put for each element that
    /// the producer publishes, a take for each that the consumer publishes.
    pub open spec fn publishes(self, steps: Seq<Step<T>>) -> Seq<Op<T>>
        decreases steps.len(),
    {
        if steps.len() == 0 {
            Seq::empty()
        } else {
            let earlier = self.publishes(steps.drop_last());
            let before = self.run(steps.drop_last());
            match steps.last() {
                Step::ProducerPublishes => match before.written {
                    Some(item) => earlier.push(Op::Push(item)),
                    None => earlier,
                },
                Step::ConsumerPublishes => if before.taken is Some {
                    earlier.push(Op::Pop)
                } else {
                    earlier
                },
                _ => earlier,
            }
        }
    }

    /// A new buffer meets the invariant.
    pub proof fn lemma_new(capacity: nat)
        requires
            capacity > 0,
        ensures
            Self::new(capacity).inv(),
    {
    }

    /// Looking at the other side's position changes nothing but what was seen.
    pub proof fn lemma_looks(self)
        requires
            self.inv(),
        ensures
            self.after(Step::ProducerLooks).inv(),
            self.after(Step::ConsumerLooks).inv(),
            self.after(Step::ProducerLooks).published == self.published,
            self.after(Step::ConsumerLooks).published == self.published,
            self.after(Step::ProducerLooks).slots == self.slots,
            self.after(Step::ConsumerLooks).slots == self.slots,
    {
    }

    /// The producer writes into a slot that holds nothing, however old the
    /// read position that it saw, and whether or not the consumer has taken an
    /// element meanwhile. Nothing is published by it.
    pub proof fn lemma_producer_writes(self, item: T)
        requires
            self.inv(),
            self.enabled(Step::ProducerWrites(item)),
        ensures
            self.slots[self.published.slot_of(self.published.write_pos) as int] is None,
            self.after(Step::ProducerWrites(item)).inv(),
            self.after(Step::ProducerWrites(item)).published == self.published,
    {
        let left = if self.taken is Some {
            self.published.pop()
        } else {
            self.published
        };
        left.lemma_push_slots(item);
    }

    /// Publishing the write position puts the written element in, as
    /// [`RingState::push`] does. The slots stay as they are.
    pub proof fn lemma_producer_publishes(self)
        requires
            self.inv(),
            self.enabled(Step::ProducerPublishes),
        ensures
            !self.published.is_full(),
            self.after(Step::ProducerPublishes).inv(),
            self.after(Step::ProducerPublishes).published == self.published.push(
                self.written->0,
            ),
            self.after(Step::ProducerPublishes).slots == self.slots,
    {
        assert(self.after(Step::ProducerPublishes).in_slots() == self.in_slots());
    }

    /// The consumer finds in its slot the oldest published element, however
    /// old the write position that it saw, and whether or not the producer has
    /// written an element meanwhile. Nothing is published by it.
    pub proof fn lemma_consumer_takes(self)
        requires
            self.inv(),
            self.enabled(Step::ConsumerTakes),
        ensures
            !self.published.is_empty(),
            self.after(Step::ConsumerTakes).taken == Some(self.published.front()),
            self.after(Step::ConsumerTakes).inv(),
            self.after(Step::ConsumerTakes).published == self.published,
    {
        self.in_slots().lemma_pop_slots();
        assert(self.after(Step::ConsumerTakes).in_slots() == self.in_slots().pop());
    }

    /// Publishing the read position takes the oldest element out, as
    /// [`RingState::pop`] does. The slots stay as they are.
    pub proof fn lemma_consumer_publishes(self)
        requires
            self.inv(),
            self.enabled(Step::ConsumerPublishes),
        ensures
            !self.published.is_empty(),
            self.taken == Some(self.published.front()),
            self.after(Step::ConsumerPublishes).inv(),
            self.after(Step::ConsumerPublishes).published == self.published.pop(),
            self.after(Step::ConsumerPublishes).slots == self.slots,
    {
    }

    /// Every step keeps the invariant.
    pub proof fn lemma_step(self, step: Step<T>)
        requires
            self.inv(),
        ensures
            self.step(step).inv(),
    {
        if self.enabled(step) {
            match step {
                Step::ProducerLooks => self.lemma_looks(),
                Step::ProducerWrites(item) => self.lemma_producer_writes(item),
                Step::ProducerPublishes => self.lemma_producer_publishes(),
                Step::ConsumerLooks => self.lemma_looks(),
                Step::ConsumerTakes => self.lemma_consumer_takes(),
                Step::ConsumerPublishes => self.lemma_consumer_publishes(),
            }
        }
    }

    /// In whatever order the two sides take their steps, the invariant holds
    /// afterwards, and the published buffer is where the single puts and
    /// takes that were published lead, none of them turned down. So no
    /// element is lost, doubled or out of its place.
    pub proof fn lemma_run(self, steps: Seq<Step<T>>)
        requires
            self.inv(),
        ensures
            self.run(steps).inv(),
            self.run(steps).published == self.published.run(self.publishes(steps)),
            self.published.items + self.published.went_in(self.publishes(steps))
                == self.published.came_out(self.publishes(steps)) + self.run(
                steps,
            ).published.items,
        decreases steps.len(),
    {
        let ops = self.publishes(steps);
        if steps.len() > 0 {
            let before = self.run(steps.drop_last());
            self.lemma_run(steps.drop_last());
            before.lemma_step(steps.last());
            if before.enabled(steps.last()) {
                match steps.last() {
                    Step::ProducerPublishes => {
                        before.lemma_producer_publishes();
                        assert(ops.drop_last() =~= self.publishes(steps.drop_last()));
                    },
                    Step::ConsumerPublishes => {
                        before.lemma_consumer_publishes();
                        assert(ops.drop_last() =~= self.publishes(steps.drop_last()));
                    },
                    _ => {},
                }
            }
        }
        self.published.lemma_fifo(ops);
    }

    /// Either side can decide from the reduced positions: the distance
    /// between them is the distance between the position of the one side and
    /// what it saw of the other's.
    pub proof fn lemma_decides_from_reduced(self)
        requires
            self.inv(),
        ensures
            (reduced(self.published.write_pos, self.published.capacity) - reduced(
                self.seen_read,
                self.published.capacity,
            )) % (2 * (self.published.capacity as int)) == self.published.write_pos
                - self.seen_read,
            (reduced(self.seen_write, self.published.capacity) - reduced(
                self.published.read_pos,
                self.published.capacity,
            )) % (2 * (self.published.capacity as int)) == self.seen_write
                - self.published.read_pos,
    {
        lemma_reduced_distance(
            self.seen_read,
            self.published.write_pos,
            self.published.capacity,
        );
        lemma_reduced_distance(
            self.published.read_pos,
            self.seen_write,
            self.published.capacity,
        );
    }

    /// Taken without a step of the consumer in between, the three steps of
    /// the producer are one [`RingState::try_push`]: where the buffer is full
    /// nothing changes, else the element goes in.
    pub proof fn lemma_whole_put(self, item: T)
        requires
            self.inv(),
            self.written is None,
        ensures
            self.step(Step::ProducerLooks).step(Step::ProducerWrites(item)).step(
                Step::ProducerPublishes,
            ).published == self.published.try_push(item),
    {
    }

    /// Taken without a step of the producer in between, the three steps of
    /// the consumer are one [`RingState::try_pop`], and what was taken is
    /// what [`RingState::peek`] shows.
    pub proof fn lemma_whole_take(self)
        requires
            self.inv(),
            self.taken is None,
        ensures
            self.step(Step::ConsumerLooks).step(Step::ConsumerTakes).step(
                Step::ConsumerPublishes,
            ).published == self.published.try_pop(),
            self.step(Step::ConsumerLooks).step(Step::ConsumerTakes).taken
                == self.published.peek(),
    {
        let looked = self.step(Step::ConsumerLooks);
        if looked.enabled(Step::ConsumerTakes) {
            looked.lemma_consumer_takes();
        }
    }

    /// The two sides never both wait: a producer that has just looked and
    /// sees no room, and a consumer that has just looked and sees no
    /// element, cannot be at once.
    pub proof fn lemma_one_side_can_move(self, item: T)
        requires
            self.inv(),
            self.written is None,
            self.taken is None,
        ensures
            self.after(Step::ProducerLooks).enabled(Step::ProducerWrites(item)) || self.after(
                Step::ConsumerLooks,
            ).enabled(Step::ConsumerTakes),
    {
    }
}

} // verus!
