//! Arithmetic on the two positions of a ring buffer.
//!
//! A position counts elements and grows without bound, so no machine word
//! holds it. What is kept is the position reduced modulo twice the capacity.
//! That is enough: the slot of a position and the distance between the two
//! positions of a buffer can be computed from the reduced values, and a full
//! buffer (distance `capacity`) still differs from an empty one (distance 0).
//!
//! The functions here take and return plain integers. Each side of a buffer
//! advances only its own position, so they also serve where the two
//! positions are kept apart from each other.

use vstd::arithmetic::div_mod::{
    lemma_add_mod_noop,
    lemma_mod_add_multiples_vanish,
    lemma_mod_mod,
    lemma_small_mod,
    lemma_sub_mod_noop,
};
use vstd::prelude::*;

verus! {

/// What is kept of a position: its remainder modulo twice the capacity.
pub open spec fn reduced(pos: nat, capacity: nat) -> nat {
    pos % (2 * capacity)
}

/// The slot of a position can be computed from the reduced position.
pub proof fn lemma_reduced_slot(pos: nat, capacity: nat)
    requires
        capacity > 0,
    ensures
        reduced(pos, capacity) % capacity == pos % capacity,
{
    lemma_mod_mod(pos as int, capacity as int, 2);
}

/// Advancing a reduced position gives the reduced next position.
pub proof fn lemma_reduced_advance(pos: nat, capacity: nat)
    requires
        capacity > 0,
    ensures
        (reduced(pos, capacity) + 1) % (2 * capacity) == reduced(pos + 1, capacity),
{
    let m: int = 2 * (capacity as int);
    lemma_small_mod(1, m as nat);
    lemma_add_mod_noop(pos as int, 1, m);
}

/// The distance between the two positions of a buffer can be computed from
/// the reduced positions.
pub proof fn lemma_reduced_distance(read_pos: nat, write_pos: nat, capacity: nat)
    requires
        capacity > 0,
        read_pos <= write_pos <= read_pos + capacity,
    ensures
        (reduced(write_pos, capacity) - reduced(read_pos, capacity)) % (2 * (capacity as int))
            == write_pos - read_pos,
{
    let m: int = 2 * (capacity as int);
    lemma_sub_mod_noop(write_pos as int, read_pos as int, m);
    lemma_small_mod((write_pos - read_pos) as nat, m as nat);
}

/// The slot of a position.
pub fn slot(pos: usize, capacity: usize) -> (i: usize)
    requires
        capacity > 0,
    ensures
        i == pos % capacity,
        i < capacity,
    no_unwind
{
    pos % capacity
}

/// The position after `pos`, reduced.
pub fn advance(pos: usize, capacity: usize) -> (next: usize)
    requires
        0 < capacity <= usize::MAX / 2,
        pos < 2 * capacity,
    ensures
        next == (pos + 1) % (2 * capacity),
        next < 2 * capacity,
    no_unwind
{
    proof {
        let m: int = 2 * capacity;
        if pos + 1 < m {
            lemma_small_mod((pos + 1) as nat, m as nat);
        }
    }
    if pos + 1 == 2 * capacity {
        0
    } else {
        pos + 1
    }
}

/// The distance from the reduced position `read` forward to the reduced
/// position `write`, going round at twice the capacity.
pub fn occupancy(write: usize, read: usize, capacity: usize) -> (n: usize)
    requires
        0 < capacity <= usize::MAX / 2,
        write < 2 * capacity,
        read < 2 * capacity,
    ensures
        n == (write - read) % (2 * capacity),
    no_unwind
{
    proof {
        let m: int = 2 * capacity;
        if write >= read {
            lemma_small_mod((write - read) as nat, m as nat);
        } else {
            lemma_mod_add_multiples_vanish(write - read, m);
            lemma_small_mod((m + (write - read)) as nat, m as nat);
        }
    }
    if write >= read {
        write - read
    } else {
        2 * capacity - read + write
    }
}

} // verus!
