use ring_buffer::position::{advance, occupancy, slot};

#[test]
fn slot_is_the_remainder() {
    assert_eq!(slot(0, 3), 0);
    assert_eq!(slot(2, 3), 2);
    assert_eq!(slot(3, 3), 0);
    assert_eq!(slot(5, 3), 2);
    assert_eq!(slot(0, 1), 0);
    assert_eq!(slot(1, 1), 0);
}

#[test]
fn advance_goes_round_at_twice_the_capacity() {
    assert_eq!(advance(0, 3), 1);
    assert_eq!(advance(2, 3), 3);
    assert_eq!(advance(4, 3), 5);
    assert_eq!(advance(5, 3), 0);
    assert_eq!(advance(0, 1), 1);
    assert_eq!(advance(1, 1), 0);
}

#[test]
fn occupancy_is_the_distance_going_round() {
    assert_eq!(occupancy(0, 0, 3), 0);
    assert_eq!(occupancy(3, 0, 3), 3);
    assert_eq!(occupancy(5, 4, 3), 1);
    assert_eq!(occupancy(1, 4, 3), 3);
    assert_eq!(occupancy(0, 5, 3), 1);
    assert_eq!(occupancy(2, 5, 3), 3);
    assert_eq!(occupancy(1, 0, 1), 1);
    assert_eq!(occupancy(0, 1, 1), 1);
    assert_eq!(occupancy(1, 1, 1), 0);
}

#[test]
fn positions_that_advance_together_keep_their_distance() {
    let capacity = 4;
    let mut read = 0;
    let mut write = 0;
    for _ in 0..3 {
        write = advance(write, capacity);
    }
    for _ in 0..25 {
        assert_eq!(occupancy(write, read, capacity), 3);
        assert_eq!(slot(write, capacity), (slot(read, capacity) + 3) % capacity);
        write = advance(write, capacity);
        read = advance(read, capacity);
    }
}
