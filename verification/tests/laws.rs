use ring_buffer::RingBuffer;

#[test]
fn elements_come_out_in_the_order_they_went_in() {
    let mut rb = RingBuffer::new(3);
    let mut next_in: u32 = 0;
    let mut next_out: u32 = 0;
    // Alternate bursts of pushes and pops of varying length, going round the
    // slots many times.
    for round in 0..200u32 {
        let burst = round % 4;
        for _ in 0..burst {
            if rb.try_push(next_in).is_some() {
                next_in += 1;
            }
        }
        let drain = (round / 2) % 3;
        for _ in 0..drain {
            if let Some(x) = rb.try_pop() {
                assert_eq!(x, next_out);
                next_out += 1;
            }
        }
    }
    while let Some(x) = rb.try_pop() {
        assert_eq!(x, next_out);
        next_out += 1;
    }
    assert_eq!(next_in, next_out);
    assert!(next_in > 100);
}

#[test]
fn as_many_elements_fit_as_there_are_slots() {
    for capacity in 1..=8usize {
        let mut rb = RingBuffer::new(capacity);
        for i in 0..capacity {
            assert_eq!(rb.len(), i);
            assert_eq!(rb.try_push(i), Some(()));
        }
        assert_eq!(rb.len(), capacity);
        assert_eq!(rb.try_push(99), None);
        assert_eq!(rb.len(), capacity);
        let expected: Vec<usize> = (0..capacity).collect();
        assert_eq!(rb.read(capacity), expected);
    }
}

#[test]
fn len_is_pushes_less_pops() {
    let mut rb = RingBuffer::new(4);
    let mut pushes: usize = 0;
    let mut pops: usize = 0;
    for step in 0..1000usize {
        // A fixed but irregular choice between the two steps.
        if (step * 7 + step / 3) % 5 < 3 {
            if rb.try_push(step).is_some() {
                pushes += 1;
            }
        } else if rb.try_pop().is_some() {
            pops += 1;
        }
        assert_eq!(rb.len(), pushes - pops);
        assert!(rb.len() <= 4);
    }
    assert!(pushes > 100 && pops > 100);
}

#[test]
fn vacated_slots_are_used_again() {
    let mut rb = RingBuffer::new(4);
    assert_eq!(rb.try_write(&[1, 2, 3, 4, 5, 6]), 4);
    assert_eq!(rb.read(2), vec![1, 2]);
    assert_eq!(rb.try_write(&[5, 6, 7]), 2);
    assert_eq!(rb.len(), 4);
    assert_eq!(rb.try_push(7), None);
    assert_eq!(rb.read(3), vec![3, 4, 5]);
    rb.write(&[7, 8, 9]);
    assert_eq!(rb.read(4), vec![6, 7, 8, 9]);
    assert_eq!(rb.len(), 0);
}

#[test]
fn what_was_written_is_read_back() {
    for capacity in 1..=6usize {
        for n in 0..=capacity {
            let xs: Vec<u64> = (0..n as u64).map(|i| i * i + 1).collect();
            let mut rb = RingBuffer::new(capacity);
            rb.write(&xs);
            assert_eq!(rb.len(), n);
            assert_eq!(rb.read(n), xs);
            assert_eq!(rb.len(), 0);
        }
    }
}

#[test]
fn what_was_written_is_read_back_wherever_the_positions_stand() {
    let xs = vec![7, 8, 9];
    let mut rb = RingBuffer::new(3);
    for shift in 0..20 {
        rb.write(&xs);
        assert_eq!(rb.read(3), xs);
        // Move both positions one on before the next round.
        rb.push(shift);
        assert_eq!(rb.pop(), shift);
    }
}

#[test]
fn a_buffer_of_one_slot_goes_round() {
    let mut rb = RingBuffer::new(1);
    for i in 0..10 {
        assert_eq!(rb.len(), 0);
        assert_eq!(rb.try_pop(), None);
        rb.push(i);
        assert_eq!(rb.len(), 1);
        assert_eq!(rb.try_push(100 + i), None);
        assert_eq!(rb.pop(), i);
    }
}

#[test]
fn a_full_buffer_stays_in_order_while_it_goes_round() {
    let mut rb = RingBuffer::new(3);
    rb.write(&[0, 1, 2]);
    for i in 3..50 {
        assert_eq!(rb.len(), 3);
        assert_eq!(rb.pop(), i - 3);
        rb.push(i);
    }
    assert_eq!(rb.read(3), vec![47, 48, 49]);
}
