use ring_buffer::RingBuffer;

#[test]
fn push_pop() {
    let mut rb = RingBuffer::new(1);
    rb.push(1);
    assert_eq!(rb.len(), 1);
    assert_eq!(rb.pop(), 1);
    assert_eq!(rb.len(), 0);
}

#[test]
fn try_push_pop() {
    let mut rb = RingBuffer::new(2);
    assert_eq!(Some(()), rb.try_push(1));
    assert_eq!(Some(()), rb.try_push(2));
    assert_eq!(None, rb.try_push(3));
    assert_eq!(Some(1), rb.try_pop());
    assert_eq!(Some(2), rb.try_pop());
    assert_eq!(None, rb.try_pop());
}

#[test]
fn read() {
    let mut rb = RingBuffer::new(3);
    rb.push(1);
    rb.push(2);
    rb.push(3);
    assert_eq!(rb.read(3), vec![1, 2, 3]);
}

#[test]
fn write() {
    let mut rb = RingBuffer::new(3);
    rb.write(&vec![1, 2, 3]);
    assert_eq!(rb.read(3), vec![1, 2, 3]);
}

#[test]
fn try_read() {
    let mut rb = RingBuffer::new(3);
    rb.push(1);
    rb.push(2);
    rb.push(3);
    assert_eq!(rb.try_read(4), vec![1, 2, 3]);
}

#[test]
fn try_write() {
    let mut rb = RingBuffer::new(3);
    rb.try_write(&vec![1, 2, 3, 4]);
    assert_eq!(rb.read(3), vec![1, 2, 3]);
}

#[test]
fn try_write_gives_the_number_that_went_in() {
    let mut rb = RingBuffer::new(3);
    assert_eq!(rb.try_write(&[1, 2, 3, 4]), 3);
    assert_eq!(rb.len(), 3);
    assert_eq!(rb.read(3), vec![1, 2, 3]);
    assert_eq!(rb.len(), 0);
}

#[test]
fn new_buffer_is_empty() {
    let mut rb: RingBuffer<u8> = RingBuffer::new(4);
    assert_eq!(rb.len(), 0);
    assert_eq!(rb.capacity(), 4);
    assert_eq!(rb.try_pop(), None);
    assert_eq!(rb.try_read(4), Vec::<u8>::new());
}

#[test]
fn try_push_on_a_full_buffer_changes_nothing() {
    let mut rb = RingBuffer::new(2);
    rb.push(10);
    rb.push(20);
    assert_eq!(rb.try_push(30), None);
    assert_eq!(rb.try_push(40), None);
    assert_eq!(rb.len(), 2);
    assert_eq!(rb.read(2), vec![10, 20]);
}

#[test]
fn try_pop_on_an_empty_buffer_changes_nothing() {
    let mut rb = RingBuffer::new(2);
    assert_eq!(rb.try_pop(), None::<i32>);
    assert_eq!(rb.len(), 0);
    rb.push(5);
    assert_eq!(rb.try_pop(), Some(5));
    assert_eq!(rb.try_pop(), None);
    assert_eq!(rb.try_pop(), None);
    assert_eq!(rb.len(), 0);
    assert_eq!(rb.try_push(6), Some(()));
    assert_eq!(rb.pop(), 6);
}

#[test]
fn bulk_calls_with_nothing_to_do() {
    let mut rb = RingBuffer::new(2);
    rb.write(&[]);
    assert_eq!(rb.try_write(&[]), 0);
    assert_eq!(rb.read(0), Vec::<i32>::new());
    assert_eq!(rb.try_read(0), Vec::<i32>::new());
    rb.push(1);
    rb.push(2);
    assert_eq!(rb.try_write(&[3]), 0);
    assert_eq!(rb.try_read(0), Vec::<i32>::new());
    assert_eq!(rb.read(2), vec![1, 2]);
}

#[test]
fn try_read_gives_what_there_is() {
    let mut rb = RingBuffer::new(5);
    rb.write(&[1, 2, 3]);
    assert_eq!(rb.try_read(2), vec![1, 2]);
    assert_eq!(rb.try_read(2), vec![3]);
    assert_eq!(rb.try_read(2), Vec::<i32>::new());
    assert_eq!(rb.len(), 0);
}

#[test]
fn try_write_that_fits_takes_all() {
    let mut rb = RingBuffer::new(5);
    assert_eq!(rb.try_write(&[1, 2]), 2);
    assert_eq!(rb.try_write(&[3, 4, 5]), 3);
    assert_eq!(rb.try_write(&[6]), 0);
    assert_eq!(rb.read(5), vec![1, 2, 3, 4, 5]);
}

#[test]
fn try_read_takes_any_size() {
    let mut rb = RingBuffer::new(2);
    rb.push(1);
    assert_eq!(rb.try_read(usize::MAX), vec![1]);
    assert_eq!(rb.try_read(usize::MAX), Vec::<i32>::new());
}
