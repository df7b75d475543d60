use ring_buffer::RingBuffer;
use std::rc::Rc;

#[test]
fn write_clones_and_leaves_the_source() {
    let words = vec![String::from("a"), String::from("bc"), String::from("def")];
    let mut rb = RingBuffer::new(4);
    rb.write(&words);
    assert_eq!(words.len(), 3);
    assert_eq!(rb.pop(), "a");
    assert_eq!(rb.try_write(&words), 2);
    assert_eq!(rb.read(4), vec!["bc", "def", "a", "bc"]);
    assert_eq!(words, vec!["a", "bc", "def"]);
}

#[test]
fn elements_move_through_without_a_copy() {
    let token = Rc::new(5);
    let mut rb = RingBuffer::new(2);
    rb.push(Rc::clone(&token));
    assert_eq!(Rc::strong_count(&token), 2);
    let back = rb.pop();
    assert_eq!(Rc::strong_count(&token), 2);
    assert!(Rc::ptr_eq(&token, &back));
    drop(back);
    assert_eq!(Rc::strong_count(&token), 1);
}

#[test]
fn a_rejected_element_is_dropped() {
    let token = Rc::new(());
    let mut rb = RingBuffer::new(1);
    assert_eq!(rb.try_push(Rc::clone(&token)), Some(()));
    assert_eq!(rb.try_push(Rc::clone(&token)), None);
    assert_eq!(Rc::strong_count(&token), 2);
}

#[test]
fn live_elements_are_dropped_with_the_buffer() {
    let token = Rc::new(());
    let mut rb = RingBuffer::new(3);
    rb.push(Rc::clone(&token));
    rb.push(Rc::clone(&token));
    rb.push(Rc::clone(&token));
    drop(rb.pop());
    assert_eq!(Rc::strong_count(&token), 3);
    drop(rb);
    assert_eq!(Rc::strong_count(&token), 1);
}

#[test]
fn a_slot_is_empty_once_its_element_came_out() {
    let token = Rc::new(());
    let mut rb = RingBuffer::new(2);
    rb.push(Rc::clone(&token));
    rb.push(Rc::clone(&token));
    assert_eq!(Rc::strong_count(&token), 3);
    let taken = rb.read(2);
    assert_eq!(Rc::strong_count(&token), 3);
    drop(taken);
    // Nothing of the two elements is left behind in the slots.
    assert_eq!(Rc::strong_count(&token), 1);
    assert_eq!(rb.len(), 0);
}

fn takes_what_can_be_sent<S: Send>(_value: &S) {}

#[test]
fn a_buffer_of_sendable_elements_can_be_sent() {
    let rb: RingBuffer<String> = RingBuffer::new(2);
    takes_what_can_be_sent(&rb);
    assert_eq!(rb.len(), 0);
}
