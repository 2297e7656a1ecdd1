use arn::deque::{Deque, Position};

#[test]
fn new_deque_is_empty() {
    let d: Deque<i128> = Deque::new();
    assert!(d.is_empty());
    assert_eq!(d.len(), 0);
}

#[test]
fn push_front_and_back_keep_order() {
    let mut d: Deque<i128> = Deque::with_allocation(10);
    d.push_front(38);
    d.push_front(23);
    d.push_back(103);
    assert_eq!(d.to_vec(), vec![23, 38, 103]);
    assert_eq!(*d.get_top(), 103);
    assert_eq!(d.len(), 3);
}

#[test]
fn dequeue_back_takes_the_last_entry() {
    let mut d: Deque<i128> = Deque::with_allocation(4);
    d.queue(1, Position::BACK);
    d.queue(2, Position::BACK);
    assert_eq!(d.dequeue(Position::BACK), Some(2));
    assert_eq!(d.dequeue(Position::BACK), Some(1));
    assert_eq!(d.dequeue(Position::BACK), None);
}

#[test]
fn dequeue_front_rotates_then_pops() {
    let mut d: Deque<i128> = Deque::with_allocation(4);
    d.queue(1, Position::BACK);
    d.queue(2, Position::BACK);
    d.queue(3, Position::BACK);
    assert_eq!(d.dequeue(Position::FRONT), Some(2));
    assert_eq!(d.to_vec(), vec![3, 1]);
    let mut one: Deque<i128> = Deque::new();
    one.push_back(7);
    assert_eq!(one.dequeue(Position::FRONT), Some(7));
    assert!(one.is_empty());
}

#[test]
fn find_entry_gives_the_first_index() {
    let mut d: Deque<i128> = Deque::new();
    d.push_back(5);
    d.push_back(6);
    d.push_back(5);
    assert_eq!(d.find_entry(5), Some(0));
    assert_eq!(d.find_entry(6), Some(1));
    assert_eq!(d.find_entry(9), None);
    d.remove(0);
    assert_eq!(d.find_entry(5), Some(1));
}
