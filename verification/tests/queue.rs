use watchtower::ids::{RevokeableOutput, Txid};
use watchtower::queue::PendingQueue;

fn output(n: u64) -> RevokeableOutput {
    RevokeableOutput {
        commitment_number: n,
        commitment_txid: Txid { bytes: [n as u8; 32] },
        output_idx: 0,
        value: 1_000 * n,
    }
}

#[test]
fn new_queue_is_empty() {
    let mut queue = PendingQueue::new();
    assert!(queue.is_empty());
    assert_eq!(queue.len(), 0);
    assert_eq!(queue.peek_front(), None);
    assert_eq!(queue.pop_front(), None);
    assert!(queue.is_empty());
}

#[test]
fn outputs_leave_in_the_order_they_came() {
    let mut queue = PendingQueue::new();
    queue.enqueue(output(1));
    queue.enqueue(output(2));
    queue.enqueue(output(3));
    assert_eq!(queue.len(), 3);
    assert_eq!(queue.pop_front(), Some(output(1)));
    assert_eq!(queue.pop_front(), Some(output(2)));
    queue.enqueue(output(4));
    assert_eq!(queue.pop_front(), Some(output(3)));
    assert_eq!(queue.pop_front(), Some(output(4)));
    assert_eq!(queue.pop_front(), None);
}

#[test]
fn peek_keeps_the_front() {
    let mut queue = PendingQueue::new();
    queue.enqueue(output(5));
    queue.enqueue(output(6));
    assert_eq!(queue.peek_front(), Some(output(5)));
    assert_eq!(queue.peek_front(), Some(output(5)));
    assert_eq!(queue.len(), 2);
    assert!(!queue.is_empty());
}

#[test]
fn extend_appends_in_order() {
    let mut queue = PendingQueue::new();
    queue.enqueue(output(1));
    queue.extend(&vec![output(2), output(3)]);
    queue.extend(&vec![]);
    assert_eq!(queue.len(), 3);
    assert_eq!(queue.pop_front(), Some(output(1)));
    assert_eq!(queue.pop_front(), Some(output(2)));
    assert_eq!(queue.pop_front(), Some(output(3)));
}

#[test]
fn same_output_may_wait_twice() {
    let mut queue = PendingQueue::new();
    queue.enqueue(output(1));
    queue.enqueue(output(1));
    assert_eq!(queue.len(), 2);
}
