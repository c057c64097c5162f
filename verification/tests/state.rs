use channel::state::Inner;
use std::collections::VecDeque;

#[test]
fn fresh_state_has_one_sender_and_no_value() {
    let inner: Inner<u32> = Inner::new();
    assert_eq!(inner.sender_count(), 1);
    assert_eq!(inner.queued(), 0);
}

#[test]
fn poll_on_fresh_state_says_wait() {
    let mut inner: Inner<u32> = Inner::new();
    let mut buffer = VecDeque::new();
    let mut out = Some(9);
    assert!(inner.poll_into(&mut buffer, &mut out));
    assert_eq!(out, None);
    assert!(buffer.is_empty());
    assert_eq!(inner.queued(), 0);
    assert_eq!(inner.sender_count(), 1);
}

#[test]
fn poll_without_senders_says_closed() {
    let mut inner: Inner<u32> = Inner::new();
    assert!(inner.remove_sender());
    assert_eq!(inner.sender_count(), 0);
    let mut buffer = VecDeque::new();
    let mut out = None;
    assert!(!inner.poll_into(&mut buffer, &mut out));
    assert_eq!(out, None);
    assert!(buffer.is_empty());
}

#[test]
fn poll_takes_the_single_value() {
    let mut inner = Inner::new();
    inner.push(100);
    assert_eq!(inner.queued(), 1);
    let mut buffer = VecDeque::new();
    let mut out = None;
    assert!(!inner.poll_into(&mut buffer, &mut out));
    assert_eq!(out, Some(100));
    assert!(buffer.is_empty());
    assert_eq!(inner.queued(), 0);
}

#[test]
fn poll_moves_the_rest_to_the_buffer() {
    let mut inner = Inner::new();
    inner.push(1);
    inner.push(2);
    inner.push(3);
    let mut buffer = VecDeque::new();
    let mut out = None;
    assert!(!inner.poll_into(&mut buffer, &mut out));
    assert_eq!(out, Some(1));
    assert_eq!(buffer, VecDeque::from(vec![2, 3]));
    assert_eq!(inner.queued(), 0);
    assert_eq!(inner.sender_count(), 1);
}

#[test]
fn poll_drains_values_after_the_last_sender_left() {
    let mut inner = Inner::new();
    inner.push(4);
    assert!(inner.remove_sender());
    let mut buffer = VecDeque::new();
    let mut out = None;
    assert!(!inner.poll_into(&mut buffer, &mut out));
    assert_eq!(out, Some(4));
    assert!(!inner.poll_into(&mut buffer, &mut out));
    assert_eq!(out, None);
}

#[test]
fn senders_are_counted_in_and_out() {
    let mut inner: Inner<()> = Inner::new();
    inner.add_sender();
    inner.add_sender();
    assert_eq!(inner.sender_count(), 3);
    assert!(!inner.remove_sender());
    assert!(!inner.remove_sender());
    assert_eq!(inner.sender_count(), 1);
    assert!(inner.remove_sender());
    assert_eq!(inner.sender_count(), 0);
}

#[test]
fn poll_takes_from_the_buffer_before_the_queue() {
    let mut inner = Inner::new();
    inner.push(3);
    inner.push(4);
    let mut buffer = VecDeque::from(vec![1, 2]);
    let mut out = None;
    assert!(!inner.poll_into(&mut buffer, &mut out));
    assert_eq!(out, Some(1));
    assert_eq!(buffer, VecDeque::from(vec![2]));
    assert_eq!(inner.queued(), 2);
    assert!(!inner.poll_into(&mut buffer, &mut out));
    assert_eq!(out, Some(2));
    assert!(buffer.is_empty());
    assert_eq!(inner.queued(), 2);
    assert!(!inner.poll_into(&mut buffer, &mut out));
    assert_eq!(out, Some(3));
    assert_eq!(buffer, VecDeque::from(vec![4]));
    assert_eq!(inner.queued(), 0);
    assert!(!inner.poll_into(&mut buffer, &mut out));
    assert_eq!(out, Some(4));
    assert!(inner.poll_into(&mut buffer, &mut out));
    assert_eq!(out, None);
    assert_eq!(inner.sender_count(), 1);
}

#[test]
fn every_split_of_the_stream_comes_out_alike() {
    let values = vec![10, 20, 30, 40];
    for cut in 0..=values.len() {
        let mut inner = Inner::new();
        let mut buffer: VecDeque<i32> = values[..cut].iter().copied().collect();
        for value in &values[cut..] {
            inner.push(*value);
        }
        let mut got = Vec::new();
        let mut out = None;
        while !inner.poll_into(&mut buffer, &mut out) {
            got.push(out.take().unwrap());
        }
        assert_eq!(got, values);
        assert_eq!(out, None);
    }
}
