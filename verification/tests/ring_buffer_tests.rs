use cmdash::ring_buffer::RingBuffer;

#[test]
fn full_buffer_keeps_final_pushes_in_order() {
    // Six pushes into capacity four: peeking the whole buffer returns the
    // final four pushed values, most recent first.
    let mut rb: RingBuffer<u32, 4> = RingBuffer::new();
    for v in 1..=6u32 {
        rb.push(v);
    }
    let last = rb.peek_last_n(4);
    assert_eq!(last, vec![&6, &5, &4, &3]);
}

#[test]
fn partial_buffer_keeps_recent_pushes() {
    // Three pushes into capacity eight: the two most recent are exactly the
    // last two pushed.
    let mut rb: RingBuffer<String, 8> = RingBuffer::new();
    rb.push(String::from("a"));
    rb.push(String::from("b"));
    rb.push(String::from("c"));
    let last = rb.peek_last_n(2);
    assert_eq!(last[0].as_str(), "c");
    assert_eq!(last[1].as_str(), "b");
}

#[test]
fn fresh_buffer_holds_defaults() {
    let rb: RingBuffer<String, 3> = RingBuffer::new();
    let last = rb.peek_last_n(3);
    assert_eq!(last, vec![&String::new(), &String::new(), &String::new()]);
}

#[test]
fn capacity_one_keeps_only_newest() {
    let mut rb: RingBuffer<u32, 1> = RingBuffer::new();
    rb.push(10);
    rb.push(20);
    assert_eq!(rb.peek_last_n(1), vec![&20]);
}

#[test]
fn peek_zero_is_empty() {
    let mut rb: RingBuffer<u32, 4> = RingBuffer::new();
    rb.push(1);
    assert!(rb.peek_last_n(0).is_empty());
}

#[test]
fn wraparound_overwrites_oldest() {
    let mut rb: RingBuffer<u32, 3> = RingBuffer::new();
    for v in [1, 2, 3, 4] {
        rb.push(v);
    }
    // 1 was overwritten; the retained values are 4, 3, 2.
    assert_eq!(rb.peek_last_n(3), vec![&4, &3, &2]);
}
