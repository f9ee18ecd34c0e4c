use cflib_rust::console::Console;
use cflib_rust::drain::DrainBatch;
use cflib_rust::drain::PollOutcome;
use cflib_rust::drain::StreamHandle;

#[test]
fn drain_returns_fewer_items_when_fewer_arrived() {
    // Three items arrived within their timeouts; the batch limit is five.
    let mut handle: StreamHandle<u32> = StreamHandle::new();
    handle.push(1);
    handle.push(2);
    handle.push(3);
    let batch = handle.drain(5);
    assert_eq!(batch, vec![1, 2, 3]);
    assert_eq!(handle.len(), 0);
}

#[test]
fn drain_stops_at_the_batch_limit() {
    let mut handle: StreamHandle<u32> = StreamHandle::new();
    for item in 0..10 {
        handle.push(item);
    }
    let batch = handle.drain(4);
    assert_eq!(batch, vec![0, 1, 2, 3]);
    assert_eq!(handle.len(), 6);
}

#[test]
fn consecutive_drains_lose_and_duplicate_nothing() {
    let mut handle: StreamHandle<u32> = StreamHandle::new();
    let emitted: Vec<u32> = (100..107).collect();
    for &item in &emitted {
        handle.push(item);
    }
    let first = handle.drain(3);
    let second = handle.drain(3);
    let third = handle.drain(3);
    let mut joined = Vec::new();
    joined.extend(first);
    joined.extend(second);
    joined.extend(third);
    assert_eq!(joined, emitted);
}

#[test]
fn items_queued_before_the_first_read_are_returned_by_it() {
    // Streams are cumulative: what arrived between creation and the first
    // read is queued, not lost.
    let mut handle: StreamHandle<&'static str> = StreamHandle::new();
    handle.push("early");
    handle.push("also early");
    let batch = handle.drain(100);
    assert_eq!(batch, vec!["early", "also early"]);
}

#[test]
fn drain_of_empty_queue_is_empty() {
    let mut handle: StreamHandle<u8> = StreamHandle::new();
    assert!(handle.drain(100).is_empty());
    assert!(handle.pop().is_none());
}

#[test]
fn pop_hands_out_the_oldest_item() {
    let mut handle: StreamHandle<u8> = StreamHandle::new();
    handle.push(9);
    handle.push(8);
    assert_eq!(handle.pop(), Some(9));
    assert_eq!(handle.pop(), Some(8));
    assert_eq!(handle.pop(), None);
}

#[test]
fn a_read_ends_on_the_first_timeout() {
    // Three items arrive within their waits, then one wait times out: the
    // read returns exactly those three, in order, and asks for no more.
    let mut read: DrainBatch<u32> = DrainBatch::new(5);
    assert!(read.wants_more());
    read.offer(PollOutcome::Item(1));
    read.offer(PollOutcome::Item(2));
    read.offer(PollOutcome::Item(3));
    assert!(read.wants_more());
    read.offer(PollOutcome::TimedOut);
    assert!(!read.wants_more());
    assert_eq!(read.into_items(), vec![1, 2, 3]);
}

#[test]
fn a_read_ends_at_its_batch_limit() {
    let mut read: DrainBatch<u32> = DrainBatch::new(2);
    read.offer(PollOutcome::Item(10));
    assert!(read.wants_more());
    read.offer(PollOutcome::Item(20));
    assert!(!read.wants_more());
    assert_eq!(read.into_items(), vec![10, 20]);
}

#[test]
fn console_buffers_lines_and_reads_them_in_order() {
    let mut console = Console::new();
    console.deliver_line(String::from("SYS: starting"));
    console.deliver_line(String::from("SYS: ready"));
    let lines = console.get_lines();
    assert_eq!(lines, vec!["SYS: starting", "SYS: ready"]);
    assert!(console.get_lines().is_empty());
}

#[test]
fn console_reads_at_most_one_batch_per_call() {
    let mut console = Console::new();
    for i in 0..150 {
        console.deliver_line(format!("line {}", i));
    }
    let first = console.get_lines();
    assert_eq!(first.len(), 100);
    assert_eq!(first[0], "line 0");
    assert_eq!(first[99], "line 99");
    let second = console.get_lines();
    assert_eq!(second.len(), 50);
    assert_eq!(second[0], "line 100");
    assert_eq!(second[49], "line 149");
}
