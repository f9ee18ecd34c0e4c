use cflib_rust::bridge::AppChannel;
use cflib_rust::bridge::Platform;
use cflib_rust::error::Error;

#[test]
fn oversized_send_is_refused_before_the_pump() {
    let mut channel = AppChannel::new();
    let too_big = vec![0u8; 32];
    let result = channel.send(too_big);
    assert!(matches!(result, Err(Error::Validation)));
    // The payload never reached the outbound queue, so the pump can never
    // see it.
    assert!(channel.pop_outgoing().is_none());
}

#[test]
fn mtu_sized_send_succeeds() {
    let mut channel = AppChannel::new();
    let at_mtu = vec![7u8; 31];
    assert!(channel.send(at_mtu.clone()).is_ok());
    assert_eq!(channel.pop_outgoing(), Some(at_mtu));
}

#[test]
fn sends_reach_the_pump_in_order() {
    let mut channel = AppChannel::new();
    channel.send(vec![1]).unwrap();
    channel.send(vec![2]).unwrap();
    channel.send(vec![3]).unwrap();
    assert_eq!(channel.pop_outgoing(), Some(vec![1]));
    assert_eq!(channel.pop_outgoing(), Some(vec![2]));
    assert_eq!(channel.pop_outgoing(), Some(vec![3]));
    assert_eq!(channel.pop_outgoing(), None);
}

#[test]
fn send_after_close_fails_with_closed_channel() {
    let mut channel = AppChannel::new();
    channel.close_send();
    let result = channel.send(vec![1, 2, 3]);
    assert!(matches!(result, Err(Error::ConnectionLost)));
    assert!(channel.pop_outgoing().is_none());
}

#[test]
fn receive_drains_buffered_packets_in_arrival_order() {
    let mut channel = AppChannel::new();
    channel.deliver_incoming(vec![0xaa]);
    channel.deliver_incoming(vec![0xbb, 0xcc]);
    let batch = channel.receive();
    assert_eq!(batch, vec![vec![0xaa], vec![0xbb, 0xcc]]);
    assert!(channel.receive().is_empty());
}

#[test]
fn receive_keeps_draining_after_close() {
    let mut channel = AppChannel::new();
    channel.deliver_incoming(vec![1]);
    channel.close_send();
    assert_eq!(channel.receive(), vec![vec![1]]);
}

#[test]
fn consecutive_receives_preserve_the_arrival_order() {
    let mut channel = AppChannel::new();
    for i in 0..130u8 {
        channel.deliver_incoming(vec![i]);
    }
    let first = channel.receive();
    let second = channel.receive();
    assert_eq!(first.len(), 100);
    assert_eq!(second.len(), 30);
    let mut joined = first;
    joined.extend(second);
    let expected: Vec<Vec<u8>> = (0..130u8).map(|i| vec![i]).collect();
    assert_eq!(joined, expected);
}

#[test]
fn app_channel_is_acquired_exactly_once() {
    let mut platform = Platform::new();
    let first = platform.get_app_channel();
    assert!(first.is_ok());
    let second = platform.get_app_channel();
    assert!(matches!(second, Err(Error::ResourceUnavailable)));
    let third = platform.get_app_channel();
    assert!(matches!(third, Err(Error::ResourceUnavailable)));
}
