use frame_relay::relay::Action;
use frame_relay::relay::Event;
use frame_relay::relay::Relay;

const ADDR: [u8; 4] = [0xAA, 0xAA, 0xAA, 0xAA];

fn frame_15() -> Vec<u8> {
    vec![
        0xEF, 0x01, 0xAA, 0xAA, 0xAA, 0xAA, 0x01, 0x00, 0x06, 0x10, 0x11, 0x12, 0x13, 0x20, 0x21,
    ]
}

#[test]
fn relay_forwards_host_message_verbatim() {
    let mut relay = Relay::new(ADDR);
    let actions = relay.handle_event(Event::HostMessage(vec![0x01, 0x02, 0x03]));
    assert_eq!(actions, vec![Action::ForwardToDevice(vec![0x01, 0x02, 0x03])]);
    assert_eq!(relay.buffered(), Vec::<u8>::new());
}

#[test]
fn relay_benign_events_change_nothing() {
    let mut relay = Relay::new(ADDR);
    let partial = vec![0xEF, 0x01, 0xAA, 0xAA];
    let actions = relay.handle_event(Event::DeviceBytes(partial.clone()));
    assert!(actions.is_empty());
    assert_eq!(relay.buffered(), partial);
    for event in [
        Event::DeviceTimeout,
        Event::DeviceBreak,
        Event::DeviceReadError,
        Event::HostReadError,
    ] {
        let actions = relay.handle_event(event);
        assert!(actions.is_empty());
        assert_eq!(relay.buffered(), partial);
    }
}

#[test]
fn relay_incremental_two_reads_equal_one() {
    let whole = frame_15();

    // Two reads of 7 and 8 bytes.
    let mut split_relay = Relay::new(ADDR);
    let first = split_relay.handle_event(Event::DeviceBytes(whole[..7].to_vec()));
    assert!(first.is_empty());
    assert_eq!(split_relay.buffered(), whole[..7].to_vec());
    let second = split_relay.handle_event(Event::DeviceBytes(whole[7..].to_vec()));

    // One read of all 15 bytes.
    let mut single_relay = Relay::new(ADDR);
    let single = single_relay.handle_event(Event::DeviceBytes(whole.clone()));

    assert_eq!(second, vec![Action::ForwardToHost(whole.clone())]);
    assert_eq!(second, single);
    assert_eq!(split_relay.buffered(), Vec::<u8>::new());
    assert_eq!(single_relay.buffered(), Vec::<u8>::new());
}

#[test]
fn relay_compaction_keeps_trailing_bytes() {
    let mut bytes = vec![0xEF, 0x01, 0xAA, 0xAA, 0xAA, 0xAA, 0x01, 0x00, 0x03, 0x05, 0x06, 0x07];
    let frame = bytes.clone();
    let extra = vec![0xEF, 0x01, 0xAA, 0xDD, 0xEE];
    bytes.extend_from_slice(&extra);
    let mut relay = Relay::new(ADDR);
    let actions = relay.handle_event(Event::DeviceBytes(bytes));
    assert_eq!(actions, vec![Action::ForwardToHost(frame)]);
    assert_eq!(relay.buffered(), extra);
}

#[test]
fn relay_burst_with_two_frames_forwards_both() {
    let first = vec![0xEF, 0x01, 0xAA, 0xAA, 0xAA, 0xAA, 0x01, 0x00, 0x03, 0x05, 0x06, 0x07];
    let second = frame_15();
    let mut burst = first.clone();
    burst.extend_from_slice(&second);
    let mut relay = Relay::new(ADDR);
    let actions = relay.handle_event(Event::DeviceBytes(burst));
    assert_eq!(
        actions,
        vec![Action::ForwardToHost(first), Action::ForwardToHost(second)]
    );
    assert_eq!(relay.buffered(), Vec::<u8>::new());
}

#[test]
fn relay_mismatch_clears_buffer() {
    // A wrong header clears the buffer instead of stalling detection.
    let mut relay = Relay::new(ADDR);
    let bad = vec![0x00, 0x00, 0xAA, 0xAA, 0xAA, 0xAA, 0x01, 0x00, 0x03, 0x05, 0x06, 0x07];
    let actions = relay.handle_event(Event::DeviceBytes(bad));
    assert!(actions.is_empty());
    assert_eq!(relay.buffered(), Vec::<u8>::new());
}

#[test]
fn relay_overflow_resets_buffer() {
    // 250 buffered bytes of a frame that declares more than arrived.
    let mut long_frame = vec![0xEF, 0x01, 0xAA, 0xAA, 0xAA, 0xAA, 0x01, 0x01, 0x00];
    for _ in 0..241 {
        long_frame.push(0x33);
    }
    assert_eq!(long_frame.len(), 250);
    let mut relay = Relay::new(ADDR);
    let actions = relay.handle_event(Event::DeviceBytes(long_frame));
    assert!(actions.is_empty());
    assert_eq!(relay.buffered().len(), 250);

    // Ten more bytes would exceed the capacity of 256: the buffer resets
    // and the arriving bytes are rejected.
    let actions = relay.handle_event(Event::DeviceBytes(vec![0x44; 10]));
    assert!(actions.is_empty());
    assert_eq!(relay.buffered(), Vec::<u8>::new());
}

#[test]
fn relay_fills_to_exact_capacity() {
    // Exactly 256 bytes still fit; the 257th read of one byte overflows.
    let mut long_frame = vec![0xEF, 0x01, 0xAA, 0xAA, 0xAA, 0xAA, 0x01, 0x01, 0x00];
    for _ in 0..247 {
        long_frame.push(0x33);
    }
    assert_eq!(long_frame.len(), 256);
    let mut relay = Relay::new(ADDR);
    let actions = relay.handle_event(Event::DeviceBytes(long_frame));
    assert!(actions.is_empty());
    assert_eq!(relay.buffered().len(), 256);
    let actions = relay.handle_event(Event::DeviceBytes(vec![0x44]));
    assert!(actions.is_empty());
    assert_eq!(relay.buffered(), Vec::<u8>::new());
}

#[test]
fn end_to_end_scenario() {
    let mut relay = Relay::new(ADDR);

    // Host sends [0x01, 0x02, 0x03]: the device channel receives exactly
    // those bytes.
    let actions = relay.handle_event(Event::HostMessage(vec![0x01, 0x02, 0x03]));
    assert_eq!(actions, vec![Action::ForwardToDevice(vec![0x01, 0x02, 0x03])]);

    // The device delivers a 12-byte frame across two reads: the host
    // channel receives exactly those 12 bytes as one forwarded message.
    let frame = vec![0xEF, 0x01, 0xAA, 0xAA, 0xAA, 0xAA, 0x01, 0x00, 0x03, 0x05, 0x06, 0x07];
    let actions = relay.handle_event(Event::DeviceBytes(frame[..5].to_vec()));
    assert!(actions.is_empty());
    let actions = relay.handle_event(Event::DeviceBytes(frame[5..].to_vec()));
    assert_eq!(actions, vec![Action::ForwardToHost(frame)]);

    // The accumulation buffer is empty afterwards.
    assert_eq!(relay.buffered(), Vec::<u8>::new());
}
