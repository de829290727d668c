use rust_rooms::adapter::{Adapter, AdapterError, RecvOutcome, SendPlan, QUEUE_CAPACITY};
use rust_rooms::codec::{decode_frame, encode_frame, header_len, Decoded};
use rust_rooms::registry::{ConnRegistry, PeerAddr};

fn addr(ip: u128, port: u16) -> PeerAddr {
    PeerAddr { ip, port }
}

#[test]
fn echo_scenario_register_frame_recv() {
    let a = addr(0x0a000001, 40000);
    let mut adapter = Adapter::new(addr(0, 3478));
    adapter.register_stream(a, 7);

    // the peer writes one valid 10-byte frame on its stream
    let payload: Vec<u8> = vec![1, 2, 3, 4, 5, 6, 7, 8, 9, 10];
    let wire = encode_frame(&payload).unwrap();

    // the connection's reader decodes it and feeds the shared queue
    assert_eq!(header_len(wire[0], wire[1]), 10);
    match decode_frame(&wire, 65535) {
        Decoded::Frame { payload: p, consumed } => {
            assert_eq!(consumed, 12);
            assert!(adapter.on_frame(a, p));
        }
        _ => panic!("whole frame must decode"),
    }

    // the engine's recv_from gets exactly (payload, A)
    match adapter.recv_from(65535) {
        RecvOutcome::Packet { payload: p, from } => {
            assert_eq!(p, payload);
            assert_eq!(from, a);
        }
        _ => panic!("queued packet must be returned"),
    }
}

#[test]
fn timeout_scenario_deregisters_and_send_to_skips() {
    let a = addr(0x0a000002, 40001);
    let mut adapter = Adapter::new(addr(0, 3478));
    adapter.register_stream(a, 7);

    // ten idle seconds: the reader observes the timeout and fails the
    // connection
    assert!(adapter.on_conn_failure(a));

    // a later send_to succeeds without transmitting anything
    let payload: Vec<u8> = vec![1, 2, 3];
    assert!(matches!(adapter.send_to(a, &payload), SendPlan::Skip));
    // the failure is idempotent
    assert!(!adapter.on_conn_failure(a));
}

#[test]
fn send_to_live_target_frames_the_payload() {
    let a = addr(1, 1000);
    let mut adapter = Adapter::new(addr(0, 3478));
    adapter.register_stream(a, 42);
    let payload: Vec<u8> = vec![9, 9, 9];
    match adapter.send_to(a, &payload) {
        SendPlan::Transmit { conn, frame } => {
            assert_eq!(conn, 42);
            assert_eq!(frame, vec![0, 3, 9, 9, 9]);
        }
        _ => panic!("live target must be transmitted to"),
    }
}

#[test]
fn send_to_oversized_payload_is_rejected() {
    let a = addr(1, 1000);
    let mut adapter = Adapter::new(addr(0, 3478));
    adapter.register_stream(a, 42);
    let payload: Vec<u8> = vec![0; 65536];
    assert!(matches!(adapter.send_to(a, &payload), SendPlan::TooLarge));
}

#[test]
fn recv_from_empty_queue_suspends() {
    let mut adapter = Adapter::new(addr(0, 3478));
    assert!(matches!(adapter.recv_from(65535), RecvOutcome::Empty));
}

#[test]
fn recv_from_short_buffer_consumes_the_packet() {
    let a = addr(2, 2000);
    let mut adapter = Adapter::new(addr(0, 3478));
    adapter.register_stream(a, 1);
    assert!(adapter.on_frame(a, vec![1, 2, 3, 4, 5, 6, 7, 8, 9, 10]));
    assert!(matches!(adapter.recv_from(5), RecvOutcome::BufferShort));
    assert!(matches!(adapter.recv_from(65535), RecvOutcome::Empty));
}

#[test]
fn inbound_queue_is_fifo_across_connections() {
    let a = addr(1, 1);
    let b = addr(2, 2);
    let mut adapter = Adapter::new(addr(0, 3478));
    adapter.register_stream(a, 1);
    adapter.register_stream(b, 2);
    assert!(adapter.on_frame(a, vec![1]));
    assert!(adapter.on_frame(b, vec![2]));
    assert!(adapter.on_frame(a, vec![3]));
    let expect = [(vec![1u8], a), (vec![2u8], b), (vec![3u8], a)];
    for (want_payload, want_from) in expect {
        match adapter.recv_from(65535) {
            RecvOutcome::Packet { payload, from } => {
                assert_eq!(payload, want_payload);
                assert_eq!(from, want_from);
            }
            _ => panic!("queued packets must come out in arrival order"),
        }
    }
}

#[test]
fn full_queue_blocks_the_producer_until_a_drain() {
    let a = addr(3, 3);
    let mut adapter = Adapter::new(addr(0, 3478));
    adapter.register_stream(a, 1);
    for i in 0..QUEUE_CAPACITY {
        assert!(adapter.on_frame(a, vec![(i % 256) as u8]));
    }
    // full: the producer's push is refused, nothing is dropped
    assert!(!adapter.on_frame(a, vec![0xEE]));
    // one drain makes room again
    assert!(matches!(adapter.recv_from(65535), RecvOutcome::Packet { .. }));
    assert!(adapter.on_frame(a, vec![0xEE]));
}

#[test]
fn connection_oriented_operations_are_unsupported() {
    let adapter = Adapter::new(addr(0, 3478));
    assert_eq!(adapter.connect(addr(1, 1)), Err(AdapterError::NotSupported));
    assert_eq!(adapter.recv(), Err(AdapterError::NotSupported));
    assert_eq!(adapter.send(&vec![1, 2]), Err(AdapterError::NotSupported));
    assert_eq!(adapter.local_addr(), addr(0, 3478));
    assert_eq!(adapter.remote_addr(), None);
}

#[test]
fn reregistration_replaces_the_earlier_connection() {
    let a = addr(9, 9);
    let mut reg = ConnRegistry::new();
    reg.register(a, 1);
    assert_eq!(reg.lookup(a), Some(1));
    reg.register(a, 2);
    assert_eq!(reg.lookup(a), Some(2));
    assert!(reg.deregister(a));
    assert_eq!(reg.lookup(a), None);
    assert!(!reg.deregister(a));
}
