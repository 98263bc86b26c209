use tcp_echo::handler::{Handler, ReadOutcome};
use tcp_echo::{next_connection_id, TcpEcho};

/// Drives one full echo cycle: feeds `data` to the handler, then confirms
/// writes until the chunk is out, returning the bytes "sent to the peer"
/// in order.
fn echo_cycle(h: &mut Handler, data: &[u8]) -> Vec<u8> {
    assert!(h.is_reading());
    assert!(data.len() >= 1 && data.len() <= h.chunk_size());
    h.on_read(ReadOutcome::Data(data.to_vec()));
    let mut sent: Vec<u8> = Vec::new();
    while h.is_echoing() {
        let out = h.remaining();
        let n = out.len();
        sent.extend_from_slice(&out);
        h.on_write(n);
    }
    sent
}

#[test]
fn send_receive() {
    let sut = TcpEcho::new(5555, 1024);
    let mut h = sut.handler();

    let test_data: [u8; 4] = [0x10, 0x9, 0x3, 0x1];
    let result_data = echo_cycle(&mut h, &test_data);

    assert_eq!(test_data.len(), result_data.len());
    assert_eq!(result_data, test_data);
    assert!(h.is_reading());
}

#[test]
fn send_receive_multiple_chunks() {
    let sut = TcpEcho::new(5556, 1024);
    let mut h = sut.handler();

    let test_data2 = [
        [0x10u8, 0x9, 0x3, 0x1],
        [0x9u8, 0x8, 0x2, 0x0],
        [0x11u8, 0xa, 0x4, 0x2],
    ];
    for test_data in test_data2 {
        let result_data = echo_cycle(&mut h, &test_data);
        assert_eq!(test_data.len(), result_data.len());
        assert_eq!(result_data, test_data);
    }
}

#[test]
fn send_receive_multiple_connections() {
    let sut = TcpEcho::new(5557, 1024);

    let test_data2 = [
        [0x10u8, 0x9, 0x3, 0x1],
        [0x9u8, 0x8, 0x2, 0x0],
        [0x11u8, 0xa, 0x4, 0x2],
    ];

    for test_data in test_data2 {
        let mut h = sut.handler();
        let result_data = echo_cycle(&mut h, &test_data);
        assert_eq!(test_data.len(), result_data.len());
        assert_eq!(result_data, test_data);
        h.on_read(ReadOutcome::Eof);
        assert!(h.is_closed_clean());
    }
}

#[test]
fn interleaved_connections_stay_independent() {
    // Two handlers advanced in lock-step, one event at a time, as two
    // concurrent connections would be; each echoes only its own payload.
    let sut = TcpEcho::new(5560, 8);
    let mut h1 = sut.handler();
    let mut h2 = sut.handler();

    let data1 = [0x10u8, 0x9, 0x3, 0x1];
    let data2 = [0x9u8, 0x8, 0x2, 0x0];

    h1.on_read(ReadOutcome::Data(data1.to_vec()));
    h2.on_read(ReadOutcome::Data(data2.to_vec()));

    let mut sent1: Vec<u8> = Vec::new();
    let mut sent2: Vec<u8> = Vec::new();
    // Partial writes of the two connections alternate.
    for step in [1usize, 2, 1] {
        sent1.extend_from_slice(&h1.remaining()[..step]);
        h1.on_write(step);
        sent2.extend_from_slice(&h2.remaining()[..step]);
        h2.on_write(step);
    }
    assert!(h1.is_reading());
    assert!(h2.is_reading());
    assert_eq!(sent1, data1.to_vec());
    assert_eq!(sent2, data2.to_vec());
}

#[test]
fn chunk_size_boundary_is_one_cycle() {
    let sut = TcpEcho::new(5558, 4);
    let mut h = sut.handler();

    let data = [0xdeu8, 0xad, 0xbe, 0xef];
    h.on_read(ReadOutcome::Data(data.to_vec()));
    assert!(h.is_echoing());
    let out = h.remaining();
    assert_eq!(out, data.to_vec());
    h.on_write(out.len());
    assert!(h.is_reading());
}

#[test]
fn payload_larger_than_chunk_splits_into_cycles() {
    // A 6-byte payload with a 4-byte buffer arrives as two reads; the
    // concatenation of everything echoed equals the concatenation sent.
    let sut = TcpEcho::new(5559, 4);
    let mut h = sut.handler();

    let payload = [1u8, 2, 3, 4, 5, 6];
    let mut echoed: Vec<u8> = Vec::new();
    echoed.extend(echo_cycle(&mut h, &payload[..4]));
    echoed.extend(echo_cycle(&mut h, &payload[4..]));
    assert_eq!(echoed, payload.to_vec());
}

#[test]
fn partial_writes_concatenate_in_order() {
    let mut h = Handler::new(8);

    let data = [10u8, 11, 12, 13, 14, 15, 16, 17];
    h.on_read(ReadOutcome::Data(data.to_vec()));

    let mut sent: Vec<u8> = Vec::new();
    for step in [3usize, 2, 3] {
        assert!(h.is_echoing());
        let out = h.remaining();
        sent.extend_from_slice(&out[..step]);
        h.on_write(step);
    }
    assert!(h.is_reading());
    assert_eq!(sent, data.to_vec());
}

#[test]
fn remaining_shrinks_to_unwritten_tail() {
    let mut h = Handler::new(8);
    h.on_read(ReadOutcome::Data(vec![1u8, 2, 3]));
    h.on_write(2);
    assert!(h.is_echoing());
    assert_eq!(h.remaining(), vec![3u8]);
}

#[test]
fn eof_closes_clean() {
    let mut h = Handler::new(16);
    assert!(h.is_open());
    h.on_read(ReadOutcome::Eof);
    assert!(h.is_closed_clean());
    assert!(!h.is_closed_error());
    assert!(!h.is_open());
}

#[test]
fn eof_after_traffic_closes_clean() {
    let mut h = Handler::new(16);
    let out = echo_cycle(&mut h, &[7u8, 8, 9]);
    assert_eq!(out, vec![7u8, 8, 9]);
    h.on_read(ReadOutcome::Eof);
    assert!(h.is_closed_clean());
}

#[test]
fn read_error_closes_with_error() {
    let mut h = Handler::new(16);
    h.on_read(ReadOutcome::Failed);
    assert!(h.is_closed_error());
    assert!(!h.is_closed_clean());
    assert!(!h.is_open());
}

#[test]
fn zero_byte_write_closes_with_error() {
    let mut h = Handler::new(16);
    h.on_read(ReadOutcome::Data(vec![42u8]));
    h.on_write(0);
    assert!(h.is_closed_error());
}

#[test]
fn failed_write_closes_with_error() {
    let mut h = Handler::new(16);
    h.on_read(ReadOutcome::Data(vec![42u8, 43]));
    h.on_write_failed();
    assert!(h.is_closed_error());
}

#[test]
fn peek_observes_exactly_the_echoed_bytes() {
    let mut h = Handler::new(8);
    let data = vec![0x10u8, 0x09, 0x03, 0x01];
    h.on_read(ReadOutcome::Data(data.clone()));

    let peeked = h.peek_chunk().clone();
    assert_eq!(peeked, data);

    let out = h.remaining();
    assert_eq!(out, peeked);
    h.on_write(out.len());
    assert!(h.is_reading());
}

#[test]
fn peek_does_not_change_the_handler() {
    let mut h = Handler::new(8);
    h.on_read(ReadOutcome::Data(vec![5u8, 6]));
    let before = h.remaining();
    let _ = h.peek_chunk();
    let _ = h.peek_chunk();
    assert_eq!(h.remaining(), before);
    assert!(h.is_echoing());
}

#[test]
fn config_reports_port_and_chunk_size() {
    let sut = TcpEcho::new(5555, 1024);
    assert_eq!(sut.port(), 5555);
    assert_eq!(sut.chunk_size(), 1024);
}

#[test]
fn handler_takes_the_configured_chunk_size() {
    let sut = TcpEcho::new(5555, 1024);
    let h = sut.handler();
    assert_eq!(h.chunk_size(), 1024);
    assert!(h.is_reading());
}

#[test]
fn connection_ids_count_up_and_wrap() {
    assert_eq!(next_connection_id(0), 1);
    assert_eq!(next_connection_id(1), 2);
    assert_eq!(next_connection_id(41), 42);
    assert_eq!(next_connection_id(u64::MAX), 0);
}
