use framed_client::codec::encode_request;
use framed_client::error::FrameError;
use framed_client::protocol::{BasicReceiver, Receiver};
use framed_client::transfer::{ReadTransfer, WriteTransfer};

/// Drive a write transfer against a transport stub that accepts at most
/// `per_call` bytes per write operation, collecting everything it accepted.
fn drain_writer(frame: Vec<u8>, per_call: usize) -> Vec<u8> {
    let mut t = WriteTransfer::new(frame);
    let mut accepted: Vec<u8> = Vec::new();
    while !t.done() {
        let pending = t.pending_slice().to_vec();
        let n = per_call.min(pending.len());
        accepted.extend_from_slice(&pending[..n]);
        t.advance(n).unwrap();
    }
    accepted
}

/// Drive a status-coded receiver over a byte stream delivered at most
/// `per_call` bytes per read operation.
fn run_status_receiver(stream: &[u8], per_call: usize) -> Result<(u32, String), FrameError> {
    let mut rx = Receiver::new();
    let mut pos = 0;
    loop {
        let want = rx.wanted();
        if want == 0 {
            break;
        }
        let n = want.min(per_call).min(stream.len() - pos);
        rx.on_read(&stream[pos..pos + n])?;
        pos += n;
    }
    assert!(rx.is_done());
    rx.finish()
}

/// Drive a basic-protocol receiver the same way.
fn run_basic_receiver(stream: &[u8], per_call: usize) -> Result<String, FrameError> {
    let mut rx = BasicReceiver::new();
    let mut pos = 0;
    loop {
        let want = rx.wanted();
        if want == 0 {
            break;
        }
        let n = want.min(per_call).min(stream.len() - pos);
        rx.on_read(&stream[pos..pos + n])?;
        pos += n;
    }
    assert!(rx.is_done());
    rx.finish()
}

#[test]
fn encode_request_exact_bytes() {
    let frame = encode_request("ok").unwrap();
    assert_eq!(frame, vec![2, 0, 0, 0, b'o', b'k']);
}

#[test]
fn encode_request_empty_text() {
    let frame = encode_request("").unwrap();
    assert_eq!(frame, vec![0, 0, 0, 0]);
}

#[test]
fn round_trip_basic() {
    let frame = encode_request("hello, peer").unwrap();
    let wire = drain_writer(frame, 4096);
    let text = run_basic_receiver(&wire, 4096).unwrap();
    assert_eq!(text, "hello, peer");
}

#[test]
fn round_trip_basic_multibyte_text() {
    let frame = encode_request("héllo — ≤4092 bytes ✓").unwrap();
    let wire = drain_writer(frame, 4096);
    let text = run_basic_receiver(&wire, 4096).unwrap();
    assert_eq!(text, "héllo — ≤4092 bytes ✓");
}

#[test]
fn round_trip_basic_empty() {
    let frame = encode_request("").unwrap();
    let wire = drain_writer(frame, 4096);
    let text = run_basic_receiver(&wire, 4096).unwrap();
    assert_eq!(text, "");
}

#[test]
fn round_trip_largest_payload() {
    let big = "a".repeat(4092);
    let frame = encode_request(&big).unwrap();
    let wire = drain_writer(frame, 4096);
    assert_eq!(wire.len(), 4096);
    let text = run_basic_receiver(&wire, 4096).unwrap();
    assert_eq!(text, big);
}

#[test]
fn partial_write_one_byte_per_call() {
    let frame = encode_request("partial").unwrap();
    let expected = frame.clone();
    let wire = drain_writer(frame, 1);
    assert_eq!(wire, expected);
}

#[test]
fn partial_read_one_byte_per_call() {
    let mut wire = vec![6, 0, 0, 0, 1, 0, 0, 0];
    wire.extend_from_slice(b"ok");
    let (status, text) = run_status_receiver(&wire, 1).unwrap();
    assert_eq!(status, 1);
    assert_eq!(text, "ok");
}

#[test]
fn zero_byte_write_is_short_write() {
    let frame = encode_request("x").unwrap();
    let mut t = WriteTransfer::new(frame);
    assert_eq!(t.advance(0), Err(FrameError::ShortWrite));
}

#[test]
fn zero_byte_read_before_header_is_connection_closed() {
    let mut rx = Receiver::new();
    assert_eq!(rx.on_read(&[]), Err(FrameError::ConnectionClosed));
    assert_eq!(rx.wanted(), 0);
}

#[test]
fn zero_byte_read_mid_header_is_truncated() {
    let mut rx = Receiver::new();
    rx.on_read(&[6, 0]).unwrap();
    assert_eq!(rx.on_read(&[]), Err(FrameError::Truncated));
}

#[test]
fn zero_byte_read_mid_payload_is_truncated() {
    let mut rx = Receiver::new();
    rx.on_read(&[6, 0, 0, 0]).unwrap();
    rx.on_read(&[0, 0, 0, 0]).unwrap();
    rx.on_read(b"o").unwrap();
    assert_eq!(rx.on_read(&[]), Err(FrameError::Truncated));
}

#[test]
fn zero_byte_read_is_fatal_for_basic_receiver() {
    let mut rx = BasicReceiver::new();
    assert_eq!(rx.on_read(&[]), Err(FrameError::ConnectionClosed));
    let mut mid = BasicReceiver::new();
    mid.on_read(&[5, 0]).unwrap();
    assert_eq!(mid.on_read(&[]), Err(FrameError::Truncated));
}

#[test]
fn oversize_request_is_rejected() {
    let big = "a".repeat(4093);
    assert_eq!(encode_request(&big), Err(FrameError::MessageTooLarge));
}

#[test]
fn status_decode_plain() {
    let mut wire = vec![6, 0, 0, 0];
    wire.extend_from_slice(&0u32.to_le_bytes());
    wire.extend_from_slice(b"ok");
    let (status, text) = run_status_receiver(&wire, 4096).unwrap();
    assert_eq!(status, 0);
    assert_eq!(text, "ok");
}

#[test]
fn status_decode_empty_text() {
    let mut wire = vec![4, 0, 0, 0];
    wire.extend_from_slice(&404u32.to_le_bytes());
    let (status, text) = run_status_receiver(&wire, 4096).unwrap();
    assert_eq!(status, 404);
    assert_eq!(text, "");
}

#[test]
fn malformed_length_underflow() {
    let mut rx = Receiver::new();
    assert_eq!(rx.on_read(&[2, 0, 0, 0]), Err(FrameError::MalformedFrame));
    assert_eq!(rx.wanted(), 0);
}

#[test]
fn frame_too_large_is_rejected() {
    let mut rx = Receiver::new();
    assert_eq!(
        rx.on_read(&4093u32.to_le_bytes()),
        Err(FrameError::FrameTooLarge)
    );
    let mut basic = BasicReceiver::new();
    assert_eq!(
        basic.on_read(&4093u32.to_le_bytes()),
        Err(FrameError::FrameTooLarge)
    );
}

#[test]
fn invalid_encoding_is_rejected() {
    let wire = vec![5, 0, 0, 0, 1, 0, 0, 0, 0xFF];
    assert_eq!(
        run_status_receiver(&wire, 4096),
        Err(FrameError::InvalidEncoding)
    );
}

#[test]
fn basic_receiver_accepts_empty_frame() {
    let wire = vec![0, 0, 0, 0];
    let text = run_basic_receiver(&wire, 4096).unwrap();
    assert_eq!(text, "");
}

#[test]
fn receiver_never_asks_for_more_than_a_frame() {
    let mut rx = Receiver::new();
    assert_eq!(rx.wanted(), 4);
    rx.on_read(&[92, 15, 0, 0]).unwrap();
    assert_eq!(rx.wanted(), 4);
    rx.on_read(&[7, 0, 0, 0]).unwrap();
    assert_eq!(rx.wanted(), 3928);
}

#[test]
fn read_transfer_accumulates_in_order() {
    let mut t = ReadTransfer::new(5);
    assert_eq!(t.wanted(), 5);
    t.feed(&[1, 2]);
    assert_eq!(t.wanted(), 3);
    assert!(!t.done());
    t.feed(&[3, 4, 5]);
    assert!(t.done());
    assert_eq!(t.take(), vec![1, 2, 3, 4, 5]);
}

#[test]
fn write_transfer_reports_progress() {
    let mut t = WriteTransfer::new(vec![9, 8, 7]);
    assert!(!t.done());
    assert_eq!(t.pending_slice().to_vec(), vec![9, 8, 7]);
    t.advance(2).unwrap();
    assert_eq!(t.pending_slice().to_vec(), vec![7]);
    t.advance(1).unwrap();
    assert!(t.done());
}
