use perimeter_echo::echo::{overflow_message_bytes, ByteOutcome, LineEcho, LINE_CAPACITY};

fn feed(service: &mut LineEcho, bytes: &[u8]) -> Vec<ByteOutcome> {
    bytes.iter().map(|&b| service.accept_byte(b)).collect()
}

#[test]
fn echoes_line_reversed() {
    let mut s = LineEcho::new();
    s.start_line();
    let outcomes = feed(&mut s, b"abc\r");
    assert_eq!(
        outcomes,
        vec![
            ByteOutcome::Stored,
            ByteOutcome::Stored,
            ByteOutcome::Stored,
            ByteOutcome::LineComplete,
        ]
    );
    assert_eq!(s.finish_line(), b"cba\r\n".to_vec());
}

#[test]
fn empty_line_echoes_crlf() {
    let mut s = LineEcho::new();
    s.start_line();
    assert_eq!(s.accept_byte(b'\r'), ByteOutcome::LineComplete);
    assert_eq!(s.finish_line(), b"\r\n".to_vec());
}

#[test]
fn overflow_triggers_on_byte_after_capacity() {
    let mut s = LineEcho::new();
    s.start_line();
    for i in 0..LINE_CAPACITY {
        let b = b'a' + (i % 26) as u8;
        assert_eq!(s.accept_byte(b), ByteOutcome::Stored);
    }
    // the buffer is exactly full; one more non-CR byte overflows
    assert_eq!(s.accept_byte(b'z'), ByteOutcome::Overflow);
}

#[test]
fn overflow_message_is_the_fixed_diagnostic() {
    assert_eq!(
        overflow_message_bytes(),
        b"Error: input buffer is full!\r\n".to_vec()
    );
}

#[test]
fn overflow_does_not_corrupt_the_next_line() {
    let mut s = LineEcho::new();
    s.start_line();
    for _ in 0..(LINE_CAPACITY + 1) {
        s.accept_byte(b'x');
    }
    // a fresh cycle after the overflow echoes normally
    s.start_line();
    feed(&mut s, b"abc\r");
    assert_eq!(s.finish_line(), b"cba\r\n".to_vec());
}

#[test]
fn capacity_line_without_overflow_still_echoes() {
    let mut s = LineEcho::new();
    s.start_line();
    let line: Vec<u8> = (0..LINE_CAPACITY).map(|i| b'a' + (i % 26) as u8).collect();
    for &b in &line {
        assert_eq!(s.accept_byte(b), ByteOutcome::Stored);
    }
    assert_eq!(s.accept_byte(b'\r'), ByteOutcome::LineComplete);
    let mut expected: Vec<u8> = line.iter().rev().copied().collect();
    expected.extend_from_slice(b"\r\n");
    assert_eq!(s.finish_line(), expected);
}

#[test]
fn reversing_twice_restores_the_line() {
    let mut s = LineEcho::new();
    s.start_line();
    feed(&mut s, b"abc");
    // finishing reverses the buffer in place; finishing again reverses it
    // back, so the second echo carries the original byte order
    assert_eq!(s.finish_line(), b"cba\r\n".to_vec());
    assert_eq!(s.finish_line(), b"abc\r\n".to_vec());
}

#[test]
fn carriage_return_is_not_stored() {
    let mut s = LineEcho::new();
    s.start_line();
    feed(&mut s, b"hi\r");
    assert_eq!(s.finish_line(), b"ih\r\n".to_vec());
}
