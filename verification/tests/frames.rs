use std::io::Read;

use logshard::frame::{frame_line, payload, LINE_END};

fn gunzip(bytes: &[u8]) -> Vec<u8> {
    let mut decoder = flate2::read::MultiGzDecoder::new(bytes);
    let mut out = Vec::new();
    decoder.read_to_end(&mut out).unwrap();
    out
}

#[test]
fn payload_is_the_line_and_a_line_end() {
    assert_eq!(payload("abc"), vec![b'a', b'b', b'c', b'\n']);
    assert_eq!(payload(""), vec![LINE_END]);
    assert_eq!(payload("é"), vec![0xc3, 0xa9, 0x0a]);
    assert_eq!(LINE_END, b'\n');
}

#[test]
fn frame_is_a_gzip_member_of_the_payload() {
    let line = r#"{"asctime": "2021-03-01 00:00:00,000", "message": "test"}"#;
    let frame = frame_line(line).unwrap();
    assert_eq!(&frame[..3], &[0x1f, 0x8b, 8]);
    assert_ne!(frame, payload(line));
    assert_eq!(gunzip(&frame), payload(line));
}

#[test]
fn frame_depends_on_the_line_alone() {
    let first = frame_line("one line").unwrap();
    let second = frame_line("one line").unwrap();
    assert_eq!(first, second);
    assert_ne!(first, frame_line("another line").unwrap());
}

#[test]
fn frames_decompress_one_after_the_other() {
    let mut bytes = frame_line("first").unwrap();
    bytes.extend(frame_line("").unwrap());
    bytes.extend(frame_line("third").unwrap());
    assert_eq!(gunzip(&bytes), b"first\n\nthird\n".to_vec());
}
