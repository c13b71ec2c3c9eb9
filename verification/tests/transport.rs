use micro_http_async::connection::{
    strip_nul, trim_newline, Connection, ConnectionType, ReadAction, ReadEvent, WriteAction,
    WriteEvent,
};

fn plain() -> Connection {
    Connection::new(ConnectionType::Plain, 8192)
}

fn read_all(conn: &Connection, events: Vec<ReadEvent>) -> Option<Result<Vec<u8>, ()>> {
    for event in events {
        match conn.read_to_vec(event) {
            ReadAction::Retry => {}
            ReadAction::Deliver(bytes) => return Some(Ok(bytes)),
            ReadAction::Abort => return Some(Err(())),
        }
    }
    None
}

fn write_all(conn: &Connection, data: &[u8], events: &[WriteEvent]) -> (Option<Result<(), ()>>, Vec<usize>) {
    let mut sent = 0;
    let mut offsets = vec![0];
    for event in events {
        match conn.write_bytes(data, sent, *event) {
            WriteAction::Continue(next) => {
                sent = next;
                offsets.push(next);
            }
            WriteAction::Done => return (Some(Ok(())), offsets),
            WriteAction::Abort => return (Some(Err(())), offsets),
        }
    }
    (None, offsets)
}

#[test]
fn connection_keeps_its_settings() {
    let c = Connection::new(ConnectionType::TLS, 10_000);
    assert!(c.is_secure());
    assert_eq!(c.read_buffer_size(), 10_000);
    let c = plain();
    assert!(!c.is_secure());
    assert_eq!(c.read_buffer_size(), 8192);
}

#[test]
fn read_delivers_first_successful_attempt() {
    let c = plain();
    assert_eq!(c.read_to_vec(ReadEvent::Data(b"abc".to_vec())), ReadAction::Deliver(b"abc".to_vec()));
    assert_eq!(c.read_to_vec(ReadEvent::Data(Vec::new())), ReadAction::Deliver(Vec::new()));
    assert_eq!(c.read_to_vec(ReadEvent::WouldBlock), ReadAction::Retry);
    assert_eq!(c.read_to_vec(ReadEvent::Failed), ReadAction::Abort);
}

#[test]
fn would_block_is_invisible_to_the_reader() {
    let c = plain();
    let with = read_all(
        &c,
        vec![ReadEvent::WouldBlock, ReadEvent::WouldBlock, ReadEvent::Data(b"xy".to_vec()), ReadEvent::Failed],
    );
    let without = read_all(&c, vec![ReadEvent::Data(b"xy".to_vec()), ReadEvent::Failed]);
    assert_eq!(with, Some(Ok(b"xy".to_vec())));
    assert_eq!(with, without);
    assert_eq!(read_all(&c, vec![ReadEvent::WouldBlock, ReadEvent::WouldBlock]), None);
    assert_eq!(read_all(&c, vec![]), None);
}

#[test]
fn only_a_failure_aborts_a_read() {
    let c = plain();
    assert_eq!(read_all(&c, vec![ReadEvent::WouldBlock, ReadEvent::Failed]), Some(Err(())));
    assert_eq!(read_all(&c, vec![ReadEvent::Failed, ReadEvent::Data(b"late".to_vec())]), Some(Err(())));
}

#[test]
fn nul_bytes_are_stripped() {
    assert_eq!(strip_nul(&[0, b'a', 0, 0, b'b', 0]), b"ab".to_vec());
    assert_eq!(strip_nul(&[0, 0]), Vec::<u8>::new());
    assert_eq!(strip_nul(&[]), Vec::<u8>::new());
    assert_eq!(strip_nul(&[1, 255]), vec![1, 255]);
    let c = plain();
    assert_eq!(
        c.read_to_vec(ReadEvent::Data(vec![b'G', 0, b'E', b'T', 0])),
        ReadAction::Deliver(b"GET".to_vec())
    );
}

#[test]
fn one_line_end_is_trimmed() {
    let cases = [
        ("abc\r\n", "abc"),
        ("abc\n", "abc"),
        ("abc\r\n\r\n", "abc\r\n"),
        ("abc\n\n", "abc\n"),
        ("abc\r", "abc\r"),
        ("abc", "abc"),
        ("\n", ""),
        ("\r\n", ""),
        ("", ""),
        ("a\n\r", "a\n\r"),
        ("x\u{e9}\n", "x\u{e9}"),
    ];
    for (before, after) in cases {
        let mut s = String::from(before);
        trim_newline(&mut s);
        assert_eq!(s, after);
    }
}

#[test]
fn read_text_is_decoded_and_trimmed() {
    let c = plain();
    assert_eq!(
        c.read_to_string(ReadEvent::Data(b"GET / HTTP/1.1\r\n\0\0\0".to_vec())),
        ReadAction::Deliver(String::from("GET / HTTP/1.1"))
    );
    assert_eq!(
        c.read_to_string(ReadEvent::Data(vec![b'h', b'i', 0xff, b'\n'])),
        ReadAction::Deliver(String::from("hi\u{fffd}"))
    );
    assert_eq!(
        c.read_to_string(ReadEvent::Data(vec![0xc3, 0xa9])),
        ReadAction::Deliver(String::from("\u{e9}"))
    );
    assert_eq!(c.read_to_string(ReadEvent::Data(Vec::new())), ReadAction::Deliver(String::new()));
    assert_eq!(c.read_to_string(ReadEvent::WouldBlock), ReadAction::Retry);
    assert_eq!(c.read_to_string(ReadEvent::Failed), ReadAction::Abort);
}

#[test]
fn write_goes_on_until_all_is_accepted() {
    let c = plain();
    let data = b"0123456789";
    assert_eq!(c.write_bytes(data, 0, WriteEvent::Written(10)), WriteAction::Done);
    assert_eq!(c.write_bytes(data, 0, WriteEvent::Written(4)), WriteAction::Continue(4));
    assert_eq!(c.write_bytes(data, 4, WriteEvent::Written(5)), WriteAction::Continue(9));
    assert_eq!(c.write_bytes(data, 9, WriteEvent::Written(1)), WriteAction::Done);
    assert_eq!(c.write_bytes(data, 9, WriteEvent::Written(0)), WriteAction::Continue(9));
    assert_eq!(c.write_bytes(data, 4, WriteEvent::WouldBlock), WriteAction::Continue(4));
    assert_eq!(c.write_bytes(data, 4, WriteEvent::Failed), WriteAction::Abort);
    assert_eq!(c.write_bytes(data, 3, WriteEvent::Written(usize::MAX)), WriteAction::Done);
    assert_eq!(c.write_bytes(data, 11, WriteEvent::Written(0)), WriteAction::Done);
    assert_eq!(c.write_bytes(b"", 0, WriteEvent::Written(0)), WriteAction::Done);
}

#[test]
fn would_block_is_invisible_to_the_writer() {
    let c = plain();
    let data = b"0123456789";
    let (with, offsets) = write_all(
        &c,
        data,
        &[
            WriteEvent::WouldBlock,
            WriteEvent::Written(3),
            WriteEvent::WouldBlock,
            WriteEvent::WouldBlock,
            WriteEvent::Written(7),
        ],
    );
    let (without, _) = write_all(&c, data, &[WriteEvent::Written(3), WriteEvent::Written(7)]);
    assert_eq!(with, Some(Ok(())));
    assert_eq!(with, without);
    assert_eq!(offsets, vec![0, 0, 3, 3, 3]);
    let (pending, offsets) = write_all(&c, data, &[WriteEvent::Written(3), WriteEvent::WouldBlock]);
    assert_eq!(pending, None);
    assert_eq!(offsets, vec![0, 3, 3]);
}

#[test]
fn only_a_failure_aborts_a_write() {
    let c = plain();
    let data = b"0123456789";
    let (r, _) = write_all(&c, data, &[WriteEvent::Written(3), WriteEvent::WouldBlock, WriteEvent::Failed]);
    assert_eq!(r, Some(Err(())));
    let (r, _) = write_all(&c, data, &[WriteEvent::Written(10), WriteEvent::Failed]);
    assert_eq!(r, Some(Ok(())));
}

#[test]
fn text_is_written_as_its_bytes() {
    let c = plain();
    assert_eq!(c.write_string("h\u{e9}", 0, WriteEvent::Written(2)), WriteAction::Continue(2));
    assert_eq!(c.write_string("h\u{e9}", 2, WriteEvent::Written(1)), WriteAction::Done);
    assert_eq!(c.write_string("h\u{e9}", 0, WriteEvent::Written(3)), WriteAction::Done);
    assert_eq!(c.write_string("", 0, WriteEvent::WouldBlock), WriteAction::Continue(0));
}
