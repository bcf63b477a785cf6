use mpv_remote::ingest::{Connection, Progress, ReadOutcome, CHUNK_SIZE, LISTEN_PORT};

fn feed(connection: Connection, bytes: &[u8]) -> Connection {
    match connection.on_read(ReadOutcome::Data(bytes)) {
        Progress::Open(next) => next,
        Progress::Complete(locator) => panic!("completed early with {:?}", locator),
    }
}

fn close(connection: Connection) -> String {
    match connection.on_read(ReadOutcome::Data(&[])) {
        Progress::Complete(locator) => locator,
        Progress::Open(_) => panic!("still open after the peer closed"),
    }
}

fn fail(connection: Connection) -> String {
    match connection.on_read(ReadOutcome::Failed) {
        Progress::Complete(locator) => locator,
        Progress::Open(_) => panic!("still open after a failed read"),
    }
}

#[test]
fn listens_on_port_8000() {
    assert_eq!(LISTEN_PORT, 8000);
}

#[test]
fn chunk_size_is_one_kibibyte() {
    assert_eq!(CHUNK_SIZE, 1024);
}

#[test]
fn immediate_close_yields_empty_locator() {
    assert_eq!(close(Connection::new()), "");
}

#[test]
fn immediate_failure_yields_empty_locator() {
    assert_eq!(fail(Connection::new()), "");
}

#[test]
fn single_chunk_is_the_locator() {
    let connection = feed(Connection::new(), b"http://example.com/video.mp4");
    assert_eq!(close(connection), "http://example.com/video.mp4");
}

#[test]
fn chunks_are_joined_in_order() {
    let connection = feed(Connection::new(), b"http://exam");
    let connection = feed(connection, b"ple.com/");
    let connection = feed(connection, b"video.mp4");
    assert_eq!(close(connection), "http://example.com/video.mp4");
}

#[test]
fn data_keeps_the_connection_open() {
    let mut connection = Connection::new();
    for _ in 0..100 {
        connection = match connection.on_read(ReadOutcome::Data(b"x")) {
            Progress::Open(next) => next,
            Progress::Complete(_) => panic!("a locator came out of an open connection"),
        };
    }
    assert_eq!(close(connection).len(), 100);
}

#[test]
fn newline_does_not_end_the_message() {
    let connection = feed(Connection::new(), b"a.mp4\n");
    let connection = feed(connection, b"b.mp4\0");
    assert_eq!(close(connection), "a.mp4\nb.mp4\0");
}

#[test]
fn undecodable_chunk_is_dropped_whole() {
    let connection = feed(Connection::new(), b"abc");
    let connection = feed(connection, &[b'x', 0xff, b'y']);
    let connection = feed(connection, b"def");
    assert_eq!(close(connection), "abcdef");
}

#[test]
fn only_undecodable_chunks_yield_empty_locator() {
    let connection = feed(Connection::new(), &[0xff, 0xfe]);
    let connection = feed(connection, &[0xc0, 0x80]);
    assert_eq!(close(connection), "");
}

#[test]
fn multibyte_text_in_one_chunk_is_kept() {
    let connection = feed(Connection::new(), "caf\u{e9} \u{1f3ac}.mkv".as_bytes());
    assert_eq!(close(connection), "caf\u{e9} \u{1f3ac}.mkv");
}

#[test]
fn character_split_across_chunks_is_lost() {
    let bytes = "\u{e9}".as_bytes();
    assert_eq!(bytes.len(), 2);
    let connection = feed(Connection::new(), b"caf");
    let connection = feed(connection, &bytes[..1]);
    let connection = feed(connection, &bytes[1..]);
    let connection = feed(connection, b".mkv");
    assert_eq!(close(connection), "caf.mkv");
}

#[test]
fn surrogate_and_overlong_encodings_are_dropped() {
    let connection = feed(Connection::new(), &[0xed, 0xa0, 0x80]);
    let connection = feed(connection, &[0xe0, 0x80, 0xaf]);
    let connection = feed(connection, b"ok");
    assert_eq!(close(connection), "ok");
}

#[test]
fn read_failure_keeps_what_was_read() {
    let connection = feed(Connection::new(), b"partial/loc");
    assert_eq!(fail(connection), "partial/loc");
}

#[test]
fn full_buffer_chunk_is_taken() {
    let chunk = vec![b'a'; CHUNK_SIZE];
    let connection = feed(Connection::new(), &chunk);
    let connection = feed(connection, b"b");
    let locator = close(connection);
    assert_eq!(locator.len(), CHUNK_SIZE + 1);
    assert!(locator.ends_with("ab"));
}
