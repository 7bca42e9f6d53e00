use reql::{Connection, Database, Error, MemStream};

fn frame(token: u64, payload: &[u8]) -> Vec<u8> {
    let mut f = Vec::new();
    f.extend_from_slice(&token.to_le_bytes());
    f.extend_from_slice(&(payload.len() as u32).to_le_bytes());
    f.extend_from_slice(payload);
    f
}

fn handshake_magic() -> Vec<u8> {
    vec![0x20, 0x2d, 0x0c, 0x40, 0, 0, 0, 0, 0xc7, 0x70, 0x69, 0x7e]
}

fn server_input(frames: &[Vec<u8>]) -> Vec<u8> {
    let mut input = b"SUCCESS\0".to_vec();
    for f in frames {
        input.extend_from_slice(f);
    }
    input
}

#[test]
fn handshake_success_yields_ready_connection() {
    let conn = Connection::connect(MemStream::new(b"SUCCESS\0".to_vec())).unwrap();
    assert!(conn.ready());
    assert_eq!(conn.query_count(), 0);
    assert_eq!(conn.stream_ref().output, handshake_magic());
}

#[test]
fn handshake_rejection_preserves_server_message() {
    let r = Connection::connect(MemStream::new(b"ERROR: bad version\0".to_vec()));
    match r {
        Err(Error::HandshakeRejected(msg)) => assert_eq!(msg, "ERROR: bad version"),
        _ => panic!("expected a handshake rejection"),
    }
}

#[test]
fn handshake_reply_must_be_utf8() {
    let r = Connection::connect(MemStream::new(vec![0xff, 0xfe, 0]));
    assert!(matches!(r, Err(Error::Encoding(_))));
}

#[test]
fn handshake_reply_must_be_terminated() {
    let r = Connection::connect(MemStream::new(b"SUCC".to_vec()));
    assert!(matches!(r, Err(Error::Transport(_))));
}

#[test]
fn exec_frames_query_and_returns_response() {
    let input = server_input(&[frame(1, b"{\"inserted\":1}")]);
    let mut conn = Connection::connect(MemStream::new(input)).unwrap();
    let v = conn.exec(Database::new("test".to_string())).unwrap();
    assert_eq!(serde_json::to_string(&v).unwrap(), "{\"inserted\":1}");
    let mut expected = handshake_magic();
    expected.extend_from_slice(&frame(1, b"[1,[14,[\"test\"]],{}]"));
    assert_eq!(conn.stream_ref().output, expected);
}

#[test]
fn tokens_count_up_without_gaps() {
    let input = server_input(&[frame(1, b"1"), frame(2, b"2"), frame(3, b"3")]);
    let mut conn = Connection::connect(MemStream::new(input)).unwrap();
    for expected in 1u64..=3 {
        let v = conn.exec(Database::new("test".to_string())).unwrap();
        assert_eq!(serde_json::to_string(&v).unwrap(), expected.to_string());
        assert_eq!(conn.query_count(), expected);
    }
    let payload = b"[1,[14,[\"test\"]],{}]";
    let out = conn.stream_ref().output.clone();
    let frame_len = 12 + payload.len();
    for k in 0u64..3 {
        let at = 12 + (k as usize) * frame_len;
        let token = u64::from_le_bytes(out[at..at + 8].try_into().unwrap());
        assert_eq!(token, k + 1);
    }
}

#[test]
fn token_mismatch_fails_the_connection() {
    let input = server_input(&[frame(99, b"{}"), frame(1, b"{}")]);
    let mut conn = Connection::connect(MemStream::new(input)).unwrap();
    let r = conn.exec(Database::new("test".to_string()));
    match r {
        Err(Error::TokenMismatch { expected, got }) => {
            assert_eq!(expected, 1);
            assert_eq!(got, 99);
        },
        _ => panic!("expected a token mismatch"),
    }
    assert!(!conn.ready());
    let again = conn.exec(Database::new("test".to_string()));
    assert!(matches!(again, Err(Error::Unknown(_))));
}

#[test]
fn response_read_in_full_across_partial_reads() {
    let input = server_input(&[frame(1, b"[true,false]")]);
    let mut conn = Connection::connect(MemStream::with_chunk(input, 1)).unwrap();
    let v = conn.exec(Database::new("test".to_string())).unwrap();
    assert_eq!(serde_json::to_string(&v).unwrap(), "[true,false]");
}

#[test]
fn malformed_response_is_a_decoding_error() {
    let input = server_input(&[frame(1, b"{not json")]);
    let mut conn = Connection::connect(MemStream::new(input)).unwrap();
    let r = conn.exec(Database::new("test".to_string()));
    assert!(matches!(r, Err(Error::Decoding(_))));
    assert!(conn.ready());
}

#[test]
fn short_response_is_a_transport_error() {
    let mut input = server_input(&[]);
    input.extend_from_slice(&1u64.to_le_bytes());
    input.extend_from_slice(&100u32.to_le_bytes());
    input.extend_from_slice(b"short");
    let mut conn = Connection::connect(MemStream::new(input)).unwrap();
    let r = conn.exec(Database::new("test".to_string()));
    assert!(matches!(r, Err(Error::Transport(_))));
    assert!(!conn.ready());
}

#[test]
fn read_string_stops_at_the_zero_byte() {
    let mut stream = MemStream::new(b"hello\0rest".to_vec());
    let s = reql::read_string(&mut stream).unwrap();
    assert_eq!(s, "hello");
}

#[test]
fn read_exact_accumulates_partial_reads() {
    let mut stream = MemStream::with_chunk(vec![1, 2, 3, 4, 5], 2);
    let bytes = reql::read_exact(&mut stream, 5).unwrap();
    assert_eq!(bytes, vec![1, 2, 3, 4, 5]);
}

#[test]
fn read_exact_refuses_a_short_stream() {
    let mut stream = MemStream::new(vec![1, 2, 3]);
    let r = reql::read_exact(&mut stream, 4);
    assert!(matches!(r, Err(Error::Transport(_))));
}

#[test]
fn unknown_error_keeps_its_description() {
    let e = reql::UnknownError::new("something odd".to_string());
    assert_eq!(e.message(), "something odd");
}
