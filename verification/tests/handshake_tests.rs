use mssql_core::connection::MssqlConnection;
use mssql_core::endian::push_be32;
use mssql_core::error::MssqlError;
use mssql_core::establish::MssqlConnectOptions;
use mssql_core::packet::{append_framed, PACKET_TYPE_PRELOGIN, PACKET_TYPE_RESPONSE};
use mssql_core::token::{push_challenge_token, push_error_token, push_info_token, push_loginack_token};
use mssql_core::transport::MemoryTransport;

fn options() -> MssqlConnectOptions {
    MssqlConnectOptions {
        username: b"sa".to_vec(),
        password: b"hunter".to_vec(),
        requested_packet_size: 4096,
    }
}

fn response_message(payload: &Vec<u8>) -> Vec<u8> {
    let mut out: Vec<u8> = Vec::new();
    append_framed(&mut out, PACKET_TYPE_RESPONSE, payload, 4096);
    out
}

fn prelogin_ack_message() -> Vec<u8> {
    let mut payload: Vec<u8> = Vec::new();
    push_be32(&mut payload, 0x74000004);
    push_be32(&mut payload, 4096);
    response_message(&payload)
}

fn loginack_message(packet_size: u32) -> Vec<u8> {
    let mut payload: Vec<u8> = Vec::new();
    push_loginack_token(&mut payload, 0x74000004, packet_size);
    response_message(&payload)
}

#[test]
fn establish_succeeds() {
    let mut t = MemoryTransport::new();
    t.feed(&prelogin_ack_message());
    t.feed(&loginack_message(4096));
    let mut conn = MssqlConnection::establish(t, &options()).unwrap();
    assert!(!conn.should_flush());
    let sent = conn.take_outgoing();
    // Two requests were flushed; the first is the pre-login message.
    assert!(sent.len() >= 16);
    assert_eq!(sent[0], PACKET_TYPE_PRELOGIN);
}

#[test]
fn establish_negotiates_packet_size() {
    let mut t = MemoryTransport::new();
    t.feed(&prelogin_ack_message());
    t.feed(&loginack_message(2048));
    let conn = MssqlConnection::establish(t, &options()).unwrap();
    assert_eq!(conn.stream.packet_size, 2048);
}

#[test]
fn establish_authentication_rejected() {
    let mut t = MemoryTransport::new();
    t.feed(&prelogin_ack_message());
    let mut payload: Vec<u8> = Vec::new();
    push_error_token(&mut payload, 18456, &b"Login failed".to_vec());
    t.feed(&response_message(&payload));
    match MssqlConnection::establish(t, &options()) {
        Err(MssqlError::Authentication { number, message }) => {
            assert_eq!(number, 18456);
            assert_eq!(message, b"Login failed".to_vec());
        },
        _ => panic!("expected an authentication failure"),
    }
}

#[test]
fn establish_transport_closed_mid_handshake() {
    // The peer answers the pre-login and then the stream ends: no login
    // response ever arrives. Establishment fails with a transport error
    // and no connection is handed out.
    let mut t = MemoryTransport::new();
    t.feed(&prelogin_ack_message());
    match MssqlConnection::establish(t, &options()) {
        Err(MssqlError::Transport) => {},
        _ => panic!("expected a transport failure"),
    }
}

#[test]
fn establish_transport_closed_before_start() {
    let mut t = MemoryTransport::new();
    t.shutdown();
    match MssqlConnection::establish(t, &options()) {
        Err(MssqlError::Transport) => {},
        _ => panic!("expected a transport failure"),
    }
}

#[test]
fn establish_malformed_prelogin_ack() {
    let mut t = MemoryTransport::new();
    let payload: Vec<u8> = vec![1, 2, 3];
    t.feed(&response_message(&payload));
    match MssqlConnection::establish(t, &options()) {
        Err(MssqlError::Protocol) => {},
        _ => panic!("expected a protocol failure"),
    }
}

#[test]
fn establish_malformed_login_response() {
    let mut t = MemoryTransport::new();
    t.feed(&prelogin_ack_message());
    let payload: Vec<u8> = vec![0x99];
    t.feed(&response_message(&payload));
    match MssqlConnection::establish(t, &options()) {
        Err(MssqlError::Protocol) => {},
        _ => panic!("expected a protocol failure"),
    }
}

#[test]
fn establish_with_challenge_round() {
    let mut t = MemoryTransport::new();
    t.feed(&prelogin_ack_message());
    let mut challenge: Vec<u8> = Vec::new();
    push_challenge_token(&mut challenge, &vec![0xCA, 0xFE]);
    t.feed(&response_message(&challenge));
    t.feed(&loginack_message(4096));
    let conn = MssqlConnection::establish(t, &options()).unwrap();
    assert_eq!(conn.stream.packet_size, 4096);
}

#[test]
fn establish_skips_info_tokens_in_login_response() {
    let mut t = MemoryTransport::new();
    t.feed(&prelogin_ack_message());
    let mut payload: Vec<u8> = Vec::new();
    push_info_token(&mut payload, 5701, &b"Changed database context".to_vec());
    push_loginack_token(&mut payload, 0x74000004, 4096);
    t.feed(&response_message(&payload));
    assert!(MssqlConnection::establish(t, &options()).is_ok());
}

#[test]
fn establish_unbounded_challenges_rejected() {
    // The client accepts a bounded number of challenge rounds; one more
    // is a protocol failure, not a loop.
    let mut t = MemoryTransport::new();
    t.feed(&prelogin_ack_message());
    let mut challenge: Vec<u8> = Vec::new();
    push_challenge_token(&mut challenge, &vec![1]);
    t.feed(&response_message(&challenge));
    t.feed(&response_message(&challenge));
    t.feed(&response_message(&challenge));
    match MssqlConnection::establish(t, &options()) {
        Err(MssqlError::Protocol) => {},
        _ => panic!("expected a protocol failure"),
    }
}
