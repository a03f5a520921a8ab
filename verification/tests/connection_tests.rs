use mssql_core::connection::MssqlConnection;
use mssql_core::endian::push_be32;
use mssql_core::error::MssqlError;
use mssql_core::establish::MssqlConnectOptions;
use mssql_core::executor::{command_ok, Command, Param};
use mssql_core::packet::{
    append_framed, push_header, PacketHeader, PACKET_TYPE_RESPONSE, PACKET_TYPE_SQL_BATCH,
};
use mssql_core::token::{
    push_colmeta_token, push_done_token, push_error_token, push_info_token, push_loginack_token,
    push_row_token, ColKind, Value,
};
use mssql_core::transport::MemoryTransport;

fn response_message(payload: &Vec<u8>) -> Vec<u8> {
    let mut out: Vec<u8> = Vec::new();
    append_framed(&mut out, PACKET_TYPE_RESPONSE, payload, 4096);
    out
}

/// Builds a connection already past its handshake, its request bytes
/// drained.
fn ready_connection() -> MssqlConnection {
    let mut t = MemoryTransport::new();
    let mut ack: Vec<u8> = Vec::new();
    push_be32(&mut ack, 0x74000004);
    push_be32(&mut ack, 4096);
    t.feed(&response_message(&ack));
    let mut login: Vec<u8> = Vec::new();
    push_loginack_token(&mut login, 0x74000004, 4096);
    t.feed(&response_message(&login));
    let opts = MssqlConnectOptions {
        username: b"sa".to_vec(),
        password: b"pw".to_vec(),
        requested_packet_size: 4096,
    };
    let mut conn = MssqlConnection::establish(t, &opts).unwrap();
    let _ = conn.take_outgoing();
    conn
}

fn select_one_response() -> Vec<u8> {
    let mut payload: Vec<u8> = Vec::new();
    push_colmeta_token(&mut payload, &vec![ColKind::Fixed(1)]);
    push_row_token(&mut payload, &vec![ColKind::Fixed(1)], &vec![Value::Bytes(vec![1])]);
    push_done_token(&mut payload, 0, 1);
    response_message(&payload)
}

fn done_only_response() -> Vec<u8> {
    let mut payload: Vec<u8> = Vec::new();
    push_done_token(&mut payload, 0, 0);
    response_message(&payload)
}

fn command(text: &[u8]) -> Command {
    Command { text: text.to_vec(), params: Vec::new() }
}

#[test]
fn execute_select_one_round_trip() {
    // Encode "SELECT 1", exchange it, decode: exactly one result set
    // with one column and one row valued 1, and a successful
    // completion token.
    let mut conn = ready_connection();
    conn.feed(&select_one_response());
    let q = conn.execute(&command(b"SELECT 1")).unwrap();
    assert_eq!(q.sets.len(), 1);
    let set = &q.sets[0];
    assert_eq!(set.columns, vec![ColKind::Fixed(1)]);
    assert_eq!(set.rows.len(), 1);
    assert_eq!(set.rows[0], vec![Value::Bytes(vec![1])]);
    assert_eq!(set.status & 2, 0);
    assert_eq!(set.affected, 1);
    // The request went out as one SQL batch packet whose payload holds
    // the flag byte, the text length, and the text.
    let sent = conn.take_outgoing();
    assert_eq!(sent[0], PACKET_TYPE_SQL_BATCH);
    assert_eq!(sent[8], 0); // execute, not describe
    assert_eq!(&sent[13..21], b"SELECT 1");
}

#[test]
fn database_error_leaves_connection_usable() {
    // A server error token mid-response surfaces as a database error,
    // and the same connection still answers a ping.
    let mut conn = ready_connection();
    let mut payload: Vec<u8> = Vec::new();
    push_colmeta_token(&mut payload, &vec![ColKind::Var]);
    push_error_token(&mut payload, 547, &b"constraint violation".to_vec());
    conn.feed(&response_message(&payload));
    match conn.execute(&command(b"INSERT INTO t VALUES (1)")) {
        Err(MssqlError::Database { number, message }) => {
            assert_eq!(number, 547);
            assert_eq!(message, b"constraint violation".to_vec());
        },
        _ => panic!("expected a database error"),
    }
    conn.feed(&done_only_response());
    assert!(conn.ping().is_ok());
}

#[test]
fn pending_response_blocks_execute() {
    // While a response is pending, a direct execute fails and writes
    // nothing; an explicit drain restores the connection.
    let mut conn = ready_connection();
    conn.feed(&select_one_response());
    conn.start_execute(&command(b"SELECT 1")).unwrap();
    let sent_before = conn.take_outgoing();
    assert!(!sent_before.is_empty());
    match conn.execute(&command(b"SELECT 2")) {
        Err(MssqlError::Protocol) => {},
        _ => panic!("expected the pending exchange to block"),
    }
    // Nothing was interleaved into the outgoing stream.
    assert!(conn.take_outgoing().is_empty());
    conn.wait_until_ready().unwrap();
    conn.feed(&select_one_response());
    assert!(conn.execute(&command(b"SELECT 3")).is_ok());
}

#[test]
fn fatal_error_fails_fast_forever() {
    // A response that never arrives is a transport failure; from then
    // on every operation fails deterministically, even once bytes are
    // available.
    let mut conn = ready_connection();
    match conn.execute(&command(b"SELECT 1")) {
        Err(MssqlError::Transport) => {},
        _ => panic!("expected a transport failure"),
    }
    conn.feed(&select_one_response());
    assert!(matches!(conn.execute(&command(b"SELECT 1")), Err(MssqlError::Protocol)));
    assert!(matches!(conn.ping(), Err(MssqlError::Protocol)));
    assert!(matches!(conn.begin(), Err(MssqlError::Protocol)));
}

#[test]
fn malformed_token_stream_is_fatal() {
    let mut conn = ready_connection();
    let payload: Vec<u8> = vec![0x42, 0x42];
    conn.feed(&response_message(&payload));
    assert!(matches!(conn.execute(&command(b"SELECT 1")), Err(MssqlError::Protocol)));
    assert!(matches!(conn.ping(), Err(MssqlError::Protocol)));
}

#[test]
fn should_flush_tracks_staged_writes() {
    // False right after a successful flush; true right after a write
    // that stages bytes without flushing.
    let mut conn = ready_connection();
    assert!(!conn.should_flush());
    conn.stream.write_message(PACKET_TYPE_SQL_BATCH, &vec![1, 2, 3]);
    assert!(conn.should_flush());
    conn.flush().unwrap();
    assert!(!conn.should_flush());
}

#[test]
fn ping_sends_comment_batch() {
    // The probe is the comment-only batch, never a data query.
    let mut conn = ready_connection();
    conn.feed(&done_only_response());
    conn.ping().unwrap();
    let sent = conn.take_outgoing();
    assert_eq!(sent[0], PACKET_TYPE_SQL_BATCH);
    // Payload: flag 0, text length 15, the comment text, no parameters.
    assert_eq!(sent[8], 0);
    assert_eq!(&sent[9..13], &[0, 0, 0, 15]);
    assert_eq!(&sent[13..28], b"/* SQLx ping */");
    assert_eq!(&sent[28..30], &[0, 0]);
}

#[test]
fn commit_closes_the_transaction() {
    let mut conn = ready_connection();
    conn.feed(&done_only_response());
    conn.begin().unwrap();
    assert!(conn.transaction_open);
    // Without an open transaction there is nothing to commit later.
    conn.feed(&done_only_response());
    conn.commit().unwrap();
    assert!(!conn.transaction_open);
    let sent = conn.take_outgoing();
    let text = b"COMMIT TRANSACTION";
    let pos = sent.windows(text.len()).position(|w| w == text);
    assert!(pos.is_some());
    // A second commit fails without issuing anything.
    assert!(matches!(conn.commit(), Err(MssqlError::Protocol)));
    assert!(conn.take_outgoing().is_empty());
    // And a fresh begin works again.
    conn.feed(&done_only_response());
    assert!(conn.begin().is_ok());
}

#[test]
fn rollback_closes_the_transaction() {
    let mut conn = ready_connection();
    assert!(matches!(conn.rollback(), Err(MssqlError::Protocol)));
    conn.feed(&done_only_response());
    conn.begin().unwrap();
    conn.feed(&done_only_response());
    conn.rollback().unwrap();
    assert!(!conn.transaction_open);
    let sent = conn.take_outgoing();
    let text = b"ROLLBACK TRANSACTION";
    assert!(sent.windows(text.len()).position(|w| w == text).is_some());
}

#[test]
fn out_of_sequence_response_is_a_protocol_error() {
    // A multi-packet response whose second packet skips a sequence id
    // is a malformed header per the protocol: fatal.
    let mut conn = ready_connection();
    let mut payload: Vec<u8> = Vec::new();
    push_done_token(&mut payload, 0, 0);
    let mut bad: Vec<u8> = Vec::new();
    // First packet: id 1, no end-of-message, carrying half the payload.
    push_header(
        &mut bad,
        PacketHeader { ptype: 4, status: 0, length: 8 + 5, spid: 0, packet_id: 1, window: 0 },
    );
    bad.extend_from_slice(&payload[..5]);
    // Second packet: id 3 instead of 2.
    push_header(
        &mut bad,
        PacketHeader {
            ptype: 4,
            status: 1,
            length: 8 + (payload.len() - 5) as u16,
            spid: 0,
            packet_id: 3,
            window: 0,
        },
    );
    bad.extend_from_slice(&payload[5..]);
    conn.feed(&bad);
    assert!(matches!(conn.execute(&command(b"SELECT 1")), Err(MssqlError::Protocol)));
    assert!(matches!(conn.ping(), Err(MssqlError::Protocol)));
}

#[test]
fn begin_opens_one_transaction() {
    let mut conn = ready_connection();
    conn.feed(&done_only_response());
    conn.begin().unwrap();
    assert!(conn.transaction_open);
    let sent = conn.take_outgoing();
    assert_eq!(&sent[13..30], b"BEGIN TRANSACTION");
    // A second begin fails without issuing anything.
    assert!(matches!(conn.begin(), Err(MssqlError::Protocol)));
    assert!(conn.take_outgoing().is_empty());
}

#[test]
fn describe_returns_column_kinds_only() {
    let mut conn = ready_connection();
    let mut payload: Vec<u8> = Vec::new();
    push_colmeta_token(&mut payload, &vec![ColKind::Fixed(4), ColKind::Var]);
    push_done_token(&mut payload, 0, 0);
    conn.feed(&response_message(&payload));
    let cols = conn.describe(&command(b"SELECT a, b FROM t")).unwrap();
    assert_eq!(cols, vec![ColKind::Fixed(4), ColKind::Var]);
    let sent = conn.take_outgoing();
    assert_eq!(sent[8], 1); // the describe-only flag
}

#[test]
fn multiple_result_sets_in_emission_order() {
    let mut conn = ready_connection();
    let mut payload: Vec<u8> = Vec::new();
    push_colmeta_token(&mut payload, &vec![ColKind::Fixed(1)]);
    push_row_token(&mut payload, &vec![ColKind::Fixed(1)], &vec![Value::Bytes(vec![7])]);
    push_done_token(&mut payload, 0, 1);
    push_colmeta_token(&mut payload, &vec![ColKind::Var]);
    push_done_token(&mut payload, 0, 0);
    conn.feed(&response_message(&payload));
    let q = conn.execute(&command(b"SELECT 7; SELECT name FROM t")).unwrap();
    assert_eq!(q.sets.len(), 2);
    assert_eq!(q.sets[0].rows[0], vec![Value::Bytes(vec![7])]);
    assert_eq!(q.sets[1].columns, vec![ColKind::Var]);
    assert_eq!(q.sets[1].rows.len(), 0);
}

#[test]
fn value_kinds_decode_per_declared_kind() {
    // Fixed-length, length-prefixed and null-terminated encodings each
    // decode per their declared kind; null indicators decode to an
    // explicit absent value.
    let mut conn = ready_connection();
    let cols = vec![ColKind::Fixed(2), ColKind::Var, ColKind::NullTerm, ColKind::Var];
    let vals = vec![
        Value::Null,
        Value::Bytes(b"hi".to_vec()),
        Value::Bytes(vec![0x41, 0x42]),
        Value::Bytes(Vec::new()),
    ];
    let mut payload: Vec<u8> = Vec::new();
    push_colmeta_token(&mut payload, &cols);
    push_row_token(&mut payload, &cols, &vals);
    push_done_token(&mut payload, 0, 1);
    conn.feed(&response_message(&payload));
    let q = conn.execute(&command(b"SELECT * FROM t")).unwrap();
    assert_eq!(q.sets[0].rows[0], vals);
}

#[test]
fn info_tokens_are_skipped() {
    let mut conn = ready_connection();
    let mut payload: Vec<u8> = Vec::new();
    push_info_token(&mut payload, 5701, &b"context".to_vec());
    push_done_token(&mut payload, 0, 0);
    conn.feed(&response_message(&payload));
    let q = conn.execute(&command(b"SET NOCOUNT ON")).unwrap();
    assert_eq!(q.sets.len(), 1);
    assert_eq!(q.sets[0].rows.len(), 0);
}

#[test]
fn multi_packet_response_reassembles() {
    // A server response larger than its packet size arrives as several
    // packets and decodes as one message.
    let mut conn = ready_connection();
    let big: Vec<u8> = (0..900u32).map(|i| 1 + (i % 200) as u8).collect();
    let cols = vec![ColKind::Var];
    let vals = vec![Value::Bytes(big.clone())];
    let mut payload: Vec<u8> = Vec::new();
    push_colmeta_token(&mut payload, &cols);
    push_row_token(&mut payload, &cols, &vals);
    push_done_token(&mut payload, 0, 1);
    let mut framed: Vec<u8> = Vec::new();
    append_framed(&mut framed, PACKET_TYPE_RESPONSE, &payload, 512);
    assert!(framed.len() > payload.len() + 8);
    conn.feed(&framed);
    let q = conn.execute(&command(b"SELECT blob FROM t")).unwrap();
    assert_eq!(q.sets[0].rows[0], vec![Value::Bytes(big)]);
}

#[test]
fn close_always_succeeds() {
    let conn = ready_connection();
    assert!(conn.close().is_ok());
}

#[test]
fn error_classes_report_fatality() {
    assert!(MssqlError::Transport.is_fatal());
    assert!(MssqlError::Protocol.is_fatal());
    assert!(MssqlError::Authentication { number: 1, message: Vec::new() }.is_fatal());
    assert!(!MssqlError::Database { number: 1, message: Vec::new() }.is_fatal());
}

#[test]
fn command_limits_are_checked() {
    assert!(command_ok(&command(b"SELECT 1")));
    let bad = Command {
        text: b"SELECT ?".to_vec(),
        params: vec![Param { kind: ColKind::Fixed(9), value: Value::Null }],
    };
    assert!(!command_ok(&bad));
    let mismatched = Command {
        text: b"SELECT ?".to_vec(),
        params: vec![Param { kind: ColKind::Fixed(2), value: Value::Bytes(vec![1]) }],
    };
    assert!(!command_ok(&mismatched));
    let good = Command {
        text: b"SELECT ?".to_vec(),
        params: vec![Param { kind: ColKind::Fixed(2), value: Value::Bytes(vec![1, 2]) }],
    };
    assert!(command_ok(&good));
}

#[test]
fn parameters_are_encoded_into_the_request() {
    let mut conn = ready_connection();
    conn.feed(&done_only_response());
    let cmd = Command {
        text: b"X".to_vec(),
        params: vec![Param { kind: ColKind::Fixed(2), value: Value::Bytes(vec![0xAA, 0xBB]) }],
    };
    conn.execute(&cmd).unwrap();
    let sent = conn.take_outgoing();
    // Payload: flag, length 1 (big-endian u32), "X", count 1, then the
    // parameter: kind Fixed(2), indicator 2, two bytes.
    assert_eq!(&sent[8..], &[0, 0, 0, 0, 1, b'X', 0, 1, 0, 2, 2, 0xAA, 0xBB]);
}

#[test]
fn flush_drains_pending_response() {
    // Per the lifecycle contract, flush drains staged writes and any
    // outstanding unread response, returning the connection to ready.
    let mut conn = ready_connection();
    conn.feed(&select_one_response());
    conn.start_execute(&command(b"SELECT 1")).unwrap();
    conn.flush().unwrap();
    assert!(!conn.should_flush());
    // Ready again: a fresh exchange succeeds.
    conn.feed(&done_only_response());
    assert!(conn.ping().is_ok());
}

#[test]
fn wait_until_ready_is_a_no_op_when_idle() {
    let mut conn = ready_connection();
    assert!(conn.wait_until_ready().is_ok());
    conn.feed(&done_only_response());
    assert!(conn.ping().is_ok());
}

#[test]
fn wait_until_ready_fails_on_missing_response() {
    let mut conn = ready_connection();
    conn.start_execute(&command(b"SELECT 1")).unwrap();
    assert!(matches!(conn.wait_until_ready(), Err(MssqlError::Transport)));
    assert!(matches!(conn.ping(), Err(MssqlError::Protocol)));
}

#[test]
fn take_outgoing_empties_the_send_side() {
    let mut conn = ready_connection();
    conn.feed(&done_only_response());
    conn.ping().unwrap();
    assert!(!conn.take_outgoing().is_empty());
    assert!(conn.take_outgoing().is_empty());
}
