use mssql_core::packet::{
    append_framed, extract_message, push_header, PacketHeader, ReadStep, STATUS_END_OF_MESSAGE,
};
use mssql_core::stream::MssqlStream;
use mssql_core::transport::MemoryTransport;

fn frame_bytes(ptype: u8, payload: &[u8], max: usize) -> Vec<u8> {
    let mut out: Vec<u8> = Vec::new();
    let p = payload.to_vec();
    append_framed(&mut out, ptype, &p, max);
    out
}

fn reassemble(bytes: &Vec<u8>) -> (Vec<u8>, usize) {
    match extract_message(bytes, 0) {
        ReadStep::Message { payload, consumed } => (payload, consumed),
        _ => panic!("expected a whole message"),
    }
}

#[test]
fn round_trip_empty_message() {
    let framed = frame_bytes(4, &[], 512);
    assert_eq!(framed.len(), 8);
    let (payload, consumed) = reassemble(&framed);
    assert_eq!(payload, Vec::<u8>::new());
    assert_eq!(consumed, 8);
}

#[test]
fn round_trip_one_byte() {
    let framed = frame_bytes(4, &[0x2A], 512);
    let (payload, consumed) = reassemble(&framed);
    assert_eq!(payload, vec![0x2A]);
    assert_eq!(consumed, framed.len());
}

#[test]
fn round_trip_exactly_one_full_packet() {
    let body: Vec<u8> = (0..504u32).map(|i| (i % 251) as u8).collect();
    let framed = frame_bytes(4, &body, 512);
    assert_eq!(framed.len(), 512);
    let (payload, _) = reassemble(&framed);
    assert_eq!(payload, body);
}

#[test]
fn round_trip_several_times_packet_size() {
    // A message several times the maximum packet size reassembles
    // exactly, whatever the split.
    let body: Vec<u8> = (0..1800u32).map(|i| (i % 247) as u8).collect();
    let framed = frame_bytes(4, &body, 512);
    // 1800 bytes at 504 per packet: four packets, three full.
    assert_eq!(framed.len(), 1800 + 4 * 8);
    let (payload, consumed) = reassemble(&framed);
    assert_eq!(payload, body);
    assert_eq!(consumed, framed.len());
}

#[test]
fn reassembly_ignores_trailing_bytes() {
    let mut framed = frame_bytes(4, &[1, 2, 3], 512);
    let tail_start = framed.len();
    framed.extend_from_slice(&[9, 9, 9, 9]);
    let (payload, consumed) = reassemble(&framed);
    assert_eq!(payload, vec![1, 2, 3]);
    assert_eq!(consumed, tail_start);
}

#[test]
fn header_layout_is_fixed() {
    let mut out: Vec<u8> = Vec::new();
    push_header(
        &mut out,
        PacketHeader {
            ptype: 0x12,
            status: STATUS_END_OF_MESSAGE,
            length: 0x0102,
            spid: 0x0304,
            packet_id: 7,
            window: 0,
        },
    );
    assert_eq!(out, vec![0x12, 0x01, 0x01, 0x02, 0x03, 0x04, 0x07, 0x00]);
}

#[test]
fn malformed_length_is_rejected() {
    // A header whose length field is under the header size is malformed.
    let bytes: Vec<u8> = vec![4, 1, 0, 3, 0, 0, 1, 0];
    assert!(matches!(extract_message(&bytes, 0), ReadStep::Malformed));
}

#[test]
fn short_buffer_needs_more() {
    let bytes: Vec<u8> = vec![4, 1, 0];
    assert!(matches!(extract_message(&bytes, 0), ReadStep::NeedMore));
}

#[test]
fn missing_end_of_message_keeps_reading() {
    // A stream whose packets so far lack the end-of-message flag never
    // yields a truncated message: the reader reports that more bytes
    // are needed until the flagged packet arrives.
    let mut t = MemoryTransport::new();
    let mut first: Vec<u8> = Vec::new();
    push_header(
        &mut first,
        PacketHeader { ptype: 4, status: 0, length: 11, spid: 0, packet_id: 1, window: 0 },
    );
    first.extend_from_slice(&[10, 11, 12]);
    t.feed(&first);
    let mut s = MssqlStream::new(t, 512);
    assert!(matches!(s.try_read_message(), ReadStep::NeedMore));
    // Feed the final packet; the whole message is the concatenation.
    let mut second: Vec<u8> = Vec::new();
    push_header(
        &mut second,
        PacketHeader {
            ptype: 4,
            status: STATUS_END_OF_MESSAGE,
            length: 10,
            spid: 0,
            packet_id: 2,
            window: 0,
        },
    );
    second.extend_from_slice(&[13, 14]);
    s.transport.feed(&second);
    match s.try_read_message() {
        ReadStep::Message { payload, consumed } => {
            assert_eq!(payload, vec![10, 11, 12, 13, 14]);
            assert_eq!(consumed, 21);
        },
        _ => panic!("expected the reassembled message"),
    }
}

#[test]
fn round_trip_at_largest_packet_size() {
    let body: Vec<u8> = (0..70000u32).map(|i| (i % 249) as u8).collect();
    let framed = frame_bytes(4, &body, 0xFFFF);
    let (payload, consumed) = reassemble(&framed);
    assert_eq!(payload, body);
    assert_eq!(consumed, framed.len());
}

#[test]
fn inconsistent_sequence_is_rejected() {
    // Two packets whose ids are not consecutive make a malformed
    // stream, whatever their lengths say.
    let mut bytes: Vec<u8> = Vec::new();
    push_header(
        &mut bytes,
        PacketHeader { ptype: 4, status: 0, length: 10, spid: 0, packet_id: 1, window: 0 },
    );
    bytes.extend_from_slice(&[1, 2]);
    push_header(
        &mut bytes,
        PacketHeader { ptype: 4, status: 1, length: 10, spid: 0, packet_id: 1, window: 0 },
    );
    bytes.extend_from_slice(&[3, 4]);
    assert!(matches!(extract_message(&bytes, 0), ReadStep::Malformed));
}

#[test]
fn sequence_ids_wrap_after_255() {
    // The sequence id after 255 is 0; a long message framed across the
    // wrap still reassembles.
    let body: Vec<u8> = (0..260u32 * 504).map(|i| (i % 250) as u8).collect();
    let framed = frame_bytes(4, &body, 512);
    let (payload, consumed) = reassemble(&framed);
    assert_eq!(payload, body);
    assert_eq!(consumed, framed.len());
}
