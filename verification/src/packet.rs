//! Packet framing: the fixed-size packet header, splitting a logical
//! message into packets no larger than the negotiated packet size, and
//! reassembling a stream of packets back into the message.

use vstd::prelude::*;
use crate::endian::{be16_bytes, be16_val, lemma_be16_roundtrip, push_be16, read_be16};

verus! {

/// Size of the fixed packet header in bytes.
pub const HEADER_LEN: usize = 8;

/// Status bit marking the last packet of a message.
pub const STATUS_END_OF_MESSAGE: u8 = 1;

/// Packet type of a SQL batch request.
pub const PACKET_TYPE_SQL_BATCH: u8 = 1;

/// Packet type of a tabular response from the server.
pub const PACKET_TYPE_RESPONSE: u8 = 4;

/// Packet type of the pre-login negotiation request.
pub const PACKET_TYPE_PRELOGIN: u8 = 0x12;

/// Packet type of the login request.
pub const PACKET_TYPE_LOGIN: u8 = 0x10;

/// Packet type of an authentication-challenge response.
pub const PACKET_TYPE_SSPI: u8 = 0x11;

/// Smallest negotiable packet size.
pub const MIN_PACKET_SIZE: usize = 512;

/// Largest negotiable packet size (the header length field is 16 bits).
pub const MAX_PACKET_SIZE: usize = 0xFFFF;

/// The fixed packet header: type, status (with the end-of-message bit),
/// total packet length (header included, big-endian), server process id,
/// packet sequence id, and window.
#[derive(Clone, Copy, PartialEq, Eq, Structural, Debug)]
pub struct PacketHeader {
    pub ptype: u8,
    pub status: u8,
    pub length: u16,
    pub spid: u16,
    pub packet_id: u8,
    pub window: u8,
}

/// The eight bytes of a packet header on the wire.
pub open spec fn header_bytes(h: PacketHeader) -> Seq<u8> {
    seq![h.ptype, h.status] + be16_bytes(h.length) + be16_bytes(h.spid) + seq![
        h.packet_id,
        h.window,
    ]
}

/// Appends the eight header bytes to `out`.
pub fn push_header(out: &mut Vec<u8>, h: PacketHeader)
    ensures
        final(out)@ == old(out)@ + header_bytes(h),
{
    out.push(h.ptype);
    out.push(h.status);
    push_be16(out, h.length);
    push_be16(out, h.spid);
    out.push(h.packet_id);
    out.push(h.window);
    proof {
        assert(out@ =~= old(out)@ + header_bytes(h));
    }
}

/// The next packet sequence id (wrapping).
pub open spec fn next_id(id: u8) -> u8 {
    if id == 255 {
        0
    } else {
        (id + 1) as u8
    }
}

/// The bytes of a message `payload` split into packets of at most `max`
/// bytes each (header included), starting at sequence id `id`. Every
/// packet but the last is full and carries a clear end-of-message bit;
/// the last carries the end-of-message bit.
pub open spec fn frame_from(ptype: u8, payload: Seq<u8>, max: int, id: u8) -> Seq<u8>
    decreases payload.len(),
{
    let cap = max - 8;
    if max < 9 || payload.len() <= cap {
        header_bytes(
            PacketHeader {
                ptype,
                status: STATUS_END_OF_MESSAGE,
                length: (8 + payload.len()) as u16,
                spid: 0,
                packet_id: id,
                window: 0,
            },
        ) + payload
    } else {
        header_bytes(
            PacketHeader {
                ptype,
                status: 0,
                length: max as u16,
                spid: 0,
                packet_id: id,
                window: 0,
            },
        ) + payload.take(cap) + frame_from(ptype, payload.skip(cap), max, next_id(id))
    }
}

/// The framed form of a whole message, numbered from packet id 1.
pub open spec fn frame(ptype: u8, payload: Seq<u8>, max: int) -> Seq<u8> {
    frame_from(ptype, payload, max, 1)
}

/// Outcome of scanning a byte stream for one whole message:
/// `NeedMore` — the stream ends before an end-of-message packet;
/// `Malformed` — a header carries an impossible length;
/// `Msg(payload, consumed)` — the reassembled message and the number of
/// bytes its packets occupied.
pub enum ScanResult {
    NeedMore,
    Malformed,
    Msg(Seq<u8>, int),
}

/// Scans `b` for the packets of one message whose next packet must
/// carry sequence id `id`, concatenating payloads until a packet
/// carries the end-of-message bit. A length under the header size or a
/// packet out of sequence is malformed.
pub open spec fn scan_from(b: Seq<u8>, id: u8) -> ScanResult
    decreases b.len(),
{
    if b.len() < 8 {
        ScanResult::NeedMore
    } else {
        let len = be16_val(b[2], b[3]) as int;
        if len < 8 {
            ScanResult::Malformed
        } else if b[6] != id {
            ScanResult::Malformed
        } else if b.len() < len {
            ScanResult::NeedMore
        } else {
            let chunk = b.subrange(8, len);
            if b[1] & STATUS_END_OF_MESSAGE != 0 {
                ScanResult::Msg(chunk, len)
            } else {
                match scan_from(b.skip(len), next_id(id)) {
                    ScanResult::NeedMore => ScanResult::NeedMore,
                    ScanResult::Malformed => ScanResult::Malformed,
                    ScanResult::Msg(p, c) => ScanResult::Msg(chunk + p, len + c),
                }
            }
        }
    }
}

/// Scans `b` for the packets of one message. The first packet sets the
/// sequence id; every further packet of the message must carry the next
/// id in order, else the stream is malformed.
pub open spec fn scan(b: Seq<u8>) -> ScanResult {
    if b.len() < 8 {
        ScanResult::NeedMore
    } else {
        scan_from(b, b[6])
    }
}

/// A successful scan consumed between one header and the whole stream.
pub proof fn lemma_scan_from_consumed_bounds(b: Seq<u8>, id: u8)
    ensures
        scan_from(b, id) matches ScanResult::Msg(p, c) ==> 8 <= c <= b.len() && 8 + p.len() <= c,
    decreases b.len(),
{
    if b.len() >= 8 {
        let len = be16_val(b[2], b[3]) as int;
        if 8 <= len <= b.len() && b[6] == id && b[1] & STATUS_END_OF_MESSAGE == 0 {
            lemma_scan_from_consumed_bounds(b.skip(len), next_id(id));
        }
    }
}

/// A successful scan consumed between one header and the whole stream.
pub proof fn lemma_scan_consumed_bounds(b: Seq<u8>)
    ensures
        scan(b) matches ScanResult::Msg(p, c) ==> 8 <= c <= b.len() && 8 + p.len() <= c,
{
    if b.len() >= 8 {
        lemma_scan_from_consumed_bounds(b, b[6]);
    }
}

/// Reassembly inverts framing: scanning the framed packets of any
/// message — possibly followed by further bytes — yields exactly the
/// original message and consumes exactly the framed bytes.
pub proof fn lemma_scan_frame_from(ptype: u8, payload: Seq<u8>, max: int, id: u8, rest: Seq<u8>)
    requires
        9 <= max <= 0xFFFF,
    ensures
        scan_from(frame_from(ptype, payload, max, id) + rest, id) == ScanResult::Msg(
            payload,
            frame_from(ptype, payload, max, id).len() as int,
        ),
    decreases payload.len(),
{
    let cap = max - 8;
    let f = frame_from(ptype, payload, max, id);
    let b = f + rest;
    if payload.len() <= cap {
        let length: u16 = (8 + payload.len()) as u16;
        lemma_be16_roundtrip(length);
        assert(b[2] == (length / 256) as u8);
        assert(b[3] == (length % 256) as u8);
        assert(be16_val(b[2], b[3]) == length);
        assert(b[1] == STATUS_END_OF_MESSAGE);
        assert(b[6] == id);
        assert((1u8 & 1u8) != 0u8) by (bit_vector);
        assert(b.subrange(8, length as int) =~= payload);
        assert(scan(b) == ScanResult::Msg(payload, length as int));
        assert(f.len() == length as int);
    } else {
        lemma_be16_roundtrip(max as u16);
        assert(b[2] == ((max as u16) / 256) as u8);
        assert(b[3] == ((max as u16) % 256) as u8);
        assert(be16_val(b[2], b[3]) == max as u16);
        assert(b[1] == 0u8);
        assert(b[6] == id);
        assert((0u8 & STATUS_END_OF_MESSAGE) == 0u8) by (bit_vector);
        let tail = frame_from(ptype, payload.skip(cap), max, next_id(id));
        assert(b.subrange(8, max) =~= payload.take(cap));
        assert(b.skip(max) =~= tail + rest);
        lemma_scan_frame_from(ptype, payload.skip(cap), max, next_id(id), rest);
        assert(scan_from(b.skip(max), next_id(id)) == ScanResult::Msg(
            payload.skip(cap),
            tail.len() as int,
        ));
        assert(payload.take(cap) + payload.skip(cap) =~= payload);
        assert(scan(b) == ScanResult::Msg(payload, max + tail.len()));
        assert(f.len() == max + tail.len());
    }
}

/// Splitting a message into packets and reassembling them yields the
/// message back, whatever its size relative to the packet size.
pub proof fn lemma_frame_reassembly(ptype: u8, payload: Seq<u8>, max: int)
    requires
        9 <= max <= 0xFFFF,
    ensures
        scan(frame(ptype, payload, max)) == ScanResult::Msg(
            payload,
            frame(ptype, payload, max).len() as int,
        ),
{
    lemma_scan_frame_from(ptype, payload, max, 1, Seq::<u8>::empty());
    assert(frame(ptype, payload, max) + Seq::<u8>::empty() =~= frame(ptype, payload, max));
    lemma_frame_len_lower(ptype, payload, max, 1);
    assert(frame(ptype, payload, max)[6] == 1u8);
}

/// A framed message occupies at least one header.
pub proof fn lemma_frame_len_lower(ptype: u8, payload: Seq<u8>, max: int, id: u8)
    requires
        9 <= max <= 0xFFFF,
    ensures
        frame_from(ptype, payload, max, id).len() >= 8,
    decreases payload.len(),
{
    if payload.len() > max - 8 {
        lemma_frame_len_lower(ptype, payload.skip(max - 8), max, next_id(id));
    }
}

/// Appends to `out` the framed packets of `payload` from offset `off`
/// on, numbered from `id`.
pub fn append_framed_from(
    out: &mut Vec<u8>,
    ptype: u8,
    payload: &Vec<u8>,
    off: usize,
    max: usize,
    id: u8,
)
    requires
        off <= payload@.len(),
        9 <= max <= 0xFFFF,
    ensures
        final(out)@ == old(out)@ + frame_from(ptype, payload@.skip(off as int), max as int, id),
    decreases payload@.len() - off,
{
    let ghost pre = out@;
    let rem = payload.len() - off;
    let cap = max - 8;
    if rem <= cap {
        let h = PacketHeader {
            ptype,
            status: STATUS_END_OF_MESSAGE,
            length: (8 + rem) as u16,
            spid: 0,
            packet_id: id,
            window: 0,
        };
        push_header(out, h);
        let mut i = off;
        while i < payload.len()
            invariant
                off <= i <= payload@.len(),
                out@ == pre + header_bytes(h) + payload@.subrange(off as int, i as int),
            decreases payload@.len() - i,
        {
            out.push(payload[i]);
            proof {
                assert(out@ =~= pre + header_bytes(h) + payload@.subrange(
                    off as int,
                    i as int + 1,
                ));
            }
            i = i + 1;
        }
        proof {
            assert(payload@.subrange(off as int, payload@.len() as int) =~= payload@.skip(
                off as int,
            ));
            assert(out@ =~= pre + frame_from(ptype, payload@.skip(off as int), max as int, id));
        }
    } else {
        let h = PacketHeader {
            ptype,
            status: 0,
            length: max as u16,
            spid: 0,
            packet_id: id,
            window: 0,
        };
        push_header(out, h);
        let end = off + cap;
        let mut i = off;
        while i < end
            invariant
                off <= i <= end,
                end <= payload@.len(),
                out@ == pre + header_bytes(h) + payload@.subrange(off as int, i as int),
            decreases end - i,
        {
            out.push(payload[i]);
            proof {
                assert(out@ =~= pre + header_bytes(h) + payload@.subrange(
                    off as int,
                    i as int + 1,
                ));
            }
            i = i + 1;
        }
        let id2: u8 = if id == 255 {
            0
        } else {
            id + 1
        };
        append_framed_from(out, ptype, payload, end, max, id2);
        proof {
            assert(payload@.subrange(off as int, end as int) =~= payload@.skip(off as int).take(
                cap as int,
            ));
            assert(payload@.skip(end as int) =~= payload@.skip(off as int).skip(cap as int));
            assert(out@ =~= pre + frame_from(ptype, payload@.skip(off as int), max as int, id));
        }
    }
}

/// Appends to `out` the framed packets of the whole message `payload`.
pub fn append_framed(out: &mut Vec<u8>, ptype: u8, payload: &Vec<u8>, max: usize)
    requires
        9 <= max <= 0xFFFF,
    ensures
        final(out)@ == old(out)@ + frame(ptype, payload@, max as int),
{
    append_framed_from(out, ptype, payload, 0, max, 1);
    proof {
        assert(payload@.skip(0) =~= payload@);
    }
}

/// One step of reading a message out of buffered bytes: either more
/// bytes are needed, or a header is malformed, or a whole message and
/// the count of bytes its packets occupied.
pub enum ReadStep {
    NeedMore,
    Malformed,
    Message { payload: Vec<u8>, consumed: usize },
}

/// Extracts one whole message from `b` starting at `pos`, mirroring
/// `scan` on `b[pos..]`.
pub fn extract_message(b: &Vec<u8>, pos: usize) -> (r: ReadStep)
    requires
        pos <= b@.len(),
    ensures
        match scan(b@.skip(pos as int)) {
            ScanResult::NeedMore => r is NeedMore,
            ScanResult::Malformed => r is Malformed,
            ScanResult::Msg(p, c) => r matches ReadStep::Message { payload, consumed }
                && payload@ == p && consumed == c,
        },
{
    let ghost s = b@.skip(pos as int);
    if b.len() - pos < 8 {
        return ReadStep::NeedMore;
    }
    let id = b[pos + 6];
    proof {
        assert(s[6] == b@[pos as int + 6]);
    }
    extract_from(b, pos, id)
}

/// Extracts one whole message from `b` starting at `pos`, where the
/// packet at `pos` must carry sequence id `id`; mirrors `scan_from`.
fn extract_from(b: &Vec<u8>, pos: usize, id: u8) -> (r: ReadStep)
    requires
        pos <= b@.len(),
    ensures
        match scan_from(b@.skip(pos as int), id) {
            ScanResult::NeedMore => r is NeedMore,
            ScanResult::Malformed => r is Malformed,
            ScanResult::Msg(p, c) => r matches ReadStep::Message { payload, consumed }
                && payload@ == p && consumed == c,
        },
    decreases b@.len() - pos,
{
    let ghost s = b@.skip(pos as int);
    if b.len() - pos < 8 {
        return ReadStep::NeedMore;
    }
    let len = read_be16(b, pos + 2) as usize;
    proof {
        assert(s[2] == b@[pos as int + 2]);
        assert(s[3] == b@[pos as int + 3]);
    }
    if len < 8 {
        return ReadStep::Malformed;
    }
    let seq_id = b[pos + 6];
    proof {
        assert(s[6] == b@[pos as int + 6]);
    }
    if seq_id != id {
        return ReadStep::Malformed;
    }
    if b.len() - pos < len {
        return ReadStep::NeedMore;
    }
    let status = b[pos + 1];
    proof {
        assert(s[1] == b@[pos as int + 1]);
    }
    let mut chunk: Vec<u8> = Vec::new();
    let mut i = pos + 8;
    let end = pos + len;
    while i < end
        invariant
            pos + 8 <= i <= end,
            end <= b@.len(),
            chunk@ == b@.subrange(pos as int + 8, i as int),
        decreases end - i,
    {
        chunk.push(b[i]);
        proof {
            assert(chunk@ =~= b@.subrange(pos as int + 8, i as int + 1));
        }
        i = i + 1;
    }
    proof {
        assert(chunk@ =~= s.subrange(8, len as int));
    }
    if status & STATUS_END_OF_MESSAGE != 0 {
        ReadStep::Message { payload: chunk, consumed: len }
    } else {
        let id2: u8 = if id == 255 {
            0
        } else {
            id + 1
        };
        proof {
            assert(b@.skip(pos as int + len as int) =~= s.skip(len as int));
            lemma_scan_from_consumed_bounds(s.skip(len as int), next_id(id));
        }
        match extract_from(b, pos + len, id2) {
            ReadStep::NeedMore => ReadStep::NeedMore,
            ReadStep::Malformed => ReadStep::Malformed,
            ReadStep::Message { payload, consumed } => {
                let mut joined = chunk;
                let mut tail = payload;
                joined.append(&mut tail);
                proof {
                    if let ScanResult::Msg(p, c) = scan_from(s, id) {
                        assert(joined@ =~= p);
                    }
                }
                ReadStep::Message { payload: joined, consumed: len + consumed }
            },
        }
    }
}

} // verus!
