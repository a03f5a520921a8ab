//! The packet stream: owns the transport and the write buffer, frames
//! outgoing messages into packets, and reassembles incoming packets
//! into messages.

use vstd::prelude::*;
use crate::error::MssqlError;
use crate::packet::{
    frame, scan, append_framed, extract_message, lemma_frame_len_lower, lemma_scan_consumed_bounds,
    ReadStep, ScanResult, MIN_PACKET_SIZE, MAX_PACKET_SIZE,
};
use crate::transport::MemoryTransport;

verus! {

/// The packet stream over one transport. `wbuf` stages framed packets
/// of outgoing messages until `flush` hands them to the transport;
/// incoming bytes are consumed message by message.
#[derive(Debug)]
pub struct MssqlStream {
    pub transport: MemoryTransport,
    /// Staged, already framed outgoing bytes not yet flushed.
    pub wbuf: Vec<u8>,
    /// The negotiated maximum packet size, header included.
    pub packet_size: usize,
}

impl MssqlStream {
    /// Well-formedness: a sane negotiated packet size and a sane
    /// transport cursor.
    pub open spec fn wf(self) -> bool {
        &&& MIN_PACKET_SIZE <= self.packet_size <= MAX_PACKET_SIZE
        &&& self.transport.wf()
    }

    /// A non-empty write buffer means staged data awaits a flush.
    pub open spec fn pending_write(self) -> bool {
        self.wbuf@.len() > 0
    }

    pub fn new(transport: MemoryTransport, packet_size: usize) -> (s: MssqlStream)
        requires
            transport.wf(),
            MIN_PACKET_SIZE <= packet_size <= MAX_PACKET_SIZE,
        ensures
            s.wf(),
            s.transport == transport,
            s.wbuf@ == Seq::<u8>::empty(),
            s.packet_size == packet_size,
    {
        MssqlStream { transport, wbuf: Vec::new(), packet_size }
    }

    /// Pure observation: is a flush required before awaiting the server?
    pub fn should_flush(&self) -> (r: bool)
        ensures
            r == self.pending_write(),
    {
        self.wbuf.len() > 0
    }

    /// Splits `payload` into packets of type `ptype` and stages them in
    /// the write buffer. After any write the stream reports a pending
    /// flush.
    pub fn write_message(&mut self, ptype: u8, payload: &Vec<u8>)
        requires
            old(self).wf(),
        ensures
            final(self).wf(),
            final(self).wbuf@ == old(self).wbuf@ + frame(
                ptype,
                payload@,
                old(self).packet_size as int,
            ),
            final(self).transport == old(self).transport,
            final(self).packet_size == old(self).packet_size,
            final(self).pending_write(),
    {
        append_framed(&mut self.wbuf, ptype, payload, self.packet_size);
        proof {
            lemma_frame_len_lower(ptype, payload@, self.packet_size as int, 1);
        }
    }

    /// Hands all staged bytes to the transport. Fails with a transport
    /// error when the stream is closed.
    pub fn flush(&mut self) -> (r: Result<(), MssqlError>)
        requires
            old(self).wf(),
        ensures
            final(self).wf(),
            final(self).packet_size == old(self).packet_size,
            final(self).transport.open == old(self).transport.open,
            final(self).transport.unread() == old(self).transport.unread(),
            old(self).transport.open ==> r is Ok && final(self).wbuf@ == Seq::<u8>::empty()
                && final(self).transport.outgoing@ == old(self).transport.outgoing@ + old(
                self,
            ).wbuf@ && !final(self).pending_write(),
            !old(self).transport.open ==> (r matches Err(MssqlError::Transport)
                && *final(self) == *old(self)),
    {
        if !self.transport.is_open() {
            return Err(MssqlError::Transport);
        }
        self.transport.outgoing.append(&mut self.wbuf);
        Ok(())
    }

    /// Attempts to reassemble one whole message from the bytes received
    /// so far. `NeedMore` reports that the received bytes end before a
    /// packet carrying the end-of-message flag: no truncated message is
    /// ever returned, the caller must obtain more bytes and try again.
    pub fn try_read_message(&mut self) -> (r: ReadStep)
        requires
            old(self).wf(),
        ensures
            final(self).wf(),
            final(self).wbuf == old(self).wbuf,
            final(self).packet_size == old(self).packet_size,
            final(self).transport.open == old(self).transport.open,
            final(self).transport.outgoing == old(self).transport.outgoing,
            match scan(old(self).transport.unread()) {
                ScanResult::NeedMore => r is NeedMore && *final(self) == *old(self),
                ScanResult::Malformed => r is Malformed && *final(self) == *old(self),
                ScanResult::Msg(p, c) => r matches ReadStep::Message { payload, consumed }
                    && payload@ == p && consumed == c
                    && final(self).transport.unread() == old(self).transport.unread().skip(c),
            },
    {
        proof {
            lemma_scan_consumed_bounds(self.transport.unread());
        }
        // Binds the buffer length so that advancing the cursor is known
        // to fit in usize.
        let total = self.transport.incoming.len();
        match extract_message(&self.transport.incoming, self.transport.pos) {
            ReadStep::NeedMore => ReadStep::NeedMore,
            ReadStep::Malformed => ReadStep::Malformed,
            ReadStep::Message { payload, consumed } => {
                self.transport.pos = self.transport.pos + consumed;
                proof {
                    assert(final(self).transport.unread() =~= old(
                        self,
                    ).transport.unread().skip(consumed as int));
                }
                ReadStep::Message { payload, consumed }
            },
        }
    }

    /// Whether the received bytes already hold one whole message, the
    /// end-of-message packet included: a non-consuming observation for
    /// drivers deciding whether more bytes must be obtained first.
    pub fn has_whole_message(&self) -> (r: bool)
        requires
            self.wf(),
        ensures
            r == (scan(self.transport.unread()) is Msg),
    {
        match extract_message(&self.transport.incoming, self.transport.pos) {
            ReadStep::Message { payload: _, consumed: _ } => true,
            _ => false,
        }
    }

    /// Reads one whole message, treating exhaustion of the received
    /// bytes as an unexpected end of stream and a malformed header as a
    /// protocol failure.
    pub fn read_message(&mut self) -> (r: Result<Vec<u8>, MssqlError>)
        requires
            old(self).wf(),
        ensures
            final(self).wf(),
            final(self).wbuf == old(self).wbuf,
            final(self).packet_size == old(self).packet_size,
            final(self).transport.open == old(self).transport.open,
            final(self).transport.outgoing == old(self).transport.outgoing,
            match scan(old(self).transport.unread()) {
                ScanResult::NeedMore => r matches Err(MssqlError::Transport)
                    && *final(self) == *old(self),
                ScanResult::Malformed => r matches Err(MssqlError::Protocol)
                    && *final(self) == *old(self),
                ScanResult::Msg(p, c) => r matches Ok(payload) && payload@ == p
                    && final(self).transport.unread() == old(self).transport.unread().skip(c),
            },
    {
        match self.try_read_message() {
            ReadStep::NeedMore => Err(MssqlError::Transport),
            ReadStep::Malformed => Err(MssqlError::Protocol),
            ReadStep::Message { payload, consumed: _ } => Ok(payload),
        }
    }
}

} // verus!
