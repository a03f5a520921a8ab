//! An in-memory duplex byte transport. The engine is driven entirely
//! through values: bytes the peer has sent are fed into `incoming`, and
//! bytes the engine sends accumulate in `outgoing` until the driver
//! takes them. A closed transport accepts no further writes.

use vstd::prelude::*;

verus! {

/// One end of a duplex byte stream, held as plain buffers.
#[derive(Debug)]
pub struct MemoryTransport {
    /// Bytes received from the peer, in arrival order.
    pub incoming: Vec<u8>,
    /// How many of `incoming` the engine has already consumed.
    pub pos: usize,
    /// Bytes handed to the transport and not yet taken by the driver.
    pub outgoing: Vec<u8>,
    /// False once either side shut the stream down.
    pub open: bool,
}

impl MemoryTransport {
    /// The consumed prefix never outruns the received bytes.
    pub open spec fn wf(self) -> bool {
        self.pos <= self.incoming@.len()
    }

    /// The received bytes the engine has not consumed yet.
    pub open spec fn unread(self) -> Seq<u8> {
        self.incoming@.skip(self.pos as int)
    }

    pub fn new() -> (t: MemoryTransport)
        ensures
            t.wf(),
            t.unread() == Seq::<u8>::empty(),
            t.outgoing@ == Seq::<u8>::empty(),
            t.open,
    {
        let t = MemoryTransport { incoming: Vec::new(), pos: 0, outgoing: Vec::new(), open: true };
        proof {
            assert(t.unread() =~= Seq::<u8>::empty());
        }
        t
    }

    /// Makes newly received bytes visible to the engine.
    pub fn feed(&mut self, bytes: &Vec<u8>)
        requires
            old(self).wf(),
        ensures
            final(self).wf(),
            final(self).unread() == old(self).unread() + bytes@,
            final(self).outgoing == old(self).outgoing,
            final(self).open == old(self).open,
            final(self).pos == old(self).pos,
    {
        let mut i: usize = 0;
        let ghost pre = self.incoming@;
        while i < bytes.len()
            invariant
                i <= bytes@.len(),
                self.incoming@ == pre + bytes@.take(i as int),
                self.pos == old(self).pos,
                self.outgoing == old(self).outgoing,
                self.open == old(self).open,
            decreases bytes@.len() - i,
        {
            self.incoming.push(bytes[i]);
            proof {
                assert(self.incoming@ =~= pre + bytes@.take(i as int + 1));
            }
            i = i + 1;
        }
        proof {
            assert(bytes@.take(bytes@.len() as int) =~= bytes@);
            assert(final(self).unread() =~= old(self).unread() + bytes@);
        }
    }

    /// Removes and returns everything the engine has written.
    pub fn take_outgoing(&mut self) -> (r: Vec<u8>)
        requires
            old(self).wf(),
        ensures
            final(self).wf(),
            r@ == old(self).outgoing@,
            final(self).outgoing@ == Seq::<u8>::empty(),
            final(self).incoming == old(self).incoming,
            final(self).pos == old(self).pos,
            final(self).open == old(self).open,
            final(self).unread() == old(self).unread(),
    {
        let mut taken: Vec<u8> = Vec::new();
        core::mem::swap(&mut taken, &mut self.outgoing);
        taken
    }

    /// Shuts the stream down. Idempotent; there is no protocol-level
    /// close handshake, so this is a raw stream shutdown.
    pub fn shutdown(&mut self)
        requires
            old(self).wf(),
        ensures
            final(self).wf(),
            !final(self).open,
            final(self).incoming == old(self).incoming,
            final(self).pos == old(self).pos,
            final(self).outgoing == old(self).outgoing,
            final(self).unread() == old(self).unread(),
    {
        self.open = false;
    }

    pub fn is_open(&self) -> (r: bool)
        ensures
            r == self.open,
    {
        self.open
    }
}

} // verus!
