use vstd::prelude::*;
use vstd::slice::slice_subrange;
use crate::error::FrameError;

verus! {

/// The outbound half of a full transfer: one frame of bytes together with how
/// much of it has already been accepted by the transport.
///
/// The caller repeatedly hands `pending_slice` to its transport and reports
/// via `advance` how many bytes one write operation accepted, until `done`.
/// On success every byte of the frame has been handed over, in order, exactly
/// once; a write operation that accepts zero bytes is a connection fault and
/// fails the transfer with `ShortWrite`.
pub struct WriteTransfer {
    buf: Vec<u8>,
    off: usize,
}

impl WriteTransfer {
    /// The whole frame being written.
    pub closed spec fn frame(self) -> Seq<u8> {
        self.buf@
    }

    /// The bytes already accepted by the transport, in order.
    pub closed spec fn sent(self) -> Seq<u8> {
        self.buf@.take(self.off as int)
    }

    /// The bytes still to be written, in order.
    pub open spec fn pending(self) -> Seq<u8> {
        self.frame().skip(self.sent().len() as int)
    }

    /// The offset never runs past the end of the frame, and what was sent is
    /// exactly the frame up to the offset.
    pub closed spec fn wf(self) -> bool {
        self.off <= self.buf.len()
    }

    /// Start a transfer of the given frame; nothing is sent yet.
    pub fn new(frame: Vec<u8>) -> (t: Self)
        ensures
            t.wf(),
            t.frame() == frame@,
            t.sent() == Seq::<u8>::empty(),
            t.pending() == frame@,
    {
        let t = WriteTransfer { buf: frame, off: 0 };
        proof {
            assert(t.sent() =~= Seq::<u8>::empty());
            assert(t.pending() =~= t.buf@);
        }
        t
    }

    /// Whether the whole frame has been handed to the transport; once true,
    /// what was sent is exactly the frame.
    pub fn done(&self) -> (r: bool)
        requires
            self.wf(),
        ensures
            r <==> self.pending().len() == 0,
            r ==> self.sent() == self.frame(),
    {
        proof {
            if self.off == self.buf.len() {
                assert(self.sent() =~= self.frame());
            }
        }
        self.off == self.buf.len()
    }

    /// The bytes the transport should be asked to write next.
    pub fn pending_slice(&self) -> (r: &[u8])
        requires
            self.wf(),
        ensures
            r@ == self.pending(),
    {
        slice_subrange(self.buf.as_slice(), self.off, self.buf.len())
    }

    /// Record that one write operation accepted the first `n` pending bytes.
    /// Zero bytes accepted is a connection fault: the transfer fails with
    /// `ShortWrite` and its state is unchanged.
    pub fn advance(&mut self, n: usize) -> (r: Result<(), FrameError>)
        requires
            old(self).wf(),
            n <= old(self).pending().len(),
        ensures
            final(self).wf(),
            final(self).frame() == old(self).frame(),
            match r {
                Ok(()) => {
                    &&& n > 0
                    &&& final(self).sent() == old(self).sent() + old(self).pending().take(n as int)
                    &&& final(self).pending() == old(self).pending().skip(n as int)
                },
                Err(e) => {
                    &&& e == FrameError::ShortWrite
                    &&& n == 0
                    &&& final(self).sent() == old(self).sent()
                },
            },
    {
        if n == 0 {
            return Err(FrameError::ShortWrite);
        }
        proof {
            assert(self.buf@.take((self.off + n) as int) =~= self.buf@.take(self.off as int)
                + self.buf@.skip(self.off as int).take(n as int));
            assert(self.buf@.skip((self.off + n) as int) =~= self.buf@.skip(
                self.off as int,
            ).skip(n as int));
        }
        self.off = self.off + n;
        Ok(())
    }
}

/// The inbound half of a full transfer: a fixed byte count to receive and the
/// bytes received so far.
///
/// The caller repeatedly asks `wanted` how many bytes are still missing,
/// reads at most that many from its transport, and hands them to `feed`,
/// until `done`. On success the accumulated bytes are exactly the requested
/// count, in stream order.
pub struct ReadTransfer {
    buf: Vec<u8>,
    need: usize,
}

impl ReadTransfer {
    /// The bytes received so far, in stream order.
    pub closed spec fn got(self) -> Seq<u8> {
        self.buf@
    }

    /// The total byte count this transfer must receive.
    pub closed spec fn target(self) -> int {
        self.need as int
    }

    /// The byte count still missing.
    pub open spec fn missing(self) -> int {
        self.target() - self.got().len()
    }

    /// Never holds more than the requested count.
    pub open spec fn wf(self) -> bool {
        self.got().len() <= self.target()
    }

    /// Start a transfer that must receive exactly `need` bytes.
    pub fn new(need: usize) -> (t: Self)
        ensures
            t.wf(),
            t.got() == Seq::<u8>::empty(),
            t.target() == need,
    {
        ReadTransfer { buf: Vec::new(), need }
    }

    /// How many bytes are still missing.
    pub fn wanted(&self) -> (r: usize)
        requires
            self.wf(),
        ensures
            r == self.missing(),
    {
        self.need - self.buf.len()
    }

    /// How many bytes have been received so far.
    pub fn received(&self) -> (r: usize)
        requires
            self.wf(),
        ensures
            r == self.got().len(),
    {
        self.buf.len()
    }

    /// Whether the requested count has been fully received.
    pub fn done(&self) -> (r: bool)
        requires
            self.wf(),
        ensures
            r <==> self.missing() == 0,
    {
        self.buf.len() == self.need
    }

    /// Record the bytes one read operation delivered; the caller reports a
    /// zero-byte read to the layer above instead, which knows what the
    /// missing bytes were part of.
    pub fn feed(&mut self, chunk: &[u8])
        requires
            old(self).wf(),
            1 <= chunk@.len() <= old(self).missing(),
        ensures
            final(self).wf(),
            final(self).target() == old(self).target(),
            final(self).got() == old(self).got() + chunk@,
    {
        self.buf.extend_from_slice(chunk);
    }

    /// A borrow of the bytes received so far.
    pub fn contents(&self) -> (r: &Vec<u8>)
        ensures
            r@ == self.got(),
    {
        &self.buf
    }

    /// Hand the received bytes out, consuming the transfer.
    pub fn take(self) -> (r: Vec<u8>)
        ensures
            r@ == self.got(),
    {
        self.buf
    }
}

} // verus!
