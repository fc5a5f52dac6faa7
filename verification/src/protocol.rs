use vstd::prelude::*;
use vstd::bytes::*;
use vstd::utf8::*;
use vstd::pervasive::unreached;
use crate::codec::{
    basic_decode, lemma_basic_round_trip, lemma_status_round_trip, request_frame, response_frame,
    response_payload, status_decode, HEADER_SIZE, MAX_PAYLOAD,
};
use crate::error::FrameError;
use crate::transfer::ReadTransfer;

verus! {

/// Relies on `String::from_utf8`: it succeeds exactly on input that is valid
/// UTF-8, and then returns the string read from those bytes.
#[verifier::external_body]
fn utf8_to_string(bytes: Vec<u8>) -> (r: Option<String>)
    ensures
        r is Some <==> valid_utf8(bytes@),
        r matches Some(text) ==> text@ == decode_utf8(bytes@),
{
    match String::from_utf8(bytes) {
        Ok(text) => Some(text),
        Err(_) => None,
    }
}

#[derive(Clone, Copy)]
enum RecvPhase {
    Header,
    Status,
    Body,
    Done,
    Failed,
}

/// Receives exactly one status-coded frame: a 4-byte little-endian length
/// `L`, a 4-byte little-endian status code, and `L - 4` bytes of UTF-8 text.
///
/// The caller asks `wanted` how many bytes to read next, reads at most that
/// many from its transport, and reports each read's outcome through
/// `on_read` (a zero-byte read means the peer closed the connection). Once
/// `is_done`, `finish` hands out the decoded status code and text; the bytes
/// consumed are then exactly the frame that encodes the returned pair.
pub struct Receiver {
    phase: RecvPhase,
    transfer: ReadTransfer,
    length: u32,
    status: u32,
}

impl Receiver {
    /// The declared payload length is in bounds for the phase reached, and
    /// the transfer in flight matches that phase.
    pub closed spec fn wf(self) -> bool {
        &&& self.transfer.wf()
        &&& match self.phase {
            RecvPhase::Header => self.transfer.target() == HEADER_SIZE
                && self.transfer.missing() >= 1,
            RecvPhase::Status => self.transfer.target() == HEADER_SIZE
                && self.transfer.missing() >= 1 && HEADER_SIZE <= self.length <= MAX_PAYLOAD,
            RecvPhase::Body => self.transfer.target() == self.length - HEADER_SIZE
                && self.transfer.missing() >= 1 && HEADER_SIZE <= self.length <= MAX_PAYLOAD,
            RecvPhase::Done => self.transfer.target() == self.length - HEADER_SIZE
                && self.transfer.missing() == 0 && HEADER_SIZE <= self.length <= MAX_PAYLOAD,
            RecvPhase::Failed => true,
        }
    }

    /// All bytes consumed from the stream so far, in order.
    pub closed spec fn consumed(self) -> Seq<u8> {
        match self.phase {
            RecvPhase::Header => self.transfer.got(),
            RecvPhase::Status => spec_u32_to_le_bytes(self.length) + self.transfer.got(),
            RecvPhase::Body => spec_u32_to_le_bytes(self.length) + spec_u32_to_le_bytes(
                self.status,
            ) + self.transfer.got(),
            RecvPhase::Done => spec_u32_to_le_bytes(self.length) + spec_u32_to_le_bytes(
                self.status,
            ) + self.transfer.got(),
            RecvPhase::Failed => Seq::<u8>::empty(),
        }
    }

    /// Whether one whole frame has been consumed.
    pub closed spec fn is_complete(self) -> bool {
        self.phase is Done
    }

    /// Whether the exchange was abandoned after an error.
    pub closed spec fn has_failed(self) -> bool {
        self.phase is Failed
    }

    /// How many bytes are still owed by the stream.
    pub closed spec fn pending_count(self) -> int {
        match self.phase {
            RecvPhase::Done => 0,
            RecvPhase::Failed => 0,
            _ => self.transfer.missing(),
        }
    }

    /// The status code of the frame, once it is complete.
    pub closed spec fn status_code(self) -> u32 {
        self.status
    }

    /// The text bytes of the frame, once it is complete.
    pub closed spec fn body(self) -> Seq<u8> {
        self.transfer.got()
    }

    /// Start receiving one frame; nothing is consumed yet.
    pub fn new() -> (r: Receiver)
        ensures
            r.wf(),
            !r.is_complete(),
            !r.has_failed(),
            r.consumed() == Seq::<u8>::empty(),
            r.pending_count() == HEADER_SIZE,
    {
        Receiver {
            phase: RecvPhase::Header,
            transfer: ReadTransfer::new(HEADER_SIZE),
            length: 0,
            status: 0,
        }
    }

    /// How many bytes the transport should be asked for next; zero exactly
    /// when the frame is complete or the exchange has failed, and never more
    /// than the maximum payload length.
    pub fn wanted(&self) -> (r: usize)
        requires
            self.wf(),
        ensures
            r == self.pending_count(),
            r == 0 <==> self.is_complete() || self.has_failed(),
            r <= MAX_PAYLOAD,
    {
        match self.phase {
            RecvPhase::Done => 0,
            RecvPhase::Failed => 0,
            _ => self.transfer.wanted(),
        }
    }

    /// Whether one whole frame has been consumed.
    pub fn is_done(&self) -> (r: bool)
        requires
            self.wf(),
        ensures
            r <==> self.is_complete(),
    {
        match self.phase {
            RecvPhase::Done => true,
            _ => false,
        }
    }

    /// Account for the outcome of one read operation: `chunk` holds the bytes
    /// it delivered, at most as many as were asked for. A zero-byte read is
    /// the peer closing the connection: before any byte of the header it
    /// fails the exchange with `ConnectionClosed`, mid-frame with
    /// `Truncated`. A header whose declared length exceeds the maximum
    /// payload fails with `FrameTooLarge`; one too short to hold the status
    /// code fails with `MalformedFrame`. On success the consumed stream has
    /// grown by exactly `chunk`, and the frame is complete exactly when the
    /// stream reaches the length its header declares.
    pub fn on_read(&mut self, chunk: &[u8]) -> (r: Result<(), FrameError>)
        requires
            old(self).wf(),
            !old(self).is_complete(),
            !old(self).has_failed(),
            chunk@.len() <= old(self).pending_count(),
        ensures
            final(self).wf(),
            match r {
                Ok(()) => {
                    let s = old(self).consumed() + chunk@;
                    &&& chunk@.len() > 0
                    &&& !final(self).has_failed()
                    &&& final(self).consumed() == s
                    &&& (s.len() == HEADER_SIZE && old(self).consumed().len() < HEADER_SIZE
                        ==> HEADER_SIZE <= spec_u32_from_le_bytes(s) <= MAX_PAYLOAD)
                    &&& (final(self).is_complete() <==> s.len() >= HEADER_SIZE && s.len()
                        == HEADER_SIZE + spec_u32_from_le_bytes(s.take(HEADER_SIZE as int)))
                },
                Err(e) => {
                    let s = old(self).consumed() + chunk@;
                    &&& final(self).has_failed()
                    &&& (e == FrameError::ConnectionClosed <==> chunk@.len() == 0 && old(
                        self,
                    ).consumed().len() == 0)
                    &&& (e == FrameError::Truncated <==> chunk@.len() == 0 && old(
                        self,
                    ).consumed().len() > 0)
                    &&& (e == FrameError::FrameTooLarge <==> chunk@.len() > 0 && old(
                        self,
                    ).consumed().len() < HEADER_SIZE && s.len() == HEADER_SIZE
                        && spec_u32_from_le_bytes(s) > MAX_PAYLOAD)
                    &&& (e == FrameError::MalformedFrame <==> chunk@.len() > 0 && old(
                        self,
                    ).consumed().len() < HEADER_SIZE && s.len() == HEADER_SIZE
                        && spec_u32_from_le_bytes(s) < HEADER_SIZE)
                    &&& (e == FrameError::ConnectionClosed || e == FrameError::Truncated || e
                        == FrameError::FrameTooLarge || e == FrameError::MalformedFrame)
                },
            },
    {
        proof {
            lemma_auto_spec_u32_to_from_le_bytes();
        }
        if chunk.len() == 0 {
            let at_start = match self.phase {
                RecvPhase::Header => self.transfer.received() == 0,
                _ => false,
            };
            self.phase = RecvPhase::Failed;
            if at_start {
                return Err(FrameError::ConnectionClosed);
            } else {
                return Err(FrameError::Truncated);
            }
        }
        match self.phase {
            RecvPhase::Header => {
                self.transfer.feed(chunk);
                if self.transfer.done() {
                    let len = u32_from_le_bytes(self.transfer.contents().as_slice());
                    if len > MAX_PAYLOAD as u32 {
                        self.phase = RecvPhase::Failed;
                        return Err(FrameError::FrameTooLarge);
                    }
                    if len < HEADER_SIZE as u32 {
                        self.phase = RecvPhase::Failed;
                        return Err(FrameError::MalformedFrame);
                    }
                    self.length = len;
                    self.transfer = ReadTransfer::new(HEADER_SIZE);
                    self.phase = RecvPhase::Status;
                    proof {
                        assert(self.consumed() =~= old(self).consumed() + chunk@);
                        let s = old(self).consumed() + chunk@;
                        assert(s.take(HEADER_SIZE as int) =~= s);
                    }
                }
                Ok(())
            },
            RecvPhase::Status => {
                proof {
                    assert(old(self).consumed().take(HEADER_SIZE as int) =~= spec_u32_to_le_bytes(
                        old(self).length,
                    ));
                }
                self.transfer.feed(chunk);
                if self.transfer.done() {
                    let code = u32_from_le_bytes(self.transfer.contents().as_slice());
                    self.status = code;
                    let body_len = (self.length - HEADER_SIZE as u32) as usize;
                    self.transfer = ReadTransfer::new(body_len);
                    if body_len == 0 {
                        self.phase = RecvPhase::Done;
                    } else {
                        self.phase = RecvPhase::Body;
                    }
                }
                proof {
                    assert(self.consumed() =~= old(self).consumed() + chunk@);
                    let s = old(self).consumed() + chunk@;
                    assert(s.take(HEADER_SIZE as int) =~= spec_u32_to_le_bytes(old(self).length));
                }
                Ok(())
            },
            RecvPhase::Body => {
                proof {
                    assert(old(self).consumed().take(HEADER_SIZE as int) =~= spec_u32_to_le_bytes(
                        old(self).length,
                    ));
                }
                self.transfer.feed(chunk);
                if self.transfer.done() {
                    self.phase = RecvPhase::Done;
                }
                proof {
                    assert(self.consumed() =~= old(self).consumed() + chunk@);
                    let s = old(self).consumed() + chunk@;
                    assert(s.take(HEADER_SIZE as int) =~= spec_u32_to_le_bytes(old(self).length));
                }
                Ok(())
            },
            RecvPhase::Done => unreached(),
            RecvPhase::Failed => unreached(),
        }
    }

    /// Decode the completed frame: its status code, and its text bytes as a
    /// string. Fails with `InvalidEncoding` exactly when the text bytes are
    /// not valid UTF-8; on success the consumed stream is exactly the frame
    /// that encodes the returned pair.
    pub fn finish(self) -> (r: Result<(u32, String), FrameError>)
        requires
            self.wf(),
            self.is_complete(),
        ensures
            match r {
                Ok(p) => {
                    &&& valid_utf8(self.body())
                    &&& p.0 == self.status_code()
                    &&& p.1@ == decode_utf8(self.body())
                    &&& self.consumed() == response_frame(p.0, p.1@)
                    &&& status_decode(self.consumed()) == Some((p.0, p.1@))
                },
                Err(e) => {
                    &&& e == FrameError::InvalidEncoding
                    &&& !valid_utf8(self.body())
                },
            },
    {
        let Receiver { phase: _, transfer, length: _, status } = self;
        let bytes = transfer.take();
        match utf8_to_string(bytes) {
            Some(text) => {
                proof {
                    decode_utf8_encode_utf8(self.body());
                    lemma_auto_spec_u32_to_from_le_bytes();
                    assert(response_payload(status, text@).len() == self.length as int);
                    assert(self.consumed() =~= response_frame(status, text@));
                    lemma_status_round_trip(status, text@);
                }
                Ok((status, text))
            },
            None => Err(FrameError::InvalidEncoding),
        }
    }
}

#[derive(Clone, Copy)]
enum BasicPhase {
    Header,
    Body,
    Done,
    Failed,
}

/// Receives exactly one basic-protocol frame: a 4-byte little-endian length
/// `L` followed by `L` bytes of UTF-8 text.
///
/// Driven exactly like [`Receiver`], but the payload carries no status code:
/// `finish` hands out the text alone, and a declared length of zero is a
/// well-formed empty message rather than a malformed frame.
pub struct BasicReceiver {
    phase: BasicPhase,
    transfer: ReadTransfer,
    length: u32,
}

impl BasicReceiver {
    /// The declared payload length is in bounds for the phase reached, and
    /// the transfer in flight matches that phase.
    pub closed spec fn wf(self) -> bool {
        &&& self.transfer.wf()
        &&& match self.phase {
            BasicPhase::Header => self.transfer.target() == HEADER_SIZE
                && self.transfer.missing() >= 1,
            BasicPhase::Body => self.transfer.target() == self.length
                && self.transfer.missing() >= 1 && 1 <= self.length <= MAX_PAYLOAD,
            BasicPhase::Done => self.transfer.target() == self.length
                && self.transfer.missing() == 0 && self.length <= MAX_PAYLOAD,
            BasicPhase::Failed => true,
        }
    }

    /// All bytes consumed from the stream so far, in order.
    pub closed spec fn consumed(self) -> Seq<u8> {
        match self.phase {
            BasicPhase::Header => self.transfer.got(),
            BasicPhase::Body => spec_u32_to_le_bytes(self.length) + self.transfer.got(),
            BasicPhase::Done => spec_u32_to_le_bytes(self.length) + self.transfer.got(),
            BasicPhase::Failed => Seq::<u8>::empty(),
        }
    }

    /// Whether one whole frame has been consumed.
    pub closed spec fn is_complete(self) -> bool {
        self.phase is Done
    }

    /// Whether the exchange was abandoned after an error.
    pub closed spec fn has_failed(self) -> bool {
        self.phase is Failed
    }

    /// How many bytes are still owed by the stream.
    pub closed spec fn pending_count(self) -> int {
        match self.phase {
            BasicPhase::Done => 0,
            BasicPhase::Failed => 0,
            _ => self.transfer.missing(),
        }
    }

    /// The text bytes of the frame, once it is complete.
    pub closed spec fn body(self) -> Seq<u8> {
        self.transfer.got()
    }

    /// Start receiving one frame; nothing is consumed yet.
    pub fn new() -> (r: BasicReceiver)
        ensures
            r.wf(),
            !r.is_complete(),
            !r.has_failed(),
            r.consumed() == Seq::<u8>::empty(),
            r.pending_count() == HEADER_SIZE,
    {
        BasicReceiver {
            phase: BasicPhase::Header,
            transfer: ReadTransfer::new(HEADER_SIZE),
            length: 0,
        }
    }

    /// How many bytes the transport should be asked for next; zero exactly
    /// when the frame is complete or the exchange has failed, and never more
    /// than the maximum payload length.
    pub fn wanted(&self) -> (r: usize)
        requires
            self.wf(),
        ensures
            r == self.pending_count(),
            r == 0 <==> self.is_complete() || self.has_failed(),
            r <= MAX_PAYLOAD,
    {
        match self.phase {
            BasicPhase::Done => 0,
            BasicPhase::Failed => 0,
            _ => self.transfer.wanted(),
        }
    }

    /// Whether one whole frame has been consumed.
    pub fn is_done(&self) -> (r: bool)
        requires
            self.wf(),
        ensures
            r <==> self.is_complete(),
    {
        match self.phase {
            BasicPhase::Done => true,
            _ => false,
        }
    }

    /// Account for the outcome of one read operation, exactly as
    /// [`Receiver::on_read`] does, except that no length is too short: a
    /// frame may carry an empty payload.
    pub fn on_read(&mut self, chunk: &[u8]) -> (r: Result<(), FrameError>)
        requires
            old(self).wf(),
            !old(self).is_complete(),
            !old(self).has_failed(),
            chunk@.len() <= old(self).pending_count(),
        ensures
            final(self).wf(),
            match r {
                Ok(()) => {
                    let s = old(self).consumed() + chunk@;
                    &&& chunk@.len() > 0
                    &&& !final(self).has_failed()
                    &&& final(self).consumed() == s
                    &&& (s.len() == HEADER_SIZE && old(self).consumed().len() < HEADER_SIZE
                        ==> spec_u32_from_le_bytes(s) <= MAX_PAYLOAD)
                    &&& (final(self).is_complete() <==> s.len() >= HEADER_SIZE && s.len()
                        == HEADER_SIZE + spec_u32_from_le_bytes(s.take(HEADER_SIZE as int)))
                },
                Err(e) => {
                    let s = old(self).consumed() + chunk@;
                    &&& final(self).has_failed()
                    &&& (e == FrameError::ConnectionClosed <==> chunk@.len() == 0 && old(
                        self,
                    ).consumed().len() == 0)
                    &&& (e == FrameError::Truncated <==> chunk@.len() == 0 && old(
                        self,
                    ).consumed().len() > 0)
                    &&& (e == FrameError::FrameTooLarge <==> chunk@.len() > 0 && old(
                        self,
                    ).consumed().len() < HEADER_SIZE && s.len() == HEADER_SIZE
                        && spec_u32_from_le_bytes(s) > MAX_PAYLOAD)
                    &&& (e == FrameError::ConnectionClosed || e == FrameError::Truncated || e
                        == FrameError::FrameTooLarge)
                },
            },
    {
        proof {
            lemma_auto_spec_u32_to_from_le_bytes();
        }
        if chunk.len() == 0 {
            let at_start = match self.phase {
                BasicPhase::Header => self.transfer.received() == 0,
                _ => false,
            };
            self.phase = BasicPhase::Failed;
            if at_start {
                return Err(FrameError::ConnectionClosed);
            } else {
                return Err(FrameError::Truncated);
            }
        }
        match self.phase {
            BasicPhase::Header => {
                self.transfer.feed(chunk);
                if self.transfer.done() {
                    let len = u32_from_le_bytes(self.transfer.contents().as_slice());
                    if len > MAX_PAYLOAD as u32 {
                        self.phase = BasicPhase::Failed;
                        return Err(FrameError::FrameTooLarge);
                    }
                    self.length = len;
                    self.transfer = ReadTransfer::new(len as usize);
                    if len == 0 {
                        self.phase = BasicPhase::Done;
                    } else {
                        self.phase = BasicPhase::Body;
                    }
                    proof {
                        assert(self.consumed() =~= old(self).consumed() + chunk@);
                        let s = old(self).consumed() + chunk@;
                        assert(s.take(HEADER_SIZE as int) =~= s);
                    }
                }
                Ok(())
            },
            BasicPhase::Body => {
                proof {
                    assert(old(self).consumed().take(HEADER_SIZE as int) =~= spec_u32_to_le_bytes(
                        old(self).length,
                    ));
                }
                self.transfer.feed(chunk);
                if self.transfer.done() {
                    self.phase = BasicPhase::Done;
                }
                proof {
                    assert(self.consumed() =~= old(self).consumed() + chunk@);
                    let s = old(self).consumed() + chunk@;
                    assert(s.take(HEADER_SIZE as int) =~= spec_u32_to_le_bytes(old(self).length));
                }
                Ok(())
            },
            BasicPhase::Done => unreached(),
            BasicPhase::Failed => unreached(),
        }
    }

    /// Decode the completed frame: its text bytes as a string. Fails with
    /// `InvalidEncoding` exactly when the bytes are not valid UTF-8; on
    /// success the consumed stream is exactly the frame that encodes the
    /// returned text.
    pub fn finish(self) -> (r: Result<String, FrameError>)
        requires
            self.wf(),
            self.is_complete(),
        ensures
            match r {
                Ok(text) => {
                    &&& valid_utf8(self.body())
                    &&& text@ == decode_utf8(self.body())
                    &&& self.consumed() == request_frame(text@)
                    &&& basic_decode(self.consumed()) == Some(text@)
                },
                Err(e) => {
                    &&& e == FrameError::InvalidEncoding
                    &&& !valid_utf8(self.body())
                },
            },
    {
        let BasicReceiver { phase: _, transfer, length: _ } = self;
        let bytes = transfer.take();
        match utf8_to_string(bytes) {
            Some(text) => {
                proof {
                    decode_utf8_encode_utf8(self.body());
                    lemma_auto_spec_u32_to_from_le_bytes();
                    assert(encode_utf8(text@).len() == self.length as int);
                    assert(self.consumed() =~= request_frame(text@));
                    lemma_basic_round_trip(text@);
                }
                Ok(text)
            },
            None => Err(FrameError::InvalidEncoding),
        }
    }
}

} // verus!
