use vstd::prelude::*;

verus! {

/// Everything that can go wrong during one framed exchange.
///
/// A zero-byte write is reported as `ShortWrite`; a zero-byte read is
/// reported as `ConnectionClosed` when the peer closes before any byte of the
/// frame header has arrived, and as `Truncated` when it closes mid-frame.
/// Size violations are `MessageTooLarge` on the sending side and
/// `FrameTooLarge` on the receiving side; a status-coded frame whose declared
/// length cannot even hold the status code is `MalformedFrame`; payload text
/// that is not UTF-8 is `InvalidEncoding`. A transport error is passed
/// through unchanged as `Io` with the raw OS error code.
#[derive(Clone, Copy, Debug, PartialEq, Eq, Structural)]
pub enum FrameError {
    /// A single write operation reported zero bytes written.
    ShortWrite,
    /// The peer closed the connection before any byte of a frame arrived.
    ConnectionClosed,
    /// The peer closed the connection in the middle of a frame.
    Truncated,
    /// The outbound text does not fit in one frame.
    MessageTooLarge,
    /// The inbound frame declares a payload longer than the maximum.
    FrameTooLarge,
    /// The inbound frame is too short to hold its status code.
    MalformedFrame,
    /// The inbound payload text is not valid UTF-8.
    InvalidEncoding,
    /// The transport itself failed, with the raw OS error code.
    Io(i32),
}

} // verus!
