//! Client-side framing for a length-prefixed request/response protocol over a
//! reliable byte stream.
//!
//! A frame on the wire is a 4-byte little-endian length `L` followed by `L`
//! payload bytes; a whole frame never exceeds 4096 bytes. In the basic
//! protocol the payload is UTF-8 text; in the status-coded protocol it begins
//! with a 4-byte little-endian status code followed by UTF-8 text.
//!
//! The crate owns no connection. It encodes outbound frames, and it drives
//! inbound and outbound transfers as state machines: the caller performs each
//! raw read or write on its own transport and reports the outcome, and the
//! machines account for partial transfers, detect zero-byte transfers, and
//! assemble or emit exactly one frame per exchange.

pub mod codec;
pub mod error;
pub mod protocol;
pub mod transfer;
