use vstd::prelude::*;
use vstd::bytes::*;
use vstd::utf8::*;
use vstd::string::StringSliceAdditionalSpecFns;
use crate::error::FrameError;

verus! {

/// Largest number of bytes in one frame on the wire, header included.
pub const MAX_FRAME_SIZE: usize = 4096;

/// Number of bytes in the length header (and in a status code).
pub const HEADER_SIZE: usize = 4;

/// Largest payload length a frame may declare.
pub const MAX_PAYLOAD: usize = 4092;

/// The bytes of one frame carrying the given payload: a 4-byte little-endian
/// length followed by the payload itself.
pub open spec fn frame_bytes(payload: Seq<u8>) -> Seq<u8> {
    spec_u32_to_le_bytes(payload.len() as u32) + payload
}

/// The frame that carries the given text in the basic protocol: the payload
/// is the UTF-8 encoding of the text.
pub open spec fn request_frame(text: Seq<char>) -> Seq<u8> {
    frame_bytes(encode_utf8(text))
}

/// The payload of a status-coded frame: a 4-byte little-endian status code
/// followed by the UTF-8 encoding of the text.
pub open spec fn response_payload(status: u32, text: Seq<char>) -> Seq<u8> {
    spec_u32_to_le_bytes(status) + encode_utf8(text)
}

/// The frame that carries the given status code and text in the status-coded
/// protocol.
pub open spec fn response_frame(status: u32, text: Seq<char>) -> Seq<u8> {
    frame_bytes(response_payload(status, text))
}

/// What a complete byte stream decodes to under the basic protocol: the text,
/// if the stream is exactly one well-formed frame of UTF-8 payload.
pub open spec fn basic_decode(stream: Seq<u8>) -> Option<Seq<char>> {
    if stream.len() < HEADER_SIZE {
        None
    } else {
        let len = spec_u32_from_le_bytes(stream.take(HEADER_SIZE as int)) as int;
        if len > MAX_PAYLOAD {
            None
        } else if stream.len() != HEADER_SIZE + len {
            None
        } else {
            let payload = stream.skip(HEADER_SIZE as int);
            if valid_utf8(payload) {
                Some(decode_utf8(payload))
            } else {
                None
            }
        }
    }
}

/// What a complete byte stream decodes to under the status-coded protocol:
/// the status code and the text, if the stream is exactly one well-formed
/// frame whose payload holds a status code followed by UTF-8 text.
pub open spec fn status_decode(stream: Seq<u8>) -> Option<(u32, Seq<char>)> {
    if stream.len() < HEADER_SIZE {
        None
    } else {
        let len = spec_u32_from_le_bytes(stream.take(HEADER_SIZE as int)) as int;
        if len < HEADER_SIZE || len > MAX_PAYLOAD {
            None
        } else if stream.len() != HEADER_SIZE + len {
            None
        } else {
            let status = spec_u32_from_le_bytes(
                stream.subrange(HEADER_SIZE as int, 2 * HEADER_SIZE as int),
            );
            let body = stream.skip(2 * HEADER_SIZE as int);
            if valid_utf8(body) {
                Some((status, decode_utf8(body)))
            } else {
                None
            }
        }
    }
}

/// Encode one outbound text message as a basic-protocol frame. Text whose
/// UTF-8 encoding exceeds the maximum payload length is rejected before any
/// frame is built.
pub fn encode_request(text: &str) -> (r: Result<Vec<u8>, FrameError>)
    ensures
        match r {
            Ok(frame) => {
                &&& text.spec_bytes().len() <= MAX_PAYLOAD
                &&& frame@ == request_frame(text@)
                &&& frame@.len() == HEADER_SIZE + text.spec_bytes().len()
                &&& basic_decode(frame@) == Some(text@)
            },
            Err(e) => {
                &&& e == FrameError::MessageTooLarge
                &&& text.spec_bytes().len() > MAX_PAYLOAD
            },
        },
{
    let bytes = text.as_bytes();
    if bytes.len() > MAX_PAYLOAD {
        return Err(FrameError::MessageTooLarge);
    }
    let mut frame = u32_to_le_bytes(bytes.len() as u32);
    frame.extend_from_slice(bytes);
    proof {
        assert(frame@ == request_frame(text@));
        lemma_basic_round_trip(text@);
    }
    Ok(frame)
}

/// Round trip of the basic protocol: a frame that encodes any text whose
/// UTF-8 form fits the maximum payload decodes back to exactly that text.
pub proof fn lemma_basic_round_trip(text: Seq<char>)
    requires
        encode_utf8(text).len() <= MAX_PAYLOAD,
    ensures
        basic_decode(request_frame(text)) == Some(text),
{
    let payload = encode_utf8(text);
    let stream = frame_bytes(payload);
    lemma_auto_spec_u32_to_from_le_bytes();
    assert(stream.take(HEADER_SIZE as int) =~= spec_u32_to_le_bytes(payload.len() as u32));
    assert(stream.skip(HEADER_SIZE as int) =~= payload);
    encode_utf8_valid_utf8(text);
    encode_utf8_decode_utf8(text);
}

/// Round trip of the status-coded protocol: a frame that encodes any status
/// code and any text whose UTF-8 form fits beside the status code decodes
/// back to exactly that pair.
pub proof fn lemma_status_round_trip(status: u32, text: Seq<char>)
    requires
        HEADER_SIZE + encode_utf8(text).len() <= MAX_PAYLOAD,
    ensures
        status_decode(response_frame(status, text)) == Some((status, text)),
{
    let payload = response_payload(status, text);
    let stream = frame_bytes(payload);
    lemma_auto_spec_u32_to_from_le_bytes();
    assert(stream.take(HEADER_SIZE as int) =~= spec_u32_to_le_bytes(payload.len() as u32));
    assert(stream.subrange(HEADER_SIZE as int, 2 * HEADER_SIZE as int) =~= spec_u32_to_le_bytes(
        status,
    ));
    assert(stream.skip(2 * HEADER_SIZE as int) =~= encode_utf8(text));
    encode_utf8_valid_utf8(text);
    encode_utf8_decode_utf8(text);
}

} // verus!
