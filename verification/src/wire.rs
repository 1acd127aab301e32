//! Length-prefixed framing for the RPC channel.
//!
//! A frame is a four-byte big-endian payload length followed by the
//! payload.  The functions here build a frame around an encoded
//! message and read a frame header back; the blocking socket reads and
//! writes themselves happen outside the library and hand the bytes in.

use vstd::prelude::*;

use crate::codec::{dec_u32_at, enc_u32, lemma_dec_enc_u32};

verus! {

/// Error kinds of the wire layer.  An I/O failure, a malformed or
/// truncated message and an over-long message are distinct, and all
/// are fatal to the connection they occur on.
#[derive(Debug, PartialEq, Eq)]
pub enum WireError {
    /// The underlying byte stream failed; the detail is the reported
    /// I/O error.
    Io { detail: String },
    /// The payload did not hold a valid message.
    Decode { detail: String },
    /// The message could not be encoded, because a string or list in
    /// it is longer than a frame can carry.
    Encode { detail: String },
}

impl WireError {
    /// An I/O failure with the given detail.
    pub fn io(detail: String) -> (r: WireError)
        ensures
            r == (WireError::Io { detail }),
    {
        WireError::Io { detail }
    }

    /// The bytes end before the message does.
    pub fn decode_truncated() -> (r: WireError)
        ensures
            r matches WireError::Decode { detail } && detail@ == "truncated message"@,
    {
        WireError::Decode { detail: String::from_str("truncated message") }
    }

    /// The bytes hold something that is not a message.
    pub fn decode_malformed() -> (r: WireError)
        ensures
            r matches WireError::Decode { detail } && detail@ == "malformed message"@,
    {
        WireError::Decode { detail: String::from_str("malformed message") }
    }

    /// A string or list is too long for its length field.
    pub fn encode_too_long() -> (r: WireError)
        ensures
            r matches WireError::Encode { detail } && detail@ == "value too long to encode"@,
    {
        WireError::Encode { detail: String::from_str("value too long to encode") }
    }

    /// A human-readable description, in place of `Display`.
    pub fn describe(&self) -> (r: String)
        ensures
            match self {
                WireError::Io { detail } => r@ == "I/O error: "@ + detail@,
                WireError::Decode { detail } => r@ == "decode error: "@ + detail@,
                WireError::Encode { detail } => r@ == "encode error: "@ + detail@,
            },
    {
        match self {
            WireError::Io { detail } => String::from_str("I/O error: ").concat(detail.as_str()),
            WireError::Decode { detail } => String::from_str("decode error: ").concat(
                detail.as_str(),
            ),
            WireError::Encode { detail } => String::from_str("encode error: ").concat(
                detail.as_str(),
            ),
        }
    }
}

/// The longest payload a frame can carry: the length field is a `u32`.
pub open spec fn max_frame_len() -> int {
    0xFFFF_FFFF
}

/// The frame around a payload: four length bytes, then the payload.
pub open spec fn spec_frame(payload: Seq<u8>) -> Seq<u8> {
    enc_u32(payload.len() as u32) + payload
}

/// Builds the frame around an encoded message: the payload length as
/// four big-endian bytes, then the payload.  Fails exactly when the
/// payload is longer than the length field can say.
pub fn build_frame(payload: &Vec<u8>) -> (r: Result<Vec<u8>, WireError>)
    ensures
        match r {
            Ok(f) => payload@.len() <= max_frame_len() && f@ == spec_frame(payload@),
            Err(e) => payload@.len() > max_frame_len() && e matches WireError::Encode { .. },
        },
{
    if payload.len() > u32::MAX as usize {
        return Err(WireError::encode_too_long());
    }
    let mut f: Vec<u8> = Vec::new();
    let n: u32 = payload.len() as u32;
    f.push((n >> 24) as u8);
    f.push(#[verifier::truncate] ((n >> 16) as u8));
    f.push(#[verifier::truncate] ((n >> 8) as u8));
    f.push(#[verifier::truncate] (n as u8));
    let mut k: usize = 0;
    while k < payload.len()
        invariant
            k <= payload@.len(),
            f@ == enc_u32(payload@.len() as u32) + payload@.subrange(0, k as int),
        decreases payload@.len() - k,
    {
        f.push(payload[k]);
        k = k + 1;
        assert(f@ =~= enc_u32(payload@.len() as u32) + payload@.subrange(0, k as int));
    }
    assert(f@ =~= spec_frame(payload@));
    Ok(f)
}

/// Reads the payload length out of a frame header.
pub fn frame_payload_len(header: &[u8]) -> (r: usize)
    requires
        header@.len() == 4,
    ensures
        dec_u32_at(header@, 0) == Some((r as u32, 4int)),
        r <= max_frame_len(),
{
    let x = (header[0] as u32) << 24 | (header[1] as u32) << 16 | (header[2] as u32) << 8 | (
    header[3] as u32);
    x as usize
}

/// The header of a frame holds exactly the payload's length: reading
/// the four length bytes of a built frame gives back the payload
/// length.
pub proof fn lemma_frame_header_round_trip(payload: Seq<u8>)
    requires
        payload.len() <= max_frame_len(),
    ensures
        dec_u32_at(spec_frame(payload), 0) == Some((payload.len() as u32, 4int)),
        spec_frame(payload).subrange(4, spec_frame(payload).len() as int) =~= payload,
{
    let f = spec_frame(payload);
    assert(f.subrange(0, 4) =~= enc_u32(payload.len() as u32));
    lemma_dec_enc_u32(f, 0, payload.len() as u32);
}

} // verus!
