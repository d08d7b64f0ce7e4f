//! The versioned envelope that wraps every packet:
//!
//! ```text
//! magic | version | message type | sequence | payload length | payload
//!   2B       1B          1B            4B           2B
//! ```

use crate::kinds::{DecodeError, MessageType};
use crate::wire::{get_u16, get_u32, lemma_le_codecs, put_u16, put_u32};
use vstd::bytes::*;
use vstd::prelude::*;

verus! {

/// Version byte carried in every packet envelope.
pub const PROTOCOL_VERSION: u8 = 2;

/// First magic byte, `F`.
pub const MAGIC_FIRST: u8 = 0x46;

/// Second magic byte, `E`.
pub const MAGIC_SECOND: u8 = 0x45;

/// Length of the envelope header in bytes.
pub const HEADER_LEN: usize = 10;

/// The bytes of a packet of the given type, sequence number and payload.
pub open spec fn spec_envelope(message_type: MessageType, sequence: u32, payload: Seq<u8>) -> Seq<
    u8,
> {
    seq![MAGIC_FIRST, MAGIC_SECOND, PROTOCOL_VERSION, message_type.spec_code()]
        + spec_u32_to_le_bytes(sequence) + spec_u16_to_le_bytes(payload.len() as u16) + payload
}

/// What the header of a packet says, checked in the order the decoder checks it.
pub open spec fn spec_open_envelope(bytes: Seq<u8>) -> Result<(MessageType, u32, Seq<u8>), DecodeError> {
    if bytes.len() < HEADER_LEN {
        Err(DecodeError::TooShort)
    } else if bytes[0] != MAGIC_FIRST || bytes[1] != MAGIC_SECOND {
        Err(DecodeError::InvalidMagic)
    } else if bytes[2] != PROTOCOL_VERSION {
        Err(DecodeError::UnsupportedVersion(bytes[2]))
    } else {
        match MessageType::spec_from_code(bytes[3]) {
            None => Err(DecodeError::UnknownMessageType(bytes[3])),
            Some(message_type) => {
                if bytes.len() != HEADER_LEN + spec_u16_from_le_bytes(bytes.subrange(8, 10)) {
                    Err(DecodeError::InvalidPayloadLength)
                } else {
                    Ok(
                        (
                            message_type,
                            spec_u32_from_le_bytes(bytes.subrange(4, 8)),
                            bytes.subrange(10, bytes.len() as int),
                        ),
                    )
                }
            },
        }
    }
}

/// Wraps a payload in the envelope.
pub fn encode_message(message_type: MessageType, sequence: u32, payload: &[u8]) -> (r: Vec<u8>)
    requires
        payload@.len() <= u16::MAX,
    ensures
        r@ == spec_envelope(message_type, sequence, payload@),
{
    let payload_len = payload.len() as u16;
    let mut bytes: Vec<u8> = Vec::new();
    bytes.push(MAGIC_FIRST);
    bytes.push(MAGIC_SECOND);
    bytes.push(PROTOCOL_VERSION);
    bytes.push(message_type.code());
    put_u32(&mut bytes, sequence);
    put_u16(&mut bytes, payload_len);
    let mut rest = vstd::slice::slice_to_vec(payload);
    bytes.append(&mut rest);
    assert(bytes@ =~= spec_envelope(message_type, sequence, payload@));
    bytes
}

/// Checks the envelope and hands back the type, sequence number and payload.
pub fn decode_message(bytes: &[u8]) -> (r: Result<(MessageType, u32, &[u8]), DecodeError>)
    ensures
        match spec_open_envelope(bytes@) {
            Ok((t, s, p)) => r matches Ok((t2, s2, p2)) && t2 == t && s2 == s && p2@ == p,
            Err(e) => r matches Err(e2) && e2 == e,
        },
{
    let len = bytes.len();
    if len < HEADER_LEN {
        return Err(DecodeError::TooShort);
    }
    if bytes[0] != MAGIC_FIRST || bytes[1] != MAGIC_SECOND {
        return Err(DecodeError::InvalidMagic);
    }
    if bytes[2] != PROTOCOL_VERSION {
        return Err(DecodeError::UnsupportedVersion(bytes[2]));
    }
    let message_type = match MessageType::try_from(bytes[3]) {
        Ok(t) => t,
        Err(e) => {
            return Err(e);
        },
    };
    let sequence = get_u32(bytes, 4);
    let payload_len = get_u16(bytes, 8) as usize;
    if len != HEADER_LEN + payload_len {
        return Err(DecodeError::InvalidPayloadLength);
    }
    Ok((message_type, sequence, &bytes[HEADER_LEN..len]))
}

/// A packet that was wrapped with a payload of at most `u16::MAX` bytes opens
/// to the same type, sequence number and payload.
pub proof fn lemma_envelope_round_trip(message_type: MessageType, sequence: u32, payload: Seq<u8>)
    requires
        payload.len() <= u16::MAX,
    ensures
        spec_open_envelope(spec_envelope(message_type, sequence, payload)) == Ok::<
            (MessageType, u32, Seq<u8>),
            DecodeError,
        >((message_type, sequence, payload)),
{
    lemma_le_codecs();
    let b = spec_envelope(message_type, sequence, payload);
    assert(b.subrange(4, 8) =~= spec_u32_to_le_bytes(sequence));
    assert(b.subrange(8, 10) =~= spec_u16_to_le_bytes(payload.len() as u16));
    assert(b.subrange(10, b.len() as int) =~= payload);
    message_type.lemma_code_round_trip();
}

/// A packet with bytes after its declared payload is refused for its length.
pub proof fn lemma_trailing_bytes_rejected(
    message_type: MessageType,
    sequence: u32,
    payload: Seq<u8>,
    extra: Seq<u8>,
)
    requires
        payload.len() <= u16::MAX,
        extra.len() > 0,
    ensures
        spec_open_envelope(spec_envelope(message_type, sequence, payload) + extra) == Err::<
            (MessageType, u32, Seq<u8>),
            DecodeError,
        >(DecodeError::InvalidPayloadLength),
{
    lemma_le_codecs();
    let b = spec_envelope(message_type, sequence, payload) + extra;
    assert(b.subrange(8, 10) =~= spec_u16_to_le_bytes(payload.len() as u16));
    message_type.lemma_code_round_trip();
}

/// A packet whose version byte is changed to any other version is refused,
/// and the error names the version it carried.
pub proof fn lemma_wrong_version_rejected(
    message_type: MessageType,
    sequence: u32,
    payload: Seq<u8>,
    version: u8,
)
    requires
        version != PROTOCOL_VERSION,
    ensures
        spec_open_envelope(spec_envelope(message_type, sequence, payload).update(2, version))
            == Err::<(MessageType, u32, Seq<u8>), DecodeError>(
            DecodeError::UnsupportedVersion(version),
        ),
{
    lemma_le_codecs();
}

/// Whatever opens also closes again: a packet that passes the header checks is
/// exactly the envelope of what it opened to.
pub proof fn lemma_open_then_wrap(bytes: Seq<u8>)
    ensures
        spec_open_envelope(bytes) matches Ok((t, s, p)) ==> p.len() <= u16::MAX
            && spec_envelope(t, s, p) == bytes,
{
    lemma_auto_spec_u16_to_from_le_bytes();
    lemma_auto_spec_u32_to_from_le_bytes();
    if let Ok((t, s, p)) = spec_open_envelope(bytes) {
        let n = spec_u16_from_le_bytes(bytes.subrange(8, 10));
        assert(spec_u16_to_le_bytes(n) == bytes.subrange(8, 10));
        assert(p.len() == n);
        assert(spec_u32_to_le_bytes(s) == bytes.subrange(4, 8));
        assert(t.spec_code() == bytes[3]);
        assert(spec_envelope(t, s, p) =~= bytes);
    }
}

} // verus!
