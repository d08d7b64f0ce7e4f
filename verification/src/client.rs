//! Packets that a client sends to the server.

use crate::envelope::{
    decode_message, encode_message, lemma_envelope_round_trip, lemma_open_then_wrap,
    spec_envelope, spec_open_envelope,
};
use crate::kinds::{BuildingKind, CraftRecipe, DecodeError, MessageType, ResourceKind};
use crate::records::PlayerInput;
use crate::text::utf8_to_string;
use crate::wire::{get_u32, lemma_le_codecs, put_u32};
use vstd::bytes::*;
use vstd::prelude::*;
use vstd::utf8::{decode_utf8, encode_utf8, valid_utf8};

verus! {

broadcast use {vstd::utf8::encode_utf8_valid_utf8, vstd::utf8::encode_utf8_decode_utf8};

/// A command from a client.
#[derive(Debug, Clone, PartialEq)]
pub enum ClientMessage {
    Input { sequence: u32, input: PlayerInput },
    Authenticate { sequence: u32, token: String },
    Interact { sequence: u32, resource_id: u32 },
    Craft { sequence: u32, recipe: CraftRecipe },
    Consume { sequence: u32, kind: ResourceKind },
    Attack { sequence: u32 },
    /// `x` and `y` are the bit patterns of `f32` coordinates.
    Build { sequence: u32, kind: BuildingKind, x: u32, y: u32 },
}

/// A client command as a mathematical value: the token is its characters.
pub enum ClientMessageView {
    Input { sequence: u32, input: PlayerInput },
    Authenticate { sequence: u32, token: Seq<char> },
    Interact { sequence: u32, resource_id: u32 },
    Craft { sequence: u32, recipe: CraftRecipe },
    Consume { sequence: u32, kind: ResourceKind },
    Attack { sequence: u32 },
    Build { sequence: u32, kind: BuildingKind, x: u32, y: u32 },
}

impl View for ClientMessage {
    type V = ClientMessageView;

    open spec fn view(&self) -> ClientMessageView {
        match self {
            ClientMessage::Input { sequence, input } => ClientMessageView::Input {
                sequence: *sequence,
                input: *input,
            },
            ClientMessage::Authenticate { sequence, token } => ClientMessageView::Authenticate {
                sequence: *sequence,
                token: token@,
            },
            ClientMessage::Interact { sequence, resource_id } => ClientMessageView::Interact {
                sequence: *sequence,
                resource_id: *resource_id,
            },
            ClientMessage::Craft { sequence, recipe } => ClientMessageView::Craft {
                sequence: *sequence,
                recipe: *recipe,
            },
            ClientMessage::Consume { sequence, kind } => ClientMessageView::Consume {
                sequence: *sequence,
                kind: *kind,
            },
            ClientMessage::Attack { sequence } => ClientMessageView::Attack { sequence: *sequence },
            ClientMessage::Build { sequence, kind, x, y } => ClientMessageView::Build {
                sequence: *sequence,
                kind: *kind,
                x: *x,
                y: *y,
            },
        }
    }
}

/// The message type and payload that carry a command.
pub open spec fn spec_client_type(m: ClientMessageView) -> MessageType {
    match m {
        ClientMessageView::Input { .. } => MessageType::ClientInput,
        ClientMessageView::Authenticate { .. } => MessageType::ClientAuthenticate,
        ClientMessageView::Interact { .. } => MessageType::ClientInteract,
        ClientMessageView::Craft { .. } => MessageType::ClientCraft,
        ClientMessageView::Consume { .. } => MessageType::ClientConsume,
        ClientMessageView::Attack { .. } => MessageType::ClientAttack,
        ClientMessageView::Build { .. } => MessageType::ClientBuild,
    }
}

pub open spec fn spec_client_sequence(m: ClientMessageView) -> u32 {
    match m {
        ClientMessageView::Input { sequence, .. } => sequence,
        ClientMessageView::Authenticate { sequence, .. } => sequence,
        ClientMessageView::Interact { sequence, .. } => sequence,
        ClientMessageView::Craft { sequence, .. } => sequence,
        ClientMessageView::Consume { sequence, .. } => sequence,
        ClientMessageView::Attack { sequence } => sequence,
        ClientMessageView::Build { sequence, .. } => sequence,
    }
}

pub open spec fn spec_client_payload(m: ClientMessageView) -> Seq<u8> {
    match m {
        ClientMessageView::Input { input, .. } => input.spec_encode(),
        ClientMessageView::Authenticate { token, .. } => encode_utf8(token),
        ClientMessageView::Interact { resource_id, .. } => spec_u32_to_le_bytes(resource_id),
        ClientMessageView::Craft { recipe, .. } => seq![recipe.spec_code()],
        ClientMessageView::Consume { kind, .. } => seq![kind.spec_code()],
        ClientMessageView::Attack { .. } => Seq::empty(),
        ClientMessageView::Build { kind, x, y, .. } => seq![kind.spec_code()]
            + spec_u32_to_le_bytes(x) + spec_u32_to_le_bytes(y),
    }
}

/// The packet that carries a command.
pub open spec fn spec_encode_client(m: ClientMessageView) -> Seq<u8> {
    spec_envelope(spec_client_type(m), spec_client_sequence(m), spec_client_payload(m))
}

/// A command that can be sent: an authentication token is not empty and its
/// UTF-8 bytes fit the 16-bit payload length.
pub open spec fn spec_client_sendable(m: ClientMessageView) -> bool {
    match m {
        ClientMessageView::Authenticate { token, .. } => token.len() > 0 && encode_utf8(token).len()
            <= u16::MAX,
        _ => true,
    }
}

/// The command that a payload of the given type stands for.
pub open spec fn spec_decode_client_payload(
    message_type: MessageType,
    sequence: u32,
    payload: Seq<u8>,
) -> Result<ClientMessageView, DecodeError> {
    match message_type {
        MessageType::ClientInput => match PlayerInput::spec_decode(payload) {
            Some(input) => Ok(ClientMessageView::Input { sequence, input }),
            None => Err(DecodeError::InvalidPayload),
        },
        MessageType::ClientAuthenticate => {
            if valid_utf8(payload) && decode_utf8(payload).len() > 0 {
                Ok(ClientMessageView::Authenticate { sequence, token: decode_utf8(payload) })
            } else {
                Err(DecodeError::InvalidPayload)
            }
        },
        MessageType::ClientInteract => {
            if payload.len() == 4 {
                Ok(
                    ClientMessageView::Interact {
                        sequence,
                        resource_id: spec_u32_from_le_bytes(payload),
                    },
                )
            } else {
                Err(DecodeError::InvalidPayload)
            }
        },
        MessageType::ClientCraft => {
            if payload.len() == 1 {
                match CraftRecipe::spec_from_code(payload[0]) {
                    Some(recipe) => Ok(ClientMessageView::Craft { sequence, recipe }),
                    None => Err(DecodeError::InvalidPayload),
                }
            } else {
                Err(DecodeError::InvalidPayload)
            }
        },
        MessageType::ClientConsume => {
            if payload.len() == 1 {
                match ResourceKind::spec_from_code(payload[0]) {
                    Some(kind) => Ok(ClientMessageView::Consume { sequence, kind }),
                    None => Err(DecodeError::InvalidPayload),
                }
            } else {
                Err(DecodeError::InvalidPayload)
            }
        },
        MessageType::ClientAttack => {
            if payload.len() == 0 {
                Ok(ClientMessageView::Attack { sequence })
            } else {
                Err(DecodeError::InvalidPayload)
            }
        },
        MessageType::ClientBuild => {
            if payload.len() == 9 {
                match BuildingKind::spec_from_code(payload[0]) {
                    Some(kind) => Ok(
                        ClientMessageView::Build {
                            sequence,
                            kind,
                            x: spec_u32_from_le_bytes(payload.subrange(1, 5)),
                            y: spec_u32_from_le_bytes(payload.subrange(5, 9)),
                        },
                    ),
                    None => Err(DecodeError::InvalidPayload),
                }
            } else {
                Err(DecodeError::InvalidPayload)
            }
        },
        MessageType::ServerSnapshot => Err(DecodeError::UnknownMessageType(2)),
    }
}

/// The command that a packet stands for, or why it stands for none.
pub open spec fn spec_decode_client(bytes: Seq<u8>) -> Result<ClientMessageView, DecodeError> {
    match spec_open_envelope(bytes) {
        Ok((t, s, p)) => spec_decode_client_payload(t, s, p),
        Err(e) => Err(e),
    }
}

pub fn encode_client_input(sequence: u32, input: PlayerInput) -> (r: Vec<u8>)
    ensures
        r@ == spec_encode_client(ClientMessageView::Input { sequence, input }),
{
    let payload = input.encode();
    encode_message(MessageType::ClientInput, sequence, payload.as_slice())
}

pub fn encode_client_authenticate(sequence: u32, token: &str) -> (r: Vec<u8>)
    requires
        encode_utf8(token@).len() <= u16::MAX,
    ensures
        r@ == spec_encode_client(ClientMessageView::Authenticate { sequence, token: token@ }),
{
    encode_message(MessageType::ClientAuthenticate, sequence, token.as_bytes())
}

pub fn encode_client_interact(sequence: u32, resource_id: u32) -> (r: Vec<u8>)
    ensures
        r@ == spec_encode_client(ClientMessageView::Interact { sequence, resource_id }),
{
    proof {
        lemma_le_codecs();
    }
    let mut payload: Vec<u8> = Vec::new();
    put_u32(&mut payload, resource_id);
    assert(payload@ =~= spec_u32_to_le_bytes(resource_id));
    encode_message(MessageType::ClientInteract, sequence, payload.as_slice())
}

pub fn encode_client_craft(sequence: u32, recipe: CraftRecipe) -> (r: Vec<u8>)
    ensures
        r@ == spec_encode_client(ClientMessageView::Craft { sequence, recipe }),
{
    let payload = [recipe.code()];
    assert(payload@ =~= seq![recipe.spec_code()]);
    encode_message(MessageType::ClientCraft, sequence, payload.as_slice())
}

pub fn encode_client_consume(sequence: u32, kind: ResourceKind) -> (r: Vec<u8>)
    ensures
        r@ == spec_encode_client(ClientMessageView::Consume { sequence, kind }),
{
    let payload = [kind.code()];
    assert(payload@ =~= seq![kind.spec_code()]);
    encode_message(MessageType::ClientConsume, sequence, payload.as_slice())
}

pub fn encode_client_attack(sequence: u32) -> (r: Vec<u8>)
    ensures
        r@ == spec_encode_client(ClientMessageView::Attack { sequence }),
{
    let payload: Vec<u8> = Vec::new();
    assert(payload@ =~= Seq::<u8>::empty());
    encode_message(MessageType::ClientAttack, sequence, payload.as_slice())
}

/// `x` and `y` are the bit patterns of `f32` coordinates.
pub fn encode_client_build(sequence: u32, kind: BuildingKind, x: u32, y: u32) -> (r: Vec<u8>)
    ensures
        r@ == spec_encode_client(ClientMessageView::Build { sequence, kind, x, y }),
{
    proof {
        lemma_le_codecs();
    }
    let mut payload: Vec<u8> = Vec::new();
    payload.push(kind.code());
    put_u32(&mut payload, x);
    put_u32(&mut payload, y);
    assert(payload@ =~= seq![kind.spec_code()] + spec_u32_to_le_bytes(x) + spec_u32_to_le_bytes(y));
    encode_message(MessageType::ClientBuild, sequence, payload.as_slice())
}

pub fn decode_client_message(bytes: &[u8]) -> (r: Result<ClientMessage, DecodeError>)
    ensures
        match spec_decode_client(bytes@) {
            Ok(m) => r matches Ok(c) && c@ == m,
            Err(e) => r matches Err(e2) && e2 == e,
        },
{
    let (message_type, sequence, payload) = match decode_message(bytes) {
        Ok(opened) => opened,
        Err(e) => {
            return Err(e);
        },
    };
    let len = payload.len();
    match message_type {
        MessageType::ClientInput => match PlayerInput::decode(payload) {
            Some(input) => Ok(ClientMessage::Input { sequence, input }),
            None => Err(DecodeError::InvalidPayload),
        },
        MessageType::ClientAuthenticate => {
            let token = match utf8_to_string(payload) {
                Some(token) => token,
                None => {
                    return Err(DecodeError::InvalidPayload);
                },
            };
            if token.as_str().is_empty() {
                return Err(DecodeError::InvalidPayload);
            }
            Ok(ClientMessage::Authenticate { sequence, token })
        },
        MessageType::ClientInteract => {
            if len != 4 {
                return Err(DecodeError::InvalidPayload);
            }
            let resource_id = get_u32(payload, 0);
            assert(payload@.subrange(0, 4) =~= payload@);
            Ok(ClientMessage::Interact { sequence, resource_id })
        },
        MessageType::ClientCraft => {
            if len != 1 {
                return Err(DecodeError::InvalidPayload);
            }
            match CraftRecipe::try_from(payload[0]) {
                Ok(recipe) => Ok(ClientMessage::Craft { sequence, recipe }),
                Err(e) => Err(e),
            }
        },
        MessageType::ClientConsume => {
            if len != 1 {
                return Err(DecodeError::InvalidPayload);
            }
            match ResourceKind::try_from(payload[0]) {
                Ok(kind) => Ok(ClientMessage::Consume { sequence, kind }),
                Err(e) => Err(e),
            }
        },
        MessageType::ClientAttack => {
            if len != 0 {
                return Err(DecodeError::InvalidPayload);
            }
            Ok(ClientMessage::Attack { sequence })
        },
        MessageType::ClientBuild => {
            if len != 9 {
                return Err(DecodeError::InvalidPayload);
            }
            let kind = match BuildingKind::try_from(payload[0]) {
                Ok(kind) => kind,
                Err(e) => {
                    return Err(e);
                },
            };
            Ok(
                ClientMessage::Build {
                    sequence,
                    kind,
                    x: get_u32(payload, 1),
                    y: get_u32(payload, 5),
                },
            )
        },
        MessageType::ServerSnapshot => Err(DecodeError::UnknownMessageType(message_type.code())),
    }
}

/// Every command that can be sent decodes to itself.
pub proof fn lemma_client_round_trip(m: ClientMessageView)
    requires
        spec_client_sendable(m),
    ensures
        spec_decode_client(spec_encode_client(m)) == Ok::<ClientMessageView, DecodeError>(m),
{
    lemma_le_codecs();
    let p = spec_client_payload(m);
    assert(p.len() <= u16::MAX);
    lemma_envelope_round_trip(spec_client_type(m), spec_client_sequence(m), p);
    match m {
        ClientMessageView::Input { input, .. } => {
            input.lemma_round_trip();
        },
        ClientMessageView::Authenticate { token, .. } => {
        },
        ClientMessageView::Interact { resource_id, .. } => {
        },
        ClientMessageView::Craft { recipe, .. } => {
            recipe.lemma_code_round_trip();
        },
        ClientMessageView::Consume { kind, .. } => {
            kind.lemma_code_round_trip();
        },
        ClientMessageView::Attack { .. } => {
        },
        ClientMessageView::Build { kind, x, y, .. } => {
            kind.lemma_code_round_trip();
            assert(p.subrange(1, 5) =~= spec_u32_to_le_bytes(x));
            assert(p.subrange(5, 9) =~= spec_u32_to_le_bytes(y));
        },
    }
}

/// The decoder accepts only what the encoder writes: a packet that decodes to
/// a command is exactly the encoding of that command.
pub proof fn lemma_client_decode_is_canonical(bytes: Seq<u8>)
    ensures
        spec_decode_client(bytes) matches Ok(m) ==> spec_client_sendable(m) && spec_encode_client(
            m,
        ) == bytes,
{
    lemma_open_then_wrap(bytes);
    lemma_auto_spec_u32_to_from_le_bytes();
    if let Ok((t, s, p)) = spec_open_envelope(bytes) {
        if let Ok(m) = spec_decode_client_payload(t, s, p) {
            assert(spec_client_type(m) == t);
            assert(spec_client_sequence(m) == s);
            match m {
                ClientMessageView::Input { input, .. } => {
                    let a = p[0];
                    let b = p[1];
                    assert((a as i8) as u8 == a) by (bit_vector);
                    assert((b as i8) as u8 == b) by (bit_vector);
                    assert(input.spec_encode() =~= p);
                },
                ClientMessageView::Authenticate { token, .. } => {
                    vstd::utf8::decode_utf8_encode_utf8(p);
                },
                ClientMessageView::Interact { resource_id, .. } => {
                },
                ClientMessageView::Craft { recipe, .. } => {
                    assert(seq![recipe.spec_code()] =~= p);
                },
                ClientMessageView::Consume { kind, .. } => {
                    assert(seq![kind.spec_code()] =~= p);
                },
                ClientMessageView::Attack { .. } => {
                    assert(p =~= Seq::<u8>::empty());
                },
                ClientMessageView::Build { kind, x, y, .. } => {
                    assert(spec_u32_to_le_bytes(x) == p.subrange(1, 5));
                    assert(spec_u32_to_le_bytes(y) == p.subrange(5, 9));
                    assert(seq![kind.spec_code()] + spec_u32_to_le_bytes(x) + spec_u32_to_le_bytes(
                        y,
                    ) =~= p);
                },
            }
            assert(spec_client_payload(m) == p);
        }
    }
}

} // verus!
