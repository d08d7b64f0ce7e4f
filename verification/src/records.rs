//! The fixed-size records that packets are made of.
//!
//! Coordinates and vitals are IEEE 754 single-precision numbers. On the wire
//! such a number is its 32-bit pattern in little-endian order, so a record
//! holds each of them as that bit pattern (`f32::to_bits`); what a number
//! means is left to the simulation and the renderer.

use crate::kinds::{BuildingKind, PlayerId, ResourceKind};
use crate::wire::{get_u16, get_u32, get_u64, lemma_le_codecs, put_u16, put_u32, put_u64, WireRecord};
use vstd::bytes::*;
use vstd::prelude::*;

verus! {

/// Input accepted by the authoritative simulation.
#[derive(Debug, Clone, Copy, Default, PartialEq, Eq, Structural)]
pub struct PlayerInput {
    pub move_x: i8,
    pub move_y: i8,
}

/// Minimal state replicated from the server to a client.
#[derive(Debug, Clone, Copy, Default, PartialEq, Eq, Structural)]
pub struct PlayerSnapshot {
    pub player_id: PlayerId,
    /// Bit pattern of the `f32` x coordinate.
    pub x: u32,
    /// Bit pattern of the `f32` y coordinate.
    pub y: u32,
}

/// A placed structure.
#[derive(Debug, Clone, Copy, PartialEq, Eq, Structural)]
pub struct BuildingSnapshot {
    pub building_id: u32,
    pub kind: BuildingKind,
    pub owner_id: PlayerId,
    /// Bit pattern of the `f32` x coordinate.
    pub x: u32,
    /// Bit pattern of the `f32` y coordinate.
    pub y: u32,
}

/// Health, stamina and hunger, each the bit pattern of an `f32`.
#[derive(Debug, Clone, Copy, PartialEq, Eq, Structural)]
pub struct PlayerVitals {
    pub health: u32,
    pub stamina: u32,
    pub hunger: u32,
}

/// A hostile creature.
#[derive(Debug, Clone, Copy, PartialEq, Eq, Structural)]
pub struct EnemySnapshot {
    pub enemy_id: u32,
    /// Bit pattern of the `f32` x coordinate.
    pub x: u32,
    /// Bit pattern of the `f32` y coordinate.
    pub y: u32,
    /// Bit pattern of the `f32` health.
    pub health: u32,
}

/// A resource node in the world.
#[derive(Debug, Clone, Copy, PartialEq, Eq, Structural)]
pub struct ResourceSnapshot {
    pub resource_id: u32,
    pub kind: ResourceKind,
    /// Bit pattern of the `f32` x coordinate.
    pub x: u32,
    /// Bit pattern of the `f32` y coordinate.
    pub y: u32,
    pub remaining: u16,
}

/// A stack of one kind of resource in the inventory.
#[derive(Debug, Clone, Copy, PartialEq, Eq, Structural)]
pub struct InventoryStack {
    pub kind: ResourceKind,
    pub quantity: u16,
}

/// Bit pattern of the `f32` value 100.0.
pub const FULL_VITAL: u32 = 0x42c8_0000;

impl PlayerVitals {
    pub open spec fn spec_default() -> PlayerVitals {
        PlayerVitals { health: FULL_VITAL, stamina: FULL_VITAL, hunger: FULL_VITAL }
    }
}

impl Default for PlayerVitals {
    /// Every vital starts full, at 100.0.
    fn default() -> (r: PlayerVitals)
        ensures
            r == PlayerVitals::spec_default(),
    {
        PlayerVitals { health: FULL_VITAL, stamina: FULL_VITAL, hunger: FULL_VITAL }
    }
}

impl PlayerInput {
    pub const BYTE_LEN: usize = 2;

    /// Each axis moves by at most one step in either direction.
    pub open spec fn spec_is_valid(self) -> bool {
        -1 <= self.move_x <= 1 && -1 <= self.move_y <= 1
    }

    pub open spec fn spec_encode(self) -> Seq<u8> {
        seq![self.move_x as u8, self.move_y as u8]
    }

    pub open spec fn spec_decode(bytes: Seq<u8>) -> Option<PlayerInput> {
        if bytes.len() == 2 {
            Some(PlayerInput { move_x: bytes[0] as i8, move_y: bytes[1] as i8 })
        } else {
            None
        }
    }

    pub fn is_valid(self) -> (r: bool)
        ensures
            r == self.spec_is_valid(),
    {
        -1 <= self.move_x && self.move_x <= 1 && -1 <= self.move_y && self.move_y <= 1
    }

    pub fn encode(self) -> (r: [u8; 2])
        ensures
            r@ == self.spec_encode(),
    {
        let r = [self.move_x as u8, self.move_y as u8];
        assert(r@ =~= self.spec_encode());
        r
    }

    pub fn decode(bytes: &[u8]) -> (r: Option<PlayerInput>)
        ensures
            r == Self::spec_decode(bytes@),
    {
        if bytes.len() != 2 {
            return None;
        }
        Some(PlayerInput { move_x: bytes[0] as i8, move_y: bytes[1] as i8 })
    }

    /// Decoding the encoding of an input gives the input back.
    pub proof fn lemma_round_trip(self)
        ensures
            Self::spec_decode(self.spec_encode()) == Some(self),
    {
        let x = self.move_x;
        let y = self.move_y;
        assert((x as u8) as i8 == x) by (bit_vector);
        assert((y as u8) as i8 == y) by (bit_vector);
    }
}

impl WireRecord for PlayerInput {
    open spec fn spec_len() -> nat {
        2
    }

    open spec fn spec_parse(bytes: Seq<u8>) -> Option<PlayerInput> {
        Self::spec_decode(bytes)
    }

    open spec fn wire_bytes(self) -> Seq<u8> {
        self.spec_encode()
    }

    fn record_len() -> (n: usize) {
        Self::BYTE_LEN
    }

    fn parse_record(bytes: &[u8]) -> (r: Option<PlayerInput>) {
        Self::decode(bytes)
    }

    fn append_record(&self, out: &mut Vec<u8>) {
        out.push(self.move_x as u8);
        out.push(self.move_y as u8);
        assert(final(out)@ =~= old(out)@ + self.wire_bytes());
    }

    proof fn lemma_record_round_trip(self) {
        self.lemma_round_trip();
    }

    proof fn lemma_parse_len(bytes: Seq<u8>) {
    }
}

impl PlayerSnapshot {
    pub const BYTE_LEN: usize = 16;

    pub open spec fn spec_encode(self) -> Seq<u8> {
        spec_u64_to_le_bytes(self.player_id) + spec_u32_to_le_bytes(self.x) + spec_u32_to_le_bytes(
            self.y,
        )
    }

    pub open spec fn spec_decode(bytes: Seq<u8>) -> Option<PlayerSnapshot> {
        if bytes.len() == 16 {
            Some(
                PlayerSnapshot {
                    player_id: spec_u64_from_le_bytes(bytes.subrange(0, 8)),
                    x: spec_u32_from_le_bytes(bytes.subrange(8, 12)),
                    y: spec_u32_from_le_bytes(bytes.subrange(12, 16)),
                },
            )
        } else {
            None
        }
    }

    pub fn encode(self) -> (r: [u8; 16])
        ensures
            r@ == self.spec_encode(),
    {
        proof {
            lemma_le_codecs();
        }
        let p = u64_to_le_bytes(self.player_id);
        let x = u32_to_le_bytes(self.x);
        let y = u32_to_le_bytes(self.y);
        let r = [
            p[0],
            p[1],
            p[2],
            p[3],
            p[4],
            p[5],
            p[6],
            p[7],
            x[0],
            x[1],
            x[2],
            x[3],
            y[0],
            y[1],
            y[2],
            y[3],
        ];
        assert(r@ =~= self.spec_encode());
        r
    }

    pub fn decode(bytes: &[u8]) -> (r: Option<PlayerSnapshot>)
        ensures
            r == Self::spec_decode(bytes@),
    {
        if bytes.len() != 16 {
            return None;
        }
        Some(
            PlayerSnapshot {
                player_id: get_u64(bytes, 0),
                x: get_u32(bytes, 8),
                y: get_u32(bytes, 12),
            },
        )
    }

    /// Decoding the encoding of a snapshot gives the snapshot back.
    pub proof fn lemma_round_trip(self)
        ensures
            self.spec_encode().len() == 16,
            Self::spec_decode(self.spec_encode()) == Some(self),
    {
        lemma_le_codecs();
        let b = self.spec_encode();
        assert(b.subrange(0, 8) =~= spec_u64_to_le_bytes(self.player_id));
        assert(b.subrange(8, 12) =~= spec_u32_to_le_bytes(self.x));
        assert(b.subrange(12, 16) =~= spec_u32_to_le_bytes(self.y));
    }
}

impl WireRecord for PlayerSnapshot {
    open spec fn spec_len() -> nat {
        16
    }

    open spec fn spec_parse(bytes: Seq<u8>) -> Option<PlayerSnapshot> {
        Self::spec_decode(bytes)
    }

    open spec fn wire_bytes(self) -> Seq<u8> {
        self.spec_encode()
    }

    fn record_len() -> (n: usize) {
        Self::BYTE_LEN
    }

    fn parse_record(bytes: &[u8]) -> (r: Option<PlayerSnapshot>) {
        Self::decode(bytes)
    }

    fn append_record(&self, out: &mut Vec<u8>) {
        put_u64(out, self.player_id);
        put_u32(out, self.x);
        put_u32(out, self.y);
        assert(final(out)@ =~= old(out)@ + self.wire_bytes());
    }

    proof fn lemma_record_round_trip(self) {
        self.lemma_round_trip();
    }

    proof fn lemma_parse_len(bytes: Seq<u8>) {
    }
}

impl BuildingSnapshot {
    pub const BYTE_LEN: usize = 21;

    pub fn encode(self, bytes: &mut Vec<u8>)
        ensures
            final(bytes)@ == old(bytes)@ + self.wire_bytes(),
    {
        put_u32(bytes, self.building_id);
        bytes.push(self.kind.code());
        put_u64(bytes, self.owner_id);
        put_u32(bytes, self.x);
        put_u32(bytes, self.y);
        assert(final(bytes)@ =~= old(bytes)@ + self.wire_bytes());
    }

    pub fn decode(bytes: &[u8]) -> (r: Option<BuildingSnapshot>)
        ensures
            r == Self::spec_parse(bytes@),
    {
        if bytes.len() != 21 {
            return None;
        }
        let kind = match BuildingKind::try_from(bytes[4]) {
            Ok(kind) => kind,
            Err(_) => {
                return None;
            },
        };
        Some(
            BuildingSnapshot {
                building_id: get_u32(bytes, 0),
                kind,
                owner_id: get_u64(bytes, 5),
                x: get_u32(bytes, 13),
                y: get_u32(bytes, 17),
            },
        )
    }
}

impl WireRecord for BuildingSnapshot {
    open spec fn spec_len() -> nat {
        21
    }

    open spec fn spec_parse(bytes: Seq<u8>) -> Option<BuildingSnapshot> {
        if bytes.len() == 21 {
            match BuildingKind::spec_from_code(bytes[4]) {
                Some(kind) => Some(
                    BuildingSnapshot {
                        building_id: spec_u32_from_le_bytes(bytes.subrange(0, 4)),
                        kind,
                        owner_id: spec_u64_from_le_bytes(bytes.subrange(5, 13)),
                        x: spec_u32_from_le_bytes(bytes.subrange(13, 17)),
                        y: spec_u32_from_le_bytes(bytes.subrange(17, 21)),
                    },
                ),
                None => None,
            }
        } else {
            None
        }
    }

    open spec fn wire_bytes(self) -> Seq<u8> {
        spec_u32_to_le_bytes(self.building_id) + seq![self.kind.spec_code()]
            + spec_u64_to_le_bytes(self.owner_id) + spec_u32_to_le_bytes(self.x)
            + spec_u32_to_le_bytes(self.y)
    }

    fn record_len() -> (n: usize) {
        Self::BYTE_LEN
    }

    fn parse_record(bytes: &[u8]) -> (r: Option<BuildingSnapshot>) {
        Self::decode(bytes)
    }

    fn append_record(&self, out: &mut Vec<u8>) {
        self.encode(out)
    }

    proof fn lemma_record_round_trip(self) {
        lemma_le_codecs();
        let b = self.wire_bytes();
        assert(b.subrange(0, 4) =~= spec_u32_to_le_bytes(self.building_id));
        assert(b[4] == self.kind.spec_code());
        assert(b.subrange(5, 13) =~= spec_u64_to_le_bytes(self.owner_id));
        assert(b.subrange(13, 17) =~= spec_u32_to_le_bytes(self.x));
        assert(b.subrange(17, 21) =~= spec_u32_to_le_bytes(self.y));
        self.kind.lemma_code_round_trip();
    }

    proof fn lemma_parse_len(bytes: Seq<u8>) {
    }
}

impl EnemySnapshot {
    pub const BYTE_LEN: usize = 16;

    pub fn encode(self, bytes: &mut Vec<u8>)
        ensures
            final(bytes)@ == old(bytes)@ + self.wire_bytes(),
    {
        put_u32(bytes, self.enemy_id);
        put_u32(bytes, self.x);
        put_u32(bytes, self.y);
        put_u32(bytes, self.health);
        assert(final(bytes)@ =~= old(bytes)@ + self.wire_bytes());
    }

    pub fn decode(bytes: &[u8]) -> (r: Option<EnemySnapshot>)
        ensures
            r == Self::spec_parse(bytes@),
    {
        if bytes.len() != 16 {
            return None;
        }
        Some(
            EnemySnapshot {
                enemy_id: get_u32(bytes, 0),
                x: get_u32(bytes, 4),
                y: get_u32(bytes, 8),
                health: get_u32(bytes, 12),
            },
        )
    }
}

impl WireRecord for EnemySnapshot {
    open spec fn spec_len() -> nat {
        16
    }

    open spec fn spec_parse(bytes: Seq<u8>) -> Option<EnemySnapshot> {
        if bytes.len() == 16 {
            Some(
                EnemySnapshot {
                    enemy_id: spec_u32_from_le_bytes(bytes.subrange(0, 4)),
                    x: spec_u32_from_le_bytes(bytes.subrange(4, 8)),
                    y: spec_u32_from_le_bytes(bytes.subrange(8, 12)),
                    health: spec_u32_from_le_bytes(bytes.subrange(12, 16)),
                },
            )
        } else {
            None
        }
    }

    open spec fn wire_bytes(self) -> Seq<u8> {
        spec_u32_to_le_bytes(self.enemy_id) + spec_u32_to_le_bytes(self.x) + spec_u32_to_le_bytes(
            self.y,
        ) + spec_u32_to_le_bytes(self.health)
    }

    fn record_len() -> (n: usize) {
        Self::BYTE_LEN
    }

    fn parse_record(bytes: &[u8]) -> (r: Option<EnemySnapshot>) {
        Self::decode(bytes)
    }

    fn append_record(&self, out: &mut Vec<u8>) {
        self.encode(out)
    }

    proof fn lemma_record_round_trip(self) {
        lemma_le_codecs();
        let b = self.wire_bytes();
        assert(b.subrange(0, 4) =~= spec_u32_to_le_bytes(self.enemy_id));
        assert(b.subrange(4, 8) =~= spec_u32_to_le_bytes(self.x));
        assert(b.subrange(8, 12) =~= spec_u32_to_le_bytes(self.y));
        assert(b.subrange(12, 16) =~= spec_u32_to_le_bytes(self.health));
    }

    proof fn lemma_parse_len(bytes: Seq<u8>) {
    }
}

impl ResourceSnapshot {
    pub const BYTE_LEN: usize = 15;

    pub fn encode(self, bytes: &mut Vec<u8>)
        ensures
            final(bytes)@ == old(bytes)@ + self.wire_bytes(),
    {
        put_u32(bytes, self.resource_id);
        bytes.push(self.kind.code());
        put_u32(bytes, self.x);
        put_u32(bytes, self.y);
        put_u16(bytes, self.remaining);
        assert(final(bytes)@ =~= old(bytes)@ + self.wire_bytes());
    }

    pub fn decode(bytes: &[u8]) -> (r: Option<ResourceSnapshot>)
        ensures
            r == Self::spec_parse(bytes@),
    {
        if bytes.len() != 15 {
            return None;
        }
        let kind = match ResourceKind::try_from(bytes[4]) {
            Ok(kind) => kind,
            Err(_) => {
                return None;
            },
        };
        Some(
            ResourceSnapshot {
                resource_id: get_u32(bytes, 0),
                kind,
                x: get_u32(bytes, 5),
                y: get_u32(bytes, 9),
                remaining: get_u16(bytes, 13),
            },
        )
    }
}

impl WireRecord for ResourceSnapshot {
    open spec fn spec_len() -> nat {
        15
    }

    open spec fn spec_parse(bytes: Seq<u8>) -> Option<ResourceSnapshot> {
        if bytes.len() == 15 {
            match ResourceKind::spec_from_code(bytes[4]) {
                Some(kind) => Some(
                    ResourceSnapshot {
                        resource_id: spec_u32_from_le_bytes(bytes.subrange(0, 4)),
                        kind,
                        x: spec_u32_from_le_bytes(bytes.subrange(5, 9)),
                        y: spec_u32_from_le_bytes(bytes.subrange(9, 13)),
                        remaining: spec_u16_from_le_bytes(bytes.subrange(13, 15)),
                    },
                ),
                None => None,
            }
        } else {
            None
        }
    }

    open spec fn wire_bytes(self) -> Seq<u8> {
        spec_u32_to_le_bytes(self.resource_id) + seq![self.kind.spec_code()]
            + spec_u32_to_le_bytes(self.x) + spec_u32_to_le_bytes(self.y) + spec_u16_to_le_bytes(
            self.remaining,
        )
    }

    fn record_len() -> (n: usize) {
        Self::BYTE_LEN
    }

    fn parse_record(bytes: &[u8]) -> (r: Option<ResourceSnapshot>) {
        Self::decode(bytes)
    }

    fn append_record(&self, out: &mut Vec<u8>) {
        self.encode(out)
    }

    proof fn lemma_record_round_trip(self) {
        lemma_le_codecs();
        let b = self.wire_bytes();
        assert(b.subrange(0, 4) =~= spec_u32_to_le_bytes(self.resource_id));
        assert(b[4] == self.kind.spec_code());
        assert(b.subrange(5, 9) =~= spec_u32_to_le_bytes(self.x));
        assert(b.subrange(9, 13) =~= spec_u32_to_le_bytes(self.y));
        assert(b.subrange(13, 15) =~= spec_u16_to_le_bytes(self.remaining));
        self.kind.lemma_code_round_trip();
    }

    proof fn lemma_parse_len(bytes: Seq<u8>) {
    }
}

impl InventoryStack {
    pub const BYTE_LEN: usize = 3;

    pub fn encode(self, bytes: &mut Vec<u8>)
        ensures
            final(bytes)@ == old(bytes)@ + self.wire_bytes(),
    {
        bytes.push(self.kind.code());
        put_u16(bytes, self.quantity);
        assert(final(bytes)@ =~= old(bytes)@ + self.wire_bytes());
    }

    pub fn decode(bytes: &[u8]) -> (r: Option<InventoryStack>)
        ensures
            r == Self::spec_parse(bytes@),
    {
        if bytes.len() != 3 {
            return None;
        }
        let kind = match ResourceKind::try_from(bytes[0]) {
            Ok(kind) => kind,
            Err(_) => {
                return None;
            },
        };
        Some(InventoryStack { kind, quantity: get_u16(bytes, 1) })
    }
}

impl WireRecord for InventoryStack {
    open spec fn spec_len() -> nat {
        3
    }

    open spec fn spec_parse(bytes: Seq<u8>) -> Option<InventoryStack> {
        if bytes.len() == 3 {
            match ResourceKind::spec_from_code(bytes[0]) {
                Some(kind) => Some(
                    InventoryStack {
                        kind,
                        quantity: spec_u16_from_le_bytes(bytes.subrange(1, 3)),
                    },
                ),
                None => None,
            }
        } else {
            None
        }
    }

    open spec fn wire_bytes(self) -> Seq<u8> {
        seq![self.kind.spec_code()] + spec_u16_to_le_bytes(self.quantity)
    }

    fn record_len() -> (n: usize) {
        Self::BYTE_LEN
    }

    fn parse_record(bytes: &[u8]) -> (r: Option<InventoryStack>) {
        Self::decode(bytes)
    }

    fn append_record(&self, out: &mut Vec<u8>) {
        self.encode(out)
    }

    proof fn lemma_record_round_trip(self) {
        lemma_le_codecs();
        let b = self.wire_bytes();
        assert(b[0] == self.kind.spec_code());
        assert(b.subrange(1, 3) =~= spec_u16_to_le_bytes(self.quantity));
        self.kind.lemma_code_round_trip();
    }

    proof fn lemma_parse_len(bytes: Seq<u8>) {
    }
}

} // verus!
