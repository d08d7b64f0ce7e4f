//! The world state that the server sends to each client.
//!
//! Payload layout, after the player id (8 bytes):
//!
//! ```text
//! resources section | inventory section | crafted kits (2B) | vitals (12B)
//! | enemies section | "BL" | buildings section | player snapshots until the end
//! ```
//!
//! A section is a 16-bit count followed by that many records. Servers that
//! predate building replication wrote the snapshots right after the enemies;
//! such a payload is still read, with no buildings.

use crate::envelope::{
    decode_message, encode_message, lemma_envelope_round_trip, spec_envelope, spec_open_envelope,
};
use crate::kinds::{DecodeError, MessageType, PlayerId};
use crate::records::{
    BuildingSnapshot, EnemySnapshot, InventoryStack, PlayerSnapshot, PlayerVitals,
    ResourceSnapshot,
};
use crate::sections::{
    append_records, append_section, decode_records, decode_section, lemma_records_bytes_len,
    lemma_records_round_trip, lemma_section_round_trip, spec_parse_records, spec_records_bytes,
    spec_section, spec_section_bytes,
};
use crate::wire::{get_u16, get_u32, get_u64, lemma_le_codecs, put_u16, put_u32, put_u64};
use vstd::bytes::*;
use vstd::prelude::*;

verus! {

/// First byte of the marker that opens the buildings section, `B`.
pub const BUILDING_MAGIC_FIRST: u8 = 0x42;

/// Second byte of the marker that opens the buildings section, `L`.
pub const BUILDING_MAGIC_SECOND: u8 = 0x4c;

/// The state replicated to one client.
#[derive(Debug, Clone, PartialEq)]
pub struct ServerMessage {
    pub sequence: u32,
    pub player_id: PlayerId,
    pub snapshots: Vec<PlayerSnapshot>,
    pub resources: Vec<ResourceSnapshot>,
    pub inventory: Vec<InventoryStack>,
    pub crafted_kits: u16,
    pub vitals: PlayerVitals,
    pub enemies: Vec<EnemySnapshot>,
    pub buildings: Vec<BuildingSnapshot>,
}

/// The replicated state as a mathematical value.
pub struct ServerMessageView {
    pub sequence: u32,
    pub player_id: PlayerId,
    pub snapshots: Seq<PlayerSnapshot>,
    pub resources: Seq<ResourceSnapshot>,
    pub inventory: Seq<InventoryStack>,
    pub crafted_kits: u16,
    pub vitals: PlayerVitals,
    pub enemies: Seq<EnemySnapshot>,
    pub buildings: Seq<BuildingSnapshot>,
}

impl View for ServerMessage {
    type V = ServerMessageView;

    open spec fn view(&self) -> ServerMessageView {
        ServerMessageView {
            sequence: self.sequence,
            player_id: self.player_id,
            snapshots: self.snapshots@,
            resources: self.resources@,
            inventory: self.inventory@,
            crafted_kits: self.crafted_kits,
            vitals: self.vitals,
            enemies: self.enemies@,
            buildings: self.buildings@,
        }
    }
}

pub open spec fn spec_vitals_bytes(vitals: PlayerVitals) -> Seq<u8> {
    spec_u32_to_le_bytes(vitals.health) + spec_u32_to_le_bytes(vitals.stamina)
        + spec_u32_to_le_bytes(vitals.hunger)
}

/// The payload that carries a state.
pub open spec fn spec_server_payload(m: ServerMessageView) -> Seq<u8> {
    spec_u64_to_le_bytes(m.player_id) + spec_section_bytes(m.resources) + spec_section_bytes(
        m.inventory,
    ) + spec_u16_to_le_bytes(m.crafted_kits) + spec_vitals_bytes(m.vitals) + spec_section_bytes(
        m.enemies,
    ) + seq![BUILDING_MAGIC_FIRST, BUILDING_MAGIC_SECOND] + spec_section_bytes(m.buildings)
        + spec_records_bytes(m.snapshots)
}

/// How long that payload is.
pub open spec fn spec_server_payload_len(m: ServerMessageView) -> int {
    (32 + 15 * m.resources.len() + 3 * m.inventory.len() + 16 * m.enemies.len() + 21
        * m.buildings.len() + 16 * m.snapshots.len()) as int
}

/// The packet that carries a state.
pub open spec fn spec_encode_server(m: ServerMessageView) -> Seq<u8> {
    spec_envelope(MessageType::ServerSnapshot, m.sequence, spec_server_payload(m))
}

/// The state that a server payload stands for, if any.
pub open spec fn spec_decode_server_payload(sequence: u32, p: Seq<u8>) -> Option<ServerMessageView> {
    if p.len() < 12 {
        None
    } else {
        let player_id = spec_u64_from_le_bytes(p.subrange(0, 8));
        match spec_section::<ResourceSnapshot>(p, 8) {
            None => None,
            Some((resources, o1)) => match spec_section::<InventoryStack>(p, o1) {
                None => None,
                Some((inventory, o2)) => {
                    if o2 + 14 > p.len() {
                        None
                    } else {
                        let crafted_kits = spec_u16_from_le_bytes(p.subrange(o2, o2 + 2));
                        let vitals = PlayerVitals {
                            health: spec_u32_from_le_bytes(p.subrange(o2 + 2, o2 + 6)),
                            stamina: spec_u32_from_le_bytes(p.subrange(o2 + 6, o2 + 10)),
                            hunger: spec_u32_from_le_bytes(p.subrange(o2 + 10, o2 + 14)),
                        };
                        match spec_section::<EnemySnapshot>(p, o2 + 14) {
                            None => None,
                            Some((enemies, o3)) => {
                                let rest = if p.len() >= o3 + 4 && p[o3] == BUILDING_MAGIC_FIRST
                                    && p[o3 + 1] == BUILDING_MAGIC_SECOND {
                                    spec_section::<BuildingSnapshot>(p, o3 + 2)
                                } else {
                                    Some((Seq::<BuildingSnapshot>::empty(), o3))
                                };
                                match rest {
                                    None => None,
                                    Some((buildings, o4)) => {
                                        if (p.len() - o4) % 16 != 0 {
                                            None
                                        } else {
                                            match spec_parse_records::<PlayerSnapshot>(
                                                p.subrange(o4, p.len() as int),
                                                ((p.len() - o4) / 16) as nat,
                                            ) {
                                                None => None,
                                                Some(snapshots) => Some(
                                                    ServerMessageView {
                                                        sequence,
                                                        player_id,
                                                        snapshots,
                                                        resources,
                                                        inventory,
                                                        crafted_kits,
                                                        vitals,
                                                        enemies,
                                                        buildings,
                                                    },
                                                ),
                                            }
                                        }
                                    },
                                }
                            },
                        }
                    }
                },
            },
        }
    }
}

/// The state that a packet stands for, or why it stands for none.
pub open spec fn spec_decode_server(bytes: Seq<u8>) -> Result<ServerMessageView, DecodeError> {
    match spec_open_envelope(bytes) {
        Err(e) => Err(e),
        Ok((t, s, p)) => {
            if t != MessageType::ServerSnapshot {
                Err(DecodeError::UnknownMessageType(t.spec_code()))
            } else {
                match spec_decode_server_payload(s, p) {
                    Some(m) => Ok(m),
                    None => Err(DecodeError::InvalidPayload),
                }
            }
        },
    }
}

pub open spec fn spec_state(
    sequence: u32,
    player_id: PlayerId,
    snapshots: Seq<PlayerSnapshot>,
    resources: Seq<ResourceSnapshot>,
    inventory: Seq<InventoryStack>,
    crafted_kits: u16,
    vitals: PlayerVitals,
    enemies: Seq<EnemySnapshot>,
    buildings: Seq<BuildingSnapshot>,
) -> ServerMessageView {
    ServerMessageView {
        sequence,
        player_id,
        snapshots,
        resources,
        inventory,
        crafted_kits,
        vitals,
        enemies,
        buildings,
    }
}

/// Encodes the full state. The payload must fit the 16-bit length field.
pub fn encode_server_state_with_buildings(
    sequence: u32,
    player_id: PlayerId,
    snapshots: &[PlayerSnapshot],
    resources: &[ResourceSnapshot],
    inventory: &[InventoryStack],
    crafted_kits: u16,
    vitals: PlayerVitals,
    enemies: &[EnemySnapshot],
    buildings: &[BuildingSnapshot],
) -> (r: Vec<u8>)
    requires
        spec_server_payload_len(
            spec_state(
                sequence,
                player_id,
                snapshots@,
                resources@,
                inventory@,
                crafted_kits,
                vitals,
                enemies@,
                buildings@,
            ),
        ) <= u16::MAX,
    ensures
        r@ == spec_encode_server(
            spec_state(
                sequence,
                player_id,
                snapshots@,
                resources@,
                inventory@,
                crafted_kits,
                vitals,
                enemies@,
                buildings@,
            ),
        ),
{
    let ghost m = spec_state(
        sequence,
        player_id,
        snapshots@,
        resources@,
        inventory@,
        crafted_kits,
        vitals,
        enemies@,
        buildings@,
    );
    proof {
        lemma_server_payload_len(m);
    }
    let mut payload: Vec<u8> = Vec::new();
    put_u64(&mut payload, player_id);
    append_section(&mut payload, resources);
    append_section(&mut payload, inventory);
    put_u16(&mut payload, crafted_kits);
    put_u32(&mut payload, vitals.health);
    put_u32(&mut payload, vitals.stamina);
    put_u32(&mut payload, vitals.hunger);
    append_section(&mut payload, enemies);
    payload.push(BUILDING_MAGIC_FIRST);
    payload.push(BUILDING_MAGIC_SECOND);
    append_section(&mut payload, buildings);
    append_records(&mut payload, snapshots);
    assert(payload@ =~= spec_server_payload(m));
    encode_message(MessageType::ServerSnapshot, sequence, payload.as_slice())
}

/// Encodes a state with no enemies or buildings.
pub fn encode_server_state_with_crafting_and_vitals(
    sequence: u32,
    player_id: PlayerId,
    snapshots: &[PlayerSnapshot],
    resources: &[ResourceSnapshot],
    inventory: &[InventoryStack],
    crafted_kits: u16,
    vitals: PlayerVitals,
    enemies: &[EnemySnapshot],
) -> (r: Vec<u8>)
    requires
        spec_server_payload_len(
            spec_state(
                sequence,
                player_id,
                snapshots@,
                resources@,
                inventory@,
                crafted_kits,
                vitals,
                enemies@,
                Seq::empty(),
            ),
        ) <= u16::MAX,
    ensures
        r@ == spec_encode_server(
            spec_state(
                sequence,
                player_id,
                snapshots@,
                resources@,
                inventory@,
                crafted_kits,
                vitals,
                enemies@,
                Seq::empty(),
            ),
        ),
{
    let no_buildings: Vec<BuildingSnapshot> = Vec::new();
    assert(no_buildings@ =~= Seq::<BuildingSnapshot>::empty());
    encode_server_state_with_buildings(
        sequence,
        player_id,
        snapshots,
        resources,
        inventory,
        crafted_kits,
        vitals,
        enemies,
        no_buildings.as_slice(),
    )
}

/// Encodes a state with full vitals and no enemies or buildings.
pub fn encode_server_state_with_crafting(
    sequence: u32,
    player_id: PlayerId,
    snapshots: &[PlayerSnapshot],
    resources: &[ResourceSnapshot],
    inventory: &[InventoryStack],
    crafted_kits: u16,
) -> (r: Vec<u8>)
    requires
        spec_server_payload_len(
            spec_state(
                sequence,
                player_id,
                snapshots@,
                resources@,
                inventory@,
                crafted_kits,
                PlayerVitals::spec_default(),
                Seq::empty(),
                Seq::empty(),
            ),
        ) <= u16::MAX,
    ensures
        r@ == spec_encode_server(
            spec_state(
                sequence,
                player_id,
                snapshots@,
                resources@,
                inventory@,
                crafted_kits,
                PlayerVitals::spec_default(),
                Seq::empty(),
                Seq::empty(),
            ),
        ),
{
    let no_enemies: Vec<EnemySnapshot> = Vec::new();
    assert(no_enemies@ =~= Seq::<EnemySnapshot>::empty());
    encode_server_state_with_crafting_and_vitals(
        sequence,
        player_id,
        snapshots,
        resources,
        inventory,
        crafted_kits,
        PlayerVitals::default(),
        no_enemies.as_slice(),
    )
}

/// Encodes players, resources and inventory, with no crafted kits.
pub fn encode_server_state(
    sequence: u32,
    player_id: PlayerId,
    snapshots: &[PlayerSnapshot],
    resources: &[ResourceSnapshot],
    inventory: &[InventoryStack],
) -> (r: Vec<u8>)
    requires
        spec_server_payload_len(
            spec_state(
                sequence,
                player_id,
                snapshots@,
                resources@,
                inventory@,
                0,
                PlayerVitals::spec_default(),
                Seq::empty(),
                Seq::empty(),
            ),
        ) <= u16::MAX,
    ensures
        r@ == spec_encode_server(
            spec_state(
                sequence,
                player_id,
                snapshots@,
                resources@,
                inventory@,
                0,
                PlayerVitals::spec_default(),
                Seq::empty(),
                Seq::empty(),
            ),
        ),
{
    encode_server_state_with_crafting(sequence, player_id, snapshots, resources, inventory, 0)
}

/// Encodes the players alone.
pub fn encode_server_snapshot(sequence: u32, player_id: PlayerId, snapshots: &[PlayerSnapshot]) -> (r:
    Vec<u8>)
    requires
        spec_server_payload_len(
            spec_state(
                sequence,
                player_id,
                snapshots@,
                Seq::empty(),
                Seq::empty(),
                0,
                PlayerVitals::spec_default(),
                Seq::empty(),
                Seq::empty(),
            ),
        ) <= u16::MAX,
    ensures
        r@ == spec_encode_server(
            spec_state(
                sequence,
                player_id,
                snapshots@,
                Seq::empty(),
                Seq::empty(),
                0,
                PlayerVitals::spec_default(),
                Seq::empty(),
                Seq::empty(),
            ),
        ),
{
    let no_resources: Vec<ResourceSnapshot> = Vec::new();
    let no_inventory: Vec<InventoryStack> = Vec::new();
    assert(no_resources@ =~= Seq::<ResourceSnapshot>::empty());
    assert(no_inventory@ =~= Seq::<InventoryStack>::empty());
    encode_server_state(
        sequence,
        player_id,
        snapshots,
        no_resources.as_slice(),
        no_inventory.as_slice(),
    )
}

pub fn decode_server_message(bytes: &[u8]) -> (r: Result<ServerMessage, DecodeError>)
    ensures
        match spec_decode_server(bytes@) {
            Ok(m) => r matches Ok(d) && d@ == m,
            Err(e) => r matches Err(e2) && e2 == e,
        },
{
    let (message_type, sequence, payload) = match decode_message(bytes) {
        Ok(opened) => opened,
        Err(e) => {
            return Err(e);
        },
    };
    if message_type != MessageType::ServerSnapshot {
        return Err(DecodeError::UnknownMessageType(message_type.code()));
    }
    let len = payload.len();
    if len < 12 {
        return Err(DecodeError::InvalidPayload);
    }
    let player_id = get_u64(payload, 0);
    let (resources, o1) = match decode_section::<ResourceSnapshot>(payload, 8) {
        Some(section) => section,
        None => {
            return Err(DecodeError::InvalidPayload);
        },
    };
    let (inventory, o2) = match decode_section::<InventoryStack>(payload, o1) {
        Some(section) => section,
        None => {
            return Err(DecodeError::InvalidPayload);
        },
    };
    if len - o2 < 14 {
        return Err(DecodeError::InvalidPayload);
    }
    let crafted_kits = get_u16(payload, o2);
    let vitals = PlayerVitals {
        health: get_u32(payload, o2 + 2),
        stamina: get_u32(payload, o2 + 6),
        hunger: get_u32(payload, o2 + 10),
    };
    let (enemies, o3) = match decode_section::<EnemySnapshot>(payload, o2 + 14) {
        Some(section) => section,
        None => {
            return Err(DecodeError::InvalidPayload);
        },
    };
    let (buildings, o4) = if len - o3 >= 4 && payload[o3] == BUILDING_MAGIC_FIRST && payload[o3
        + 1] == BUILDING_MAGIC_SECOND {
        match decode_section::<BuildingSnapshot>(payload, o3 + 2) {
            Some(section) => section,
            None => {
                return Err(DecodeError::InvalidPayload);
            },
        }
    } else {
        let none: Vec<BuildingSnapshot> = Vec::new();
        assert(none@ =~= Seq::<BuildingSnapshot>::empty());
        (none, o3)
    };
    let remaining = len - o4;
    if remaining % 16 != 0 {
        return Err(DecodeError::InvalidPayload);
    }
    let snapshots = match decode_records::<PlayerSnapshot>(&payload[o4..len], remaining / 16) {
        Some(items) => items,
        None => {
            return Err(DecodeError::InvalidPayload);
        },
    };
    let message = ServerMessage {
        sequence,
        player_id,
        snapshots,
        resources,
        inventory,
        crafted_kits,
        vitals,
        enemies,
        buildings,
    };
    Ok(message)
}

pub proof fn lemma_server_payload_len(m: ServerMessageView)
    ensures
        spec_server_payload(m).len() == spec_server_payload_len(m),
{
    lemma_le_codecs();
    lemma_records_bytes_len(m.resources);
    lemma_records_bytes_len(m.inventory);
    lemma_records_bytes_len(m.enemies);
    lemma_records_bytes_len(m.buildings);
    lemma_records_bytes_len(m.snapshots);
    assert(spec_records_bytes(m.resources).len() == m.resources.len() * 15);
    assert(spec_section_bytes(m.resources).len() == 2 + m.resources.len() * 15);
    assert(spec_section_bytes(m.inventory).len() == 2 + m.inventory.len() * 3);
    assert(spec_section_bytes(m.enemies).len() == 2 + m.enemies.len() * 16);
    assert(spec_section_bytes(m.buildings).len() == 2 + m.buildings.len() * 21);
    assert(spec_records_bytes(m.snapshots).len() == m.snapshots.len() * 16);
    assert(spec_vitals_bytes(m.vitals).len() == 12);
}

/// Where each part of a state's payload starts.
pub open spec fn spec_offsets(m: ServerMessageView) -> (int, int, int, int) {
    let o1 = 8 + spec_section_bytes(m.resources).len();
    let o2 = o1 + spec_section_bytes(m.inventory).len();
    let o3 = o2 + 14 + spec_section_bytes(m.enemies).len();
    let o4 = o3 + 2 + spec_section_bytes(m.buildings).len();
    (o1 as int, o2 as int, o3 as int, o4 as int)
}

proof fn lemma_payload_resources(m: ServerMessageView)
    requires
        m.resources.len() <= u16::MAX,
    ensures
        spec_section::<ResourceSnapshot>(spec_server_payload(m), 8) == Some(
            (m.resources, spec_offsets(m).0),
        ),
        spec_server_payload(m).subrange(0, 8) == spec_u64_to_le_bytes(m.player_id),
{
    lemma_le_codecs();
    let head = spec_u64_to_le_bytes(m.player_id);
    let rest = spec_section_bytes(m.inventory) + spec_u16_to_le_bytes(m.crafted_kits)
        + spec_vitals_bytes(m.vitals) + spec_section_bytes(m.enemies) + seq![
        BUILDING_MAGIC_FIRST,
        BUILDING_MAGIC_SECOND,
    ] + spec_section_bytes(m.buildings) + spec_records_bytes(m.snapshots);
    lemma_section_round_trip(head, m.resources, rest);
    assert(spec_server_payload(m) =~= head + spec_section_bytes(m.resources) + rest);
}

proof fn lemma_payload_inventory(m: ServerMessageView)
    requires
        m.inventory.len() <= u16::MAX,
    ensures
        spec_section::<InventoryStack>(spec_server_payload(m), spec_offsets(m).0) == Some(
            (m.inventory, spec_offsets(m).1),
        ),
{
    lemma_le_codecs();
    let pre = spec_u64_to_le_bytes(m.player_id) + spec_section_bytes(m.resources);
    let rest = spec_u16_to_le_bytes(m.crafted_kits) + spec_vitals_bytes(m.vitals)
        + spec_section_bytes(m.enemies) + seq![BUILDING_MAGIC_FIRST, BUILDING_MAGIC_SECOND]
        + spec_section_bytes(m.buildings) + spec_records_bytes(m.snapshots);
    lemma_section_round_trip(pre, m.inventory, rest);
    assert(spec_server_payload(m) =~= pre + spec_section_bytes(m.inventory) + rest);
}

proof fn lemma_payload_kits_and_vitals(m: ServerMessageView)
    ensures
        ({
            let p = spec_server_payload(m);
            let o2 = spec_offsets(m).1;
            &&& o2 + 14 <= p.len()
            &&& spec_u16_from_le_bytes(p.subrange(o2, o2 + 2)) == m.crafted_kits
            &&& spec_u32_from_le_bytes(p.subrange(o2 + 2, o2 + 6)) == m.vitals.health
            &&& spec_u32_from_le_bytes(p.subrange(o2 + 6, o2 + 10)) == m.vitals.stamina
            &&& spec_u32_from_le_bytes(p.subrange(o2 + 10, o2 + 14)) == m.vitals.hunger
        }),
{
    lemma_le_codecs();
    let pre = spec_u64_to_le_bytes(m.player_id) + spec_section_bytes(m.resources)
        + spec_section_bytes(m.inventory);
    let kits = spec_u16_to_le_bytes(m.crafted_kits);
    let h = spec_u32_to_le_bytes(m.vitals.health);
    let st = spec_u32_to_le_bytes(m.vitals.stamina);
    let hu = spec_u32_to_le_bytes(m.vitals.hunger);
    let rest = spec_section_bytes(m.enemies) + seq![BUILDING_MAGIC_FIRST, BUILDING_MAGIC_SECOND]
        + spec_section_bytes(m.buildings) + spec_records_bytes(m.snapshots);
    let p = spec_server_payload(m);
    assert(p =~= pre + (kits + h + st + hu) + rest);
    let o2 = spec_offsets(m).1;
    assert(o2 == pre.len());
    assert(p.subrange(o2, o2 + 2) =~= kits);
    assert(p.subrange(o2 + 2, o2 + 6) =~= h);
    assert(p.subrange(o2 + 6, o2 + 10) =~= st);
    assert(p.subrange(o2 + 10, o2 + 14) =~= hu);
}

proof fn lemma_payload_enemies(m: ServerMessageView)
    requires
        m.enemies.len() <= u16::MAX,
    ensures
        spec_section::<EnemySnapshot>(spec_server_payload(m), spec_offsets(m).1 + 14) == Some(
            (m.enemies, spec_offsets(m).2),
        ),
{
    lemma_le_codecs();
    let pre = spec_u64_to_le_bytes(m.player_id) + spec_section_bytes(m.resources)
        + spec_section_bytes(m.inventory) + spec_u16_to_le_bytes(m.crafted_kits)
        + spec_vitals_bytes(m.vitals);
    let rest = seq![BUILDING_MAGIC_FIRST, BUILDING_MAGIC_SECOND] + spec_section_bytes(m.buildings)
        + spec_records_bytes(m.snapshots);
    lemma_section_round_trip(pre, m.enemies, rest);
    assert(spec_server_payload(m) =~= pre + spec_section_bytes(m.enemies) + rest);
}

proof fn lemma_payload_buildings(m: ServerMessageView)
    requires
        m.buildings.len() <= u16::MAX,
    ensures
        ({
            let p = spec_server_payload(m);
            let o3 = spec_offsets(m).2;
            &&& p.len() >= o3 + 4
            &&& p[o3] == BUILDING_MAGIC_FIRST
            &&& p[o3 + 1] == BUILDING_MAGIC_SECOND
            &&& spec_section::<BuildingSnapshot>(p, o3 + 2) == Some(
                (m.buildings, spec_offsets(m).3),
            )
        }),
{
    lemma_le_codecs();
    let pre = spec_u64_to_le_bytes(m.player_id) + spec_section_bytes(m.resources)
        + spec_section_bytes(m.inventory) + spec_u16_to_le_bytes(m.crafted_kits)
        + spec_vitals_bytes(m.vitals) + spec_section_bytes(m.enemies) + seq![
        BUILDING_MAGIC_FIRST,
        BUILDING_MAGIC_SECOND,
    ];
    let rest = spec_records_bytes(m.snapshots);
    lemma_section_round_trip(pre, m.buildings, rest);
    assert(spec_server_payload(m) =~= pre + spec_section_bytes(m.buildings) + rest);
}

proof fn lemma_payload_snapshots(m: ServerMessageView)
    ensures
        ({
            let p = spec_server_payload(m);
            let o4 = spec_offsets(m).3;
            &&& o4 <= p.len()
            &&& p.len() - o4 == 16 * m.snapshots.len()
            &&& p.subrange(o4, p.len() as int) == spec_records_bytes(m.snapshots)
        }),
{
    lemma_le_codecs();
    lemma_records_bytes_len(m.snapshots);
    let pre = spec_u64_to_le_bytes(m.player_id) + spec_section_bytes(m.resources)
        + spec_section_bytes(m.inventory) + spec_u16_to_le_bytes(m.crafted_kits)
        + spec_vitals_bytes(m.vitals) + spec_section_bytes(m.enemies) + seq![
        BUILDING_MAGIC_FIRST,
        BUILDING_MAGIC_SECOND,
    ] + spec_section_bytes(m.buildings);
    let p = spec_server_payload(m);
    assert(p == pre + spec_records_bytes(m.snapshots));
    assert(pre.len() == spec_offsets(m).3);
    assert(p.subrange(pre.len() as int, p.len() as int) =~= spec_records_bytes(m.snapshots));
}

/// Every state whose payload fits the length field decodes to itself.
#[verifier::spinoff_prover]
#[verifier::rlimit(30)]
pub proof fn lemma_server_round_trip(m: ServerMessageView)
    requires
        spec_server_payload_len(m) <= u16::MAX,
    ensures
        spec_decode_server(spec_encode_server(m)) == Ok::<ServerMessageView, DecodeError>(m),
{
    lemma_server_payload_len(m);
    let p = spec_server_payload(m);
    lemma_envelope_round_trip(MessageType::ServerSnapshot, m.sequence, p);
    lemma_payload_resources(m);
    lemma_payload_inventory(m);
    lemma_payload_kits_and_vitals(m);
    lemma_payload_enemies(m);
    lemma_payload_buildings(m);
    lemma_payload_snapshots(m);
    lemma_records_round_trip(m.snapshots);
    let o4 = spec_offsets(m).3;
    assert((p.len() - o4) % 16 == 0);
    assert((p.len() - o4) / 16 == m.snapshots.len());
    assert(p.len() >= 12);
    let (o1, o2, o3, _) = spec_offsets(m);
    assert(spec_section::<ResourceSnapshot>(p, 8) == Some((m.resources, o1)));
    assert(spec_section::<InventoryStack>(p, o1) == Some((m.inventory, o2)));
    assert(spec_section::<EnemySnapshot>(p, o2 + 14) == Some((m.enemies, o3)));
    assert(spec_parse_records::<PlayerSnapshot>(p.subrange(o4, p.len() as int), ((p.len() - o4) / 16) as nat) == Some(m.snapshots));
    assert(spec_section::<BuildingSnapshot>(p, o3 + 2) == Some((m.buildings, o4)));
    assert(p[o3] == BUILDING_MAGIC_FIRST && p[o3 + 1] == BUILDING_MAGIC_SECOND);
    assert(spec_u64_from_le_bytes(p.subrange(0, 8)) == m.player_id) by {
        lemma_le_codecs();
    }
    let v = ServerMessageView {
        sequence: m.sequence,
        player_id: m.player_id,
        snapshots: m.snapshots,
        resources: m.resources,
        inventory: m.inventory,
        crafted_kits: m.crafted_kits,
        vitals: m.vitals,
        enemies: m.enemies,
        buildings: m.buildings,
    };
    assert(v == m);
    assert(spec_decode_server_payload(m.sequence, p) == Some(v));
}

} // verus!
