use frontier::{
    decode_client_message, decode_message, decode_server_message, encode_client_attack,
    encode_client_authenticate, encode_client_build, encode_client_consume, encode_client_craft,
    encode_client_input, encode_client_interact, encode_message, encode_server_snapshot,
    encode_server_state, encode_server_state_with_buildings, encode_server_state_with_crafting,
    encode_server_state_with_crafting_and_vitals, BuildingKind, BuildingSnapshot, ClientMessage,
    CraftRecipe, DecodeError, EnemySnapshot, InventoryStack, MessageType, PlayerInput,
    PlayerSnapshot, PlayerVitals, ResourceKind, ResourceSnapshot, PROTOCOL_VERSION,
};

#[test]
fn client_input_round_trips_through_versioned_envelope() {
    let input = PlayerInput {
        move_x: -1,
        move_y: 1,
    };
    let packet = encode_client_input(42, input);
    let decoded = decode_client_message(&packet).expect("valid client packet");

    assert_eq!(
        decoded,
        ClientMessage::Input {
            sequence: 42,
            input,
        }
    );
}

#[test]
fn player_input_rejects_values_outside_direction_range() {
    assert!(PlayerInput {
        move_x: 1,
        move_y: -1
    }
    .is_valid());
    assert!(!PlayerInput {
        move_x: 2,
        move_y: 0
    }
    .is_valid());
}

#[test]
fn client_authentication_round_trips_through_versioned_envelope() {
    let packet = encode_client_authenticate(43, "session-token");
    let decoded = decode_client_message(&packet).expect("valid auth packet");

    assert_eq!(
        decoded,
        ClientMessage::Authenticate {
            sequence: 43,
            token: "session-token".to_owned(),
        }
    );
}

#[test]
fn client_interaction_round_trips_through_versioned_envelope() {
    let packet = encode_client_interact(44, 9);
    let decoded = decode_client_message(&packet).expect("valid interaction packet");

    assert_eq!(
        decoded,
        ClientMessage::Interact {
            sequence: 44,
            resource_id: 9,
        }
    );
}

#[test]
fn client_crafting_round_trips_through_versioned_envelope() {
    let packet = encode_client_craft(45, CraftRecipe::CampKit);
    let decoded = decode_client_message(&packet).expect("valid crafting packet");

    assert_eq!(
        decoded,
        ClientMessage::Craft {
            sequence: 45,
            recipe: CraftRecipe::CampKit,
        }
    );
}

#[test]
fn client_consume_round_trips_through_versioned_envelope() {
    let packet = encode_client_consume(46, ResourceKind::Berries);
    let decoded = decode_client_message(&packet).expect("valid consume packet");

    assert_eq!(
        decoded,
        ClientMessage::Consume {
            sequence: 46,
            kind: ResourceKind::Berries,
        }
    );
}

#[test]
fn client_build_round_trips_through_versioned_envelope() {
    let packet = encode_client_build(
        47,
        BuildingKind::Campfire,
        320.0f32.to_bits(),
        448.0f32.to_bits(),
    );
    let decoded = decode_client_message(&packet).expect("valid build packet");

    assert_eq!(
        decoded,
        ClientMessage::Build {
            sequence: 47,
            kind: BuildingKind::Campfire,
            x: 320.0f32.to_bits(),
            y: 448.0f32.to_bits(),
        }
    );
}

#[test]
fn server_state_round_trips_resources_and_inventory() {
    let resource = ResourceSnapshot {
        resource_id: 3,
        kind: ResourceKind::Stone,
        x: 30.0f32.to_bits(),
        y: 40.0f32.to_bits(),
        remaining: 5,
    };
    let inventory = InventoryStack {
        kind: ResourceKind::Wood,
        quantity: 2,
    };
    let packet = encode_server_state(12, 4, &[], &[resource], &[inventory]);
    let decoded = decode_server_message(&packet).expect("valid server state packet");

    assert_eq!(decoded.resources, vec![resource]);
    assert_eq!(decoded.inventory, vec![inventory]);
}

#[test]
fn server_snapshot_round_trips_through_versioned_envelope() {
    let snapshot = PlayerSnapshot {
        player_id: 7,
        x: 12.5f32.to_bits(),
        y: 18.25f32.to_bits(),
    };
    let packet = encode_server_snapshot(99, 7, &[snapshot]);
    let decoded = decode_server_message(&packet).expect("valid server packet");

    assert_eq!(decoded.sequence, 99);
    assert_eq!(decoded.player_id, 7);
    assert_eq!(decoded.snapshots, vec![snapshot]);
}

#[test]
fn server_snapshot_can_contain_multiple_players() {
    let snapshots = vec![
        PlayerSnapshot {
            player_id: 1,
            x: 12.5f32.to_bits(),
            y: 18.25f32.to_bits(),
        },
        PlayerSnapshot {
            player_id: 2,
            x: 40.0f32.to_bits(),
            y: 50.0f32.to_bits(),
        },
    ];
    let packet = encode_server_snapshot(99, 1, &snapshots);
    let decoded = decode_server_message(&packet).expect("valid world snapshot");

    assert_eq!(decoded.player_id, 1);
    assert_eq!(decoded.snapshots, snapshots);
}

#[test]
fn server_state_round_trips_buildings() {
    let building = BuildingSnapshot {
        building_id: 4,
        kind: BuildingKind::Storage,
        owner_id: 7,
        x: 320.0f32.to_bits(),
        y: 448.0f32.to_bits(),
    };
    let packet = encode_server_state_with_buildings(
        99,
        7,
        &[],
        &[],
        &[],
        0,
        PlayerVitals::default(),
        &[],
        &[building],
    );
    let decoded = decode_server_message(&packet).expect("valid building state packet");

    assert_eq!(decoded.buildings, vec![building]);
}

#[test]
fn decoder_rejects_wrong_version_and_trailing_bytes() {
    let mut packet = encode_client_input(1, PlayerInput::default());
    packet[2] = PROTOCOL_VERSION + 1;
    assert_eq!(
        decode_client_message(&packet),
        Err(DecodeError::UnsupportedVersion(PROTOCOL_VERSION + 1))
    );

    let mut packet = encode_client_input(1, PlayerInput::default());
    packet.push(0);
    assert_eq!(
        decode_client_message(&packet),
        Err(DecodeError::InvalidPayloadLength)
    );
}

#[test]
fn envelope_has_documented_layout() {
    let packet = encode_message(MessageType::ClientInteract, 0x0403_0201, &[9, 8, 7]);
    assert_eq!(
        packet,
        vec![b'F', b'E', 2, 4, 0x01, 0x02, 0x03, 0x04, 3, 0, 9, 8, 7]
    );
    let (message_type, sequence, payload) = decode_message(&packet).expect("valid envelope");
    assert_eq!(message_type, MessageType::ClientInteract);
    assert_eq!(sequence, 0x0403_0201);
    assert_eq!(payload, &[9, 8, 7]);
}

#[test]
fn decoder_reports_each_envelope_error() {
    assert_eq!(
        decode_client_message(&[b'F', b'E', 2]),
        Err(DecodeError::TooShort)
    );
    let mut packet = encode_client_attack(5);
    packet[0] = b'X';
    assert_eq!(decode_client_message(&packet), Err(DecodeError::InvalidMagic));
    let mut packet = encode_client_attack(5);
    packet[3] = 99;
    assert_eq!(
        decode_client_message(&packet),
        Err(DecodeError::UnknownMessageType(99))
    );
    let mut packet = encode_client_attack(5);
    packet.pop();
    packet.pop();
    assert_eq!(decode_client_message(&packet), Err(DecodeError::TooShort));
    let mut packet = encode_client_interact(5, 1);
    packet.pop();
    assert_eq!(
        decode_client_message(&packet),
        Err(DecodeError::InvalidPayloadLength)
    );
}

#[test]
fn client_decoder_rejects_bad_payloads() {
    // A server packet is not a client command.
    let server_packet = encode_server_snapshot(1, 1, &[]);
    assert_eq!(
        decode_client_message(&server_packet),
        Err(DecodeError::UnknownMessageType(2))
    );
    // Wrong payload sizes.
    let packet = encode_message(MessageType::ClientInput, 1, &[1]);
    assert_eq!(decode_client_message(&packet), Err(DecodeError::InvalidPayload));
    let packet = encode_message(MessageType::ClientAttack, 1, &[1]);
    assert_eq!(decode_client_message(&packet), Err(DecodeError::InvalidPayload));
    let packet = encode_message(MessageType::ClientInteract, 1, &[1, 2, 3]);
    assert_eq!(decode_client_message(&packet), Err(DecodeError::InvalidPayload));
    // Unknown codes inside payloads.
    let packet = encode_message(MessageType::ClientCraft, 1, &[2]);
    assert_eq!(decode_client_message(&packet), Err(DecodeError::InvalidPayload));
    let packet = encode_message(MessageType::ClientConsume, 1, &[0]);
    assert_eq!(decode_client_message(&packet), Err(DecodeError::InvalidPayload));
    let packet = encode_message(MessageType::ClientBuild, 1, &[9, 0, 0, 0, 0, 0, 0, 0, 0]);
    assert_eq!(decode_client_message(&packet), Err(DecodeError::InvalidPayload));
    // Authentication needs a non-empty UTF-8 token.
    let packet = encode_message(MessageType::ClientAuthenticate, 1, &[]);
    assert_eq!(decode_client_message(&packet), Err(DecodeError::InvalidPayload));
    let packet = encode_message(MessageType::ClientAuthenticate, 1, &[0xff, 0xfe]);
    assert_eq!(decode_client_message(&packet), Err(DecodeError::InvalidPayload));
}

#[test]
fn client_attack_and_unicode_token_round_trip() {
    let packet = encode_client_attack(7);
    assert_eq!(packet.len(), 10);
    assert_eq!(
        decode_client_message(&packet),
        Ok(ClientMessage::Attack { sequence: 7 })
    );
    let packet = encode_client_authenticate(8, "jeton-é");
    assert_eq!(
        decode_client_message(&packet),
        Ok(ClientMessage::Authenticate {
            sequence: 8,
            token: "jeton-é".to_owned(),
        })
    );
}

#[test]
fn player_input_round_trips_every_value() {
    for x in i8::MIN..=i8::MAX {
        let input = PlayerInput {
            move_x: x,
            move_y: x.wrapping_neg(),
        };
        assert_eq!(PlayerInput::decode(&input.encode()), Some(input));
    }
    assert_eq!(PlayerInput::decode(&[1]), None);
    assert_eq!(
        PlayerInput {
            move_x: -1,
            move_y: 2
        }
        .encode(),
        [0xff, 2]
    );
}

#[test]
fn player_snapshot_encoding_is_little_endian() {
    let snapshot = PlayerSnapshot {
        player_id: 0x0102_0304_0506_0708,
        x: 1.0f32.to_bits(),
        y: 0,
    };
    let bytes = snapshot.encode();
    assert_eq!(&bytes[0..8], &[8, 7, 6, 5, 4, 3, 2, 1]);
    assert_eq!(&bytes[8..12], &1.0f32.to_le_bytes());
    assert_eq!(PlayerSnapshot::decode(&bytes), Some(snapshot));
    assert_eq!(PlayerSnapshot::decode(&bytes[1..]), None);
}

#[test]
fn records_encode_and_decode() {
    let mut bytes = Vec::new();
    let stack = InventoryStack {
        kind: ResourceKind::Berries,
        quantity: 0x0102,
    };
    stack.encode(&mut bytes);
    assert_eq!(bytes, vec![3, 2, 1]);
    assert_eq!(InventoryStack::decode(&bytes), Some(stack));
    assert_eq!(InventoryStack::decode(&[4, 2, 1]), None);

    let enemy = EnemySnapshot {
        enemy_id: 5,
        x: 1.5f32.to_bits(),
        y: 2.5f32.to_bits(),
        health: 30.0f32.to_bits(),
    };
    let mut bytes = Vec::new();
    enemy.encode(&mut bytes);
    assert_eq!(bytes.len(), EnemySnapshot::BYTE_LEN);
    assert_eq!(EnemySnapshot::decode(&bytes), Some(enemy));

    let building = BuildingSnapshot {
        building_id: 9,
        kind: BuildingKind::Wall,
        owner_id: 3,
        x: 0,
        y: 1,
    };
    let mut bytes = Vec::new();
    building.encode(&mut bytes);
    assert_eq!(bytes.len(), BuildingSnapshot::BYTE_LEN);
    assert_eq!(bytes[4], 1);
    assert_eq!(BuildingSnapshot::decode(&bytes), Some(building));

    let resource = ResourceSnapshot {
        resource_id: 2,
        kind: ResourceKind::Wood,
        x: 3,
        y: 4,
        remaining: 5,
    };
    let mut bytes = Vec::new();
    resource.encode(&mut bytes);
    assert_eq!(bytes.len(), ResourceSnapshot::BYTE_LEN);
    assert_eq!(ResourceSnapshot::decode(&bytes), Some(resource));
}

#[test]
fn kind_codes_match_the_protocol() {
    assert_eq!(BuildingKind::Campfire.code(), 4);
    assert_eq!(BuildingKind::try_from(2), Ok(BuildingKind::Floor));
    assert_eq!(BuildingKind::try_from(0), Err(DecodeError::InvalidPayload));
    assert_eq!(ResourceKind::try_from(3), Ok(ResourceKind::Berries));
    assert_eq!(ResourceKind::try_from(4), Err(DecodeError::InvalidPayload));
    assert_eq!(CraftRecipe::try_from(1), Ok(CraftRecipe::CampKit));
    assert_eq!(MessageType::try_from(8), Ok(MessageType::ClientBuild));
    assert_eq!(
        MessageType::try_from(9),
        Err(DecodeError::UnknownMessageType(9))
    );
}

#[test]
fn full_server_state_round_trips() {
    let snapshots = [PlayerSnapshot {
        player_id: 3,
        x: 1,
        y: 2,
    }];
    let resources = [ResourceSnapshot {
        resource_id: 1,
        kind: ResourceKind::Berries,
        x: 5,
        y: 6,
        remaining: 7,
    }];
    let inventory = [
        InventoryStack {
            kind: ResourceKind::Wood,
            quantity: 3,
        },
        InventoryStack {
            kind: ResourceKind::Stone,
            quantity: 2,
        },
    ];
    let vitals = PlayerVitals {
        health: 50.0f32.to_bits(),
        stamina: 75.0f32.to_bits(),
        hunger: 25.0f32.to_bits(),
    };
    let enemies = [EnemySnapshot {
        enemy_id: 8,
        x: 1,
        y: 1,
        health: 2,
    }];
    let buildings = [BuildingSnapshot {
        building_id: 2,
        kind: BuildingKind::Floor,
        owner_id: 3,
        x: 4,
        y: 5,
    }];
    let packet = encode_server_state_with_buildings(
        77,
        3,
        &snapshots,
        &resources,
        &inventory,
        4,
        vitals,
        &enemies,
        &buildings,
    );
    let decoded = decode_server_message(&packet).expect("valid full state");
    assert_eq!(decoded.sequence, 77);
    assert_eq!(decoded.player_id, 3);
    assert_eq!(decoded.snapshots, snapshots.to_vec());
    assert_eq!(decoded.resources, resources.to_vec());
    assert_eq!(decoded.inventory, inventory.to_vec());
    assert_eq!(decoded.crafted_kits, 4);
    assert_eq!(decoded.vitals, vitals);
    assert_eq!(decoded.enemies, enemies.to_vec());
    assert_eq!(decoded.buildings, buildings.to_vec());
}

#[test]
fn shorter_encoders_fill_in_defaults() {
    let packet = encode_server_state_with_crafting(1, 2, &[], &[], &[], 6);
    let decoded = decode_server_message(&packet).expect("valid state");
    assert_eq!(decoded.crafted_kits, 6);
    assert_eq!(decoded.vitals, PlayerVitals::default());
    assert_eq!(decoded.vitals.health, 100.0f32.to_bits());
    assert!(decoded.enemies.is_empty());
    assert!(decoded.buildings.is_empty());

    let enemy = EnemySnapshot {
        enemy_id: 1,
        x: 2,
        y: 3,
        health: 4,
    };
    let vitals = PlayerVitals {
        health: 1,
        stamina: 2,
        hunger: 3,
    };
    let packet = encode_server_state_with_crafting_and_vitals(1, 2, &[], &[], &[], 0, vitals, &[enemy]);
    let decoded = decode_server_message(&packet).expect("valid state");
    assert_eq!(decoded.vitals, vitals);
    assert_eq!(decoded.enemies, vec![enemy]);

    // 10-byte header, then player id, four counts, kits, vitals and the marker.
    let packet = encode_server_snapshot(1, 2, &[]);
    assert_eq!(packet.len(), 10 + 32);
}

#[test]
fn server_decoder_reads_legacy_payload_without_buildings() {
    // Payload laid out before building replication: snapshots right after enemies.
    let mut payload = Vec::new();
    payload.extend_from_slice(&5u64.to_le_bytes());
    payload.extend_from_slice(&0u16.to_le_bytes());
    payload.extend_from_slice(&0u16.to_le_bytes());
    payload.extend_from_slice(&0u16.to_le_bytes());
    payload.extend_from_slice(&[0; 12]);
    payload.extend_from_slice(&0u16.to_le_bytes());
    let snapshot = PlayerSnapshot {
        player_id: 5,
        x: 10,
        y: 20,
    };
    payload.extend_from_slice(&snapshot.encode());
    let packet = encode_message(MessageType::ServerSnapshot, 3, &payload);
    let decoded = decode_server_message(&packet).expect("legacy packet");
    assert!(decoded.buildings.is_empty());
    assert_eq!(decoded.snapshots, vec![snapshot]);
}

#[test]
fn server_decoder_rejects_bad_payloads() {
    let client_packet = encode_client_attack(1);
    assert_eq!(
        decode_server_message(&client_packet),
        Err(DecodeError::UnknownMessageType(7))
    );
    let packet = encode_message(MessageType::ServerSnapshot, 1, &[0; 11]);
    assert_eq!(decode_server_message(&packet), Err(DecodeError::InvalidPayload));
    // A resource count that runs past the end.
    let mut payload = vec![0u8; 8];
    payload.extend_from_slice(&1u16.to_le_bytes());
    payload.extend_from_slice(&[0; 4]);
    let packet = encode_message(MessageType::ServerSnapshot, 1, &payload);
    assert_eq!(decode_server_message(&packet), Err(DecodeError::InvalidPayload));
    // Trailing bytes that are not a whole player snapshot.
    let mut packet_payload = Vec::new();
    let valid = encode_server_snapshot(1, 2, &[]);
    packet_payload.extend_from_slice(&valid[10..]);
    packet_payload.push(0);
    let packet = encode_message(MessageType::ServerSnapshot, 1, &packet_payload);
    assert_eq!(decode_server_message(&packet), Err(DecodeError::InvalidPayload));
}
