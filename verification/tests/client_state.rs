use frontier::{
    handle_login_input, has_camp_kit_materials, inventory_line, inventory_quantity,
    update_remote_players, AuthAction, AuthField, AuthMode, InventoryStack, LoginKeys,
    PlayerSnapshot, RemotePlayer, ResourceKind,
};

#[test]
fn inventory_totals_use_the_first_stack() {
    let inventory = [
        InventoryStack {
            kind: ResourceKind::Wood,
            quantity: 3,
        },
        InventoryStack {
            kind: ResourceKind::Stone,
            quantity: 1,
        },
        InventoryStack {
            kind: ResourceKind::Wood,
            quantity: 9,
        },
    ];
    assert_eq!(inventory_quantity(&inventory, ResourceKind::Wood), 3);
    assert_eq!(inventory_quantity(&inventory, ResourceKind::Berries), 0);
    assert!(!has_camp_kit_materials(&inventory));
    let enough = [
        InventoryStack {
            kind: ResourceKind::Stone,
            quantity: 2,
        },
        InventoryStack {
            kind: ResourceKind::Wood,
            quantity: 3,
        },
    ];
    assert!(has_camp_kit_materials(&enough));
    assert!(!has_camp_kit_materials(&[]));
}

fn snapshot(player_id: u64, x: u32, y: u32) -> PlayerSnapshot {
    PlayerSnapshot { player_id, x, y }
}

#[test]
fn remote_players_follow_snapshots() {
    let mut players = vec![
        RemotePlayer {
            player_id: 2,
            x: 10,
            y: 10,
            target_x: 10,
            target_y: 10,
        },
        RemotePlayer {
            player_id: 3,
            x: 20,
            y: 20,
            target_x: 20,
            target_y: 20,
        },
    ];
    update_remote_players(
        &mut players,
        &[snapshot(1, 0, 0), snapshot(2, 11, 12), snapshot(4, 40, 41)],
        1,
    );
    assert_eq!(
        players,
        vec![
            RemotePlayer {
                player_id: 2,
                x: 10,
                y: 10,
                target_x: 11,
                target_y: 12,
            },
            RemotePlayer {
                player_id: 4,
                x: 40,
                y: 41,
                target_x: 40,
                target_y: 41,
            },
        ]
    );
    update_remote_players(&mut players, &[snapshot(1, 0, 0)], 1);
    assert!(players.is_empty());
}

#[test]
fn login_form_edits_the_current_field() {
    let mut username = String::from("ab");
    let mut password = String::new();
    let mut field = AuthField::Username;
    let mut mode = AuthMode::Login;
    let mut error = Some("old error".to_owned());

    let keys = LoginKeys {
        tab: false,
        f2: false,
        backspace: true,
        typed: vec!['c', '!', 'd'],
        enter: false,
    };
    let request = handle_login_input(
        &mut username,
        &mut password,
        &mut field,
        &mut mode,
        false,
        &mut error,
        &keys,
    );
    assert!(request.is_none());
    assert_eq!(username, "acd");
    assert!(error.is_none());

    error = Some("kept".to_owned());
    let keys = LoginKeys {
        tab: true,
        f2: false,
        backspace: false,
        typed: vec!['p', 'w', '#'],
        enter: true,
    };
    let request = handle_login_input(
        &mut username,
        &mut password,
        &mut field,
        &mut mode,
        false,
        &mut error,
        &keys,
    )
    .expect("enter asks for a request");
    assert_eq!(field, AuthField::Password);
    assert_eq!(password, "pw");
    assert_eq!(request.action, AuthAction::Login);
    assert_eq!(request.username, "acd");
    assert_eq!(request.password, "pw");

    error = Some("kept".to_owned());
    let keys = LoginKeys {
        tab: false,
        f2: true,
        backspace: false,
        typed: vec!['%'],
        enter: true,
    };
    let request = handle_login_input(
        &mut username,
        &mut password,
        &mut field,
        &mut mode,
        true,
        &mut error,
        &keys,
    );
    assert!(request.is_none());
    assert_eq!(mode, AuthMode::Signup);
    assert!(error.is_none());

    error = Some("kept".to_owned());
    let keys = LoginKeys {
        tab: false,
        f2: false,
        backspace: false,
        typed: vec!['@'],
        enter: false,
    };
    handle_login_input(
        &mut username,
        &mut password,
        &mut field,
        &mut mode,
        false,
        &mut error,
        &keys,
    );
    assert_eq!(error.as_deref(), Some("kept"));
}

#[test]
fn inventory_line_lists_stacks_in_order() {
    let inventory = [
        InventoryStack {
            kind: ResourceKind::Stone,
            quantity: 12,
        },
        InventoryStack {
            kind: ResourceKind::Berries,
            quantity: 0,
        },
        InventoryStack {
            kind: ResourceKind::Wood,
            quantity: 3,
        },
    ];
    assert_eq!(inventory_line(&inventory), "Inventory: stone 12 berries 0 wood 3");
    assert_eq!(inventory_line(&[]), "Inventory:");
}
