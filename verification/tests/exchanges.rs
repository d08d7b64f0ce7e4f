use frontier::text::{push_decimal, push_signed_decimal};
use frontier::{
    asset_response_head, auth_request, auth_request_with_body, encode_client_authenticate,
    encode_client_consume, encode_client_craft, encode_client_input, encode_client_interact,
    expired_players, followed_snapshot, frame_packet, is_world_asset_request, not_found_response,
    password_mask, presence_key, requests_world_asset, ActionKeys, AuthAction, CraftRecipe, FramePacket,
    PlayerInput, PlayerSnapshot, PresenceCheck, ResourceKind,
};

#[test]
fn decimal_numbers_have_no_leading_zeros() {
    let mut text = String::from("n=");
    push_decimal(&mut text, 0);
    assert_eq!(text, "n=0");
    let mut text = String::new();
    push_decimal(&mut text, 1024);
    assert_eq!(text, "1024");
    let mut text = String::new();
    push_decimal(&mut text, u64::MAX);
    assert_eq!(text, u64::MAX.to_string());
}

#[test]
fn signed_numbers_carry_a_minus_sign() {
    let mut text = String::new();
    push_signed_decimal(&mut text, -42);
    assert_eq!(text, "-42");
    let mut text = String::new();
    push_signed_decimal(&mut text, i64::MIN);
    assert_eq!(text, i64::MIN.to_string());
    let mut text = String::new();
    push_signed_decimal(&mut text, i64::MAX);
    assert_eq!(text, i64::MAX.to_string());
}

#[test]
fn login_request_carries_the_credentials_as_json() {
    let request = auth_request(AuthAction::Login, "ada", "secret");
    assert_eq!(
        request,
        "POST /auth/login HTTP/1.1\r\nHost: frontier-auth\r\nContent-Type: application/json\r\nContent-Length: 38\r\nConnection: close\r\n\r\n{\"password\":\"secret\",\"username\":\"ada\"}"
    );
}

#[test]
fn signup_request_escapes_the_credentials() {
    let request = auth_request(AuthAction::Signup, "a\"b", "pass\\word");
    let body = "{\"password\":\"pass\\\\word\",\"username\":\"a\\\"b\"}";
    assert!(request.starts_with("POST /auth/signup HTTP/1.1\r\n"));
    assert!(request.ends_with(&format!("\r\n\r\n{body}")));
    assert!(request.contains(&format!("Content-Length: {}\r\n", body.len())));
}

#[test]
fn request_length_counts_bytes_not_characters() {
    let request = auth_request_with_body(AuthAction::Login, "é");
    assert!(request.contains("Content-Length: 2\r\n"));
    assert!(request.ends_with("\r\n\r\né"));
}

#[test]
fn only_the_world_asset_path_is_served() {
    assert!(requests_world_asset(
        "GET /assets/world.json HTTP/1.1\r\nHost: frontier-server\r\n\r\n"
    ));
    assert!(requests_world_asset("GET  \t/assets/world.json"));
    assert!(requests_world_asset("GET\u{3000}/assets/world.json\u{85}HTTP/1.1"));
    assert!(!requests_world_asset("GET /assets/world.jsonx HTTP/1.1"));
    assert!(!requests_world_asset("GET /other HTTP/1.1"));
    assert!(!requests_world_asset("/assets/world.json"));
    assert!(!requests_world_asset(""));
}

#[test]
fn request_bytes_are_read_leniently() {
    assert!(is_world_asset_request(b"GET /assets/world.json HTTP/1.1\r\n\r\n"));
    assert!(is_world_asset_request(b"GET /assets/world.json \xff\xfe"));
    assert!(!is_world_asset_request(b"GET /assets/world.json\xff HTTP/1.1"));
    assert!(!is_world_asset_request(b""));
}

#[test]
fn answers_have_exact_heads() {
    assert_eq!(
        not_found_response(),
        "HTTP/1.1 404 Not Found\r\nContent-Length: 9\r\nConnection: close\r\n\r\nnot found"
    );
    assert_eq!(
        asset_response_head("application/json", 1234),
        "HTTP/1.1 200 OK\r\nContent-Type: application/json\r\nContent-Length: 1234\r\nConnection: close\r\n\r\n"
    );
}

#[test]
fn only_expired_players_are_let_go() {
    let checks = [
        PresenceCheck::Active,
        PresenceCheck::Expired,
        PresenceCheck::Unavailable,
        PresenceCheck::Expired,
    ];
    assert_eq!(expired_players(&checks), vec![1, 3]);
    assert!(expired_players(&[PresenceCheck::Unavailable, PresenceCheck::Active]).is_empty());
    assert!(expired_players(&[]).is_empty());
}

fn keys(craft: bool, consume: bool, interact: bool) -> ActionKeys {
    ActionKeys {
        craft,
        consume,
        interact,
    }
}

#[test]
fn frame_packet_prefers_crafting_then_eating_then_gathering() {
    let input = PlayerInput {
        move_x: 1,
        move_y: -1,
    };
    let all = keys(true, true, true);
    assert_eq!(
        frame_packet(7, true, true, all, Some(4), input, "token"),
        FramePacket::Send(encode_client_craft(7, CraftRecipe::CampKit))
    );
    assert_eq!(
        frame_packet(7, true, false, all, Some(4), input, "token"),
        FramePacket::Send(encode_client_consume(7, ResourceKind::Berries))
    );
    assert_eq!(
        frame_packet(7, true, true, keys(false, false, true), Some(4), input, ""),
        FramePacket::Send(encode_client_interact(7, 4))
    );
    assert_eq!(
        frame_packet(7, true, true, keys(false, false, true), None, input, ""),
        FramePacket::Send(encode_client_input(7, input))
    );
    assert_eq!(
        frame_packet(7, true, false, keys(true, false, false), None, input, ""),
        FramePacket::Send(encode_client_input(7, input))
    );
}

#[test]
fn unauthenticated_frames_send_the_token() {
    let input = PlayerInput::default();
    assert_eq!(
        frame_packet(3, false, true, keys(true, true, true), Some(1), input, "abc"),
        FramePacket::Send(encode_client_authenticate(3, "abc"))
    );
    assert_eq!(
        frame_packet(3, false, false, keys(false, false, false), None, input, ""),
        FramePacket::MissingToken
    );
}

#[test]
fn the_client_follows_its_own_snapshot() {
    let current = PlayerSnapshot {
        player_id: 0,
        x: 1,
        y: 2,
    };
    let first = PlayerSnapshot {
        player_id: 5,
        x: 3,
        y: 4,
    };
    let own = PlayerSnapshot {
        player_id: 7,
        x: 5,
        y: 6,
    };
    let again = PlayerSnapshot {
        player_id: 7,
        x: 9,
        y: 9,
    };
    assert_eq!(followed_snapshot(current, &[first, own, again], 7), own);
    assert_eq!(followed_snapshot(current, &[first, own], 8), first);
    assert_eq!(
        followed_snapshot(current, &[], 8),
        PlayerSnapshot {
            player_id: 8,
            x: 1,
            y: 2,
        }
    );
}

#[test]
fn passwords_are_shown_as_bullets() {
    assert_eq!(password_mask("abc"), "•••");
    assert_eq!(password_mask("é€"), "••");
    assert_eq!(password_mask(""), "");
}

#[test]
fn presence_keys_name_the_player() {
    assert_eq!(presence_key(42), "frontier:presence:42");
    assert_eq!(presence_key(0), "frontier:presence:0");
}
