//! The wire protocol, account and configuration rules of a small multiplayer
//! survival game, with their contracts proved by Verus.

pub mod accounts;
pub mod auth;
pub mod client;
pub mod config;
pub mod envelope;
pub mod frame;
pub mod http;
pub mod hud;
pub mod kinds;
pub mod login;
pub mod presence;
pub mod records;
pub mod redact;
pub mod sections;
pub mod server;
pub mod serving;
pub mod text;
pub mod wire;

pub use accounts::{
    default_character_name, inventory_from_rows, inventory_item_code, inventory_rows, inventory_slot, AccountCharacter,
    AccountCredentials, Asset, InventoryRow,
};
pub use auth::{
    authorize_login, bad_request, bearer_token, conflict, internal_error, new_session,
    prepare_signup, session_key, unauthorized, validate_credentials, ApiError, AuthResponse,
    Credentials, ErrorResponse, SESSION_TTL_SECONDS,
};
pub use client::{
    decode_client_message, encode_client_attack, encode_client_authenticate, encode_client_build,
    encode_client_consume, encode_client_craft, encode_client_input, encode_client_interact,
    ClientMessage,
};
pub use config::{parse_positive, Config, ConfigError, ConfigSource};
pub use envelope::{decode_message, encode_message, PROTOCOL_VERSION};
pub use frame::{followed_snapshot, frame_packet, ActionKeys, FramePacket};
pub use http::{
    asset_response_body, auth_request, auth_request_with_body, find_header_end,
    parse_auth_response, AssetResponseError,
};
pub use hud::{
    has_camp_kit_materials, inventory_line, inventory_quantity, update_remote_players, RemotePlayer,
};
pub use kinds::{BuildingKind, CraftRecipe, DecodeError, MessageType, PlayerId, ResourceKind};
pub use login::{
    handle_login_input, password_mask, AuthAction, AuthField, AuthMode, AuthRequest, LoginKeys,
};
pub use presence::{expired_players, presence_key, PresenceCheck, PRESENCE_TTL_SECONDS};
pub use records::{
    BuildingSnapshot, EnemySnapshot, InventoryStack, PlayerInput, PlayerSnapshot, PlayerVitals,
    ResourceSnapshot,
};
pub use redact::{redact_database_url, redact_redis_url};
pub use serving::{
    asset_response_head, is_world_asset_request, not_found_response, requests_world_asset,
};
pub use server::{
    decode_server_message, encode_server_snapshot, encode_server_state,
    encode_server_state_with_buildings, encode_server_state_with_crafting,
    encode_server_state_with_crafting_and_vitals, ServerMessage,
};
