//! The client's decisions in a frame of play: which packet it sends, and
//! which snapshot it follows once the server answers.

use crate::client::{
    encode_client_authenticate, encode_client_consume, encode_client_craft, encode_client_input,
    encode_client_interact, spec_encode_client, ClientMessageView,
};
use crate::kinds::{CraftRecipe, ResourceKind};
use crate::records::{PlayerInput, PlayerSnapshot};
use vstd::prelude::*;
use vstd::utf8::encode_utf8;

verus! {

/// The keys of one frame that ask for an action: Enter crafts while the
/// crafting panel is open, F eats berries, E gathers.
#[derive(Debug, Clone, Copy, PartialEq, Eq, Structural)]
pub struct ActionKeys {
    pub craft: bool,
    pub consume: bool,
    pub interact: bool,
}

/// What the client does with the connection in a frame.
#[derive(Debug, Clone, PartialEq)]
pub enum FramePacket {
    /// Sends this packet.
    Send(Vec<u8>),
    /// Sends nothing: it has no session token to authenticate with.
    MissingToken,
}

/// The command of a frame, or `None` when there is no token to send. Once
/// authenticated, crafting comes before eating, eating before gathering, and
/// gathering without a resource in reach sends the movement input instead.
pub open spec fn spec_frame_command(
    sequence: u32,
    authenticated: bool,
    crafting_open: bool,
    keys: ActionKeys,
    nearest_resource: Option<u32>,
    input: PlayerInput,
    token: Seq<char>,
) -> Option<ClientMessageView> {
    if authenticated && crafting_open && keys.craft {
        Some(ClientMessageView::Craft { sequence, recipe: CraftRecipe::CampKit })
    } else if authenticated && keys.consume {
        Some(ClientMessageView::Consume { sequence, kind: ResourceKind::Berries })
    } else if authenticated && keys.interact {
        match nearest_resource {
            Some(resource_id) => Some(ClientMessageView::Interact { sequence, resource_id }),
            None => Some(ClientMessageView::Input { sequence, input }),
        }
    } else if authenticated {
        Some(ClientMessageView::Input { sequence, input })
    } else if token.len() == 0 {
        None
    } else {
        Some(ClientMessageView::Authenticate { sequence, token })
    }
}

/// Chooses the packet of a frame.
pub fn frame_packet(
    sequence: u32,
    authenticated: bool,
    crafting_open: bool,
    keys: ActionKeys,
    nearest_resource: Option<u32>,
    input: PlayerInput,
    session_token: &str,
) -> (r: FramePacket)
    requires
        authenticated || encode_utf8(session_token@).len() <= u16::MAX,
    ensures
        match spec_frame_command(
            sequence,
            authenticated,
            crafting_open,
            keys,
            nearest_resource,
            input,
            session_token@,
        ) {
            Some(m) => r matches FramePacket::Send(p) && p@ == spec_encode_client(m),
            None => r is MissingToken,
        },
{
    if authenticated && crafting_open && keys.craft {
        FramePacket::Send(encode_client_craft(sequence, CraftRecipe::CampKit))
    } else if authenticated && keys.consume {
        FramePacket::Send(encode_client_consume(sequence, ResourceKind::Berries))
    } else if authenticated && keys.interact {
        match nearest_resource {
            Some(resource_id) => FramePacket::Send(encode_client_interact(sequence, resource_id)),
            None => FramePacket::Send(encode_client_input(sequence, input)),
        }
    } else if authenticated {
        FramePacket::Send(encode_client_input(sequence, input))
    } else if session_token.is_empty() {
        FramePacket::MissingToken
    } else {
        FramePacket::Send(encode_client_authenticate(sequence, session_token))
    }
}

/// Until the server has answered, a client sends nothing but its session
/// token, whatever keys are pressed; once it has, it never sends the token
/// again.
pub proof fn lemma_authentication_comes_first(
    sequence: u32,
    authenticated: bool,
    crafting_open: bool,
    keys: ActionKeys,
    nearest_resource: Option<u32>,
    input: PlayerInput,
    token: Seq<char>,
)
    ensures
        ({
            let command = spec_frame_command(
                sequence,
                authenticated,
                crafting_open,
                keys,
                nearest_resource,
                input,
                token,
            );
            &&& !authenticated ==> (command is None || command == Some(
                ClientMessageView::Authenticate { sequence, token },
            ))
            &&& authenticated ==> (command is Some && !(command->0 is Authenticate))
        }),
{
}

/// Once authenticated, a frame in which neither crafting (with the panel
/// open), eating nor gathering is asked for sends the frame's movement input,
/// whether or not a resource is in reach.
pub proof fn lemma_plain_frames_send_movement(
    sequence: u32,
    crafting_open: bool,
    keys: ActionKeys,
    nearest_resource: Option<u32>,
    input: PlayerInput,
    token: Seq<char>,
)
    requires
        !(crafting_open && keys.craft),
        !keys.consume,
        !keys.interact,
    ensures
        spec_frame_command(sequence, true, crafting_open, keys, nearest_resource, input, token)
            == Some(ClientMessageView::Input { sequence, input }),
{
}

/// The position of the first snapshot with this player id.
pub open spec fn spec_snapshot_index(snapshots: Seq<PlayerSnapshot>, player_id: u64) -> Option<
    int,
>
    decreases snapshots.len(),
{
    if snapshots.len() == 0 {
        None
    } else {
        match spec_snapshot_index(snapshots.drop_last(), player_id) {
            Some(i) => Some(i),
            None => if snapshots.last().player_id == player_id {
                Some(snapshots.len() - 1)
            } else {
                None
            },
        }
    }
}

/// The snapshot that the client follows once the server names its player:
/// the first one with that id, else the first one, else the current one
/// under the new id.
pub open spec fn spec_followed_snapshot(
    current: PlayerSnapshot,
    snapshots: Seq<PlayerSnapshot>,
    player_id: u64,
) -> PlayerSnapshot {
    match spec_snapshot_index(snapshots, player_id) {
        Some(i) => snapshots[i],
        None => if snapshots.len() > 0 {
            snapshots[0]
        } else {
            PlayerSnapshot { player_id, ..current }
        },
    }
}

/// Picks the snapshot that the client follows.
pub fn followed_snapshot(current: PlayerSnapshot, snapshots: &[PlayerSnapshot], player_id: u64) -> (r:
    PlayerSnapshot)
    ensures
        r == spec_followed_snapshot(current, snapshots@, player_id),
{
    let n = snapshots.len();
    let mut i: usize = 0;
    assert(snapshots@.subrange(0, 0) =~= Seq::<PlayerSnapshot>::empty());
    while i < n
        invariant
            n == snapshots@.len(),
            i <= n,
            spec_snapshot_index(snapshots@.subrange(0, i as int), player_id) is None,
        decreases n - i,
    {
        let ghost prefix = snapshots@.subrange(0, i + 1);
        assert(prefix.drop_last() =~= snapshots@.subrange(0, i as int));
        if snapshots[i].player_id == player_id {
            proof {
                lemma_index_extends(snapshots@, player_id, i as int + 1);
            }
            return snapshots[i];
        }
        i = i + 1;
    }
    assert(snapshots@.subrange(0, n as int) =~= snapshots@);
    if n > 0 {
        snapshots[0]
    } else {
        PlayerSnapshot { player_id, ..current }
    }
}

/// A position found in a prefix is the one found in the whole sequence.
proof fn lemma_index_extends(snapshots: Seq<PlayerSnapshot>, player_id: u64, k: int)
    requires
        0 <= k <= snapshots.len(),
        spec_snapshot_index(snapshots.subrange(0, k), player_id) is Some,
    ensures
        spec_snapshot_index(snapshots, player_id) == spec_snapshot_index(
            snapshots.subrange(0, k),
            player_id,
        ),
    decreases snapshots.len() - k,
{
    if k < snapshots.len() {
        let longer = snapshots.subrange(0, k + 1);
        assert(longer.drop_last() =~= snapshots.subrange(0, k));
        lemma_index_extends(snapshots, player_id, k + 1);
    } else {
        assert(snapshots.subrange(0, k) =~= snapshots);
    }
}

} // verus!
