//! What the client keeps of the replicated state between frames: inventory
//! totals, the crafting check, and the players that it shows.

use crate::kinds::ResourceKind;
use crate::records::{InventoryStack, PlayerSnapshot};
use crate::text::{copy_text, push_decimal, spec_decimal};
use vstd::prelude::*;

verus! {

/// Wood that a camp kit takes.
pub const CAMP_KIT_WOOD: u16 = 3;

/// Stone that a camp kit takes.
pub const CAMP_KIT_STONE: u16 = 2;

/// The quantity of the first stack of a kind, or 0.
pub open spec fn spec_inventory_quantity(inventory: Seq<InventoryStack>, kind: ResourceKind) -> u16
    decreases inventory.len(),
{
    if inventory.len() == 0 {
        0
    } else if inventory[0].kind == kind {
        inventory[0].quantity
    } else {
        spec_inventory_quantity(inventory.drop_first(), kind)
    }
}

pub fn inventory_quantity(inventory: &[InventoryStack], kind: ResourceKind) -> (r: u16)
    ensures
        r == spec_inventory_quantity(inventory@, kind),
{
    let n = inventory.len();
    let mut i: usize = 0;
    assert(inventory@.subrange(0, n as int) =~= inventory@);
    while i < n
        invariant
            n == inventory@.len(),
            i <= n,
            spec_inventory_quantity(inventory@, kind) == spec_inventory_quantity(
                inventory@.subrange(i as int, n as int),
                kind,
            ),
        decreases n - i,
    {
        let rest = Ghost(inventory@.subrange(i as int, n as int));
        assert(rest@[0] == inventory@[i as int]);
        if inventory[i].kind == kind {
            return inventory[i].quantity;
        }
        assert(rest@.drop_first() =~= inventory@.subrange(i + 1, n as int));
        i = i + 1;
    }
    0
}

/// A camp kit takes three wood and two stone.
pub fn has_camp_kit_materials(inventory: &[InventoryStack]) -> (r: bool)
    ensures
        r == (spec_inventory_quantity(inventory@, ResourceKind::Wood) >= CAMP_KIT_WOOD
            && spec_inventory_quantity(inventory@, ResourceKind::Stone) >= CAMP_KIT_STONE),
{
    inventory_quantity(inventory, ResourceKind::Wood) >= CAMP_KIT_WOOD && inventory_quantity(
        inventory,
        ResourceKind::Stone,
    ) >= CAMP_KIT_STONE
}

/// The name under which the inventory line shows a resource.
pub open spec fn spec_resource_name(kind: ResourceKind) -> Seq<char> {
    match kind {
        ResourceKind::Wood => "wood"@,
        ResourceKind::Stone => "stone"@,
        ResourceKind::Berries => "berries"@,
    }
}

/// The inventory line: `Inventory:`, then for each stack in order a space,
/// its name, a space and its quantity.
pub open spec fn spec_inventory_line(inventory: Seq<InventoryStack>) -> Seq<char>
    decreases inventory.len(),
{
    if inventory.len() == 0 {
        "Inventory:"@
    } else {
        let stack = inventory.last();
        spec_inventory_line(inventory.drop_last()) + " "@ + spec_resource_name(stack.kind) + " "@
            + spec_decimal(stack.quantity as nat)
    }
}

/// The text of the inventory line.
pub fn inventory_line(inventory: &[InventoryStack]) -> (r: String)
    ensures
        r@ == spec_inventory_line(inventory@),
{
    let n = inventory.len();
    let mut r = copy_text("Inventory:");
    let mut i: usize = 0;
    assert(inventory@.subrange(0, 0) =~= Seq::<InventoryStack>::empty());
    while i < n
        invariant
            n == inventory@.len(),
            i <= n,
            r@ == spec_inventory_line(inventory@.subrange(0, i as int)),
        decreases n - i,
    {
        let stack = inventory[i];
        let ghost next = inventory@.subrange(0, i + 1);
        assert(next.drop_last() =~= inventory@.subrange(0, i as int));
        r.append(" ");
        match stack.kind {
            ResourceKind::Wood => r.append("wood"),
            ResourceKind::Stone => r.append("stone"),
            ResourceKind::Berries => r.append("berries"),
        }
        r.append(" ");
        push_decimal(&mut r, stack.quantity as u64);
        i = i + 1;
    }
    assert(inventory@.subrange(0, n as int) =~= inventory@);
    r
}

/// Another player as the client draws it: where it is drawn now and where
/// the server last put it. Coordinates are bit patterns of `f32` values.
#[derive(Debug, Clone, Copy, PartialEq, Eq, Structural)]
pub struct RemotePlayer {
    pub player_id: u64,
    pub x: u32,
    pub y: u32,
    pub target_x: u32,
    pub target_y: u32,
}

/// Whether a snapshot other than the local player's has this id.
pub open spec fn spec_seen(snapshots: Seq<PlayerSnapshot>, id: u64, local: u64) -> bool {
    id != local && exists|k: int| 0 <= k < snapshots.len() && (#[trigger] snapshots[k]).player_id == id
}

/// The players that stay: those that some snapshot other than the local
/// player's still names, in their order.
pub open spec fn spec_retained(
    players: Seq<RemotePlayer>,
    snapshots: Seq<PlayerSnapshot>,
    local: u64,
) -> Seq<RemotePlayer>
    decreases players.len(),
{
    if players.len() == 0 {
        Seq::empty()
    } else {
        let rest = spec_retained(players.drop_last(), snapshots, local);
        if spec_seen(snapshots, players.last().player_id, local) {
            rest.push(players.last())
        } else {
            rest
        }
    }
}

/// The position of the first player with this id.
pub open spec fn spec_index_of(players: Seq<RemotePlayer>, id: u64) -> Option<int>
    decreases players.len(),
{
    if players.len() == 0 {
        None
    } else {
        match spec_index_of(players.drop_last(), id) {
            Some(i) => Some(i),
            None => if players.last().player_id == id {
                Some(players.len() - 1)
            } else {
                None
            },
        }
    }
}

/// One snapshot applied: the local player is skipped; a known player gets a
/// new target; an unknown one is added where the snapshot puts it.
pub open spec fn spec_apply_snapshot(
    players: Seq<RemotePlayer>,
    snapshot: PlayerSnapshot,
    local: u64,
) -> Seq<RemotePlayer> {
    if snapshot.player_id == local {
        players
    } else {
        match spec_index_of(players, snapshot.player_id) {
            Some(i) => players.update(
                i,
                RemotePlayer { target_x: snapshot.x, target_y: snapshot.y, ..players[i] },
            ),
            None => players.push(
                RemotePlayer {
                    player_id: snapshot.player_id,
                    x: snapshot.x,
                    y: snapshot.y,
                    target_x: snapshot.x,
                    target_y: snapshot.y,
                },
            ),
        }
    }
}

/// The snapshots applied in order.
pub open spec fn spec_apply_all(
    players: Seq<RemotePlayer>,
    snapshots: Seq<PlayerSnapshot>,
    local: u64,
) -> Seq<RemotePlayer>
    decreases snapshots.len(),
{
    if snapshots.len() == 0 {
        players
    } else {
        spec_apply_snapshot(spec_apply_all(players, snapshots.drop_last(), local), snapshots.last(), local)
    }
}

/// The players after an update from a set of snapshots.
pub open spec fn spec_update_remote_players(
    players: Seq<RemotePlayer>,
    snapshots: Seq<PlayerSnapshot>,
    local: u64,
) -> Seq<RemotePlayer> {
    spec_apply_all(spec_retained(players, snapshots, local), snapshots, local)
}

fn index_of(players: &Vec<RemotePlayer>, id: u64) -> (r: Option<usize>)
    ensures
        match spec_index_of(players@, id) {
            Some(i) => r matches Some(k) && k == i,
            None => r is None,
        },
{
    let n = players.len();
    let mut i: usize = 0;
    while i < n
        invariant
            n == players@.len(),
            i <= n,
            spec_index_of(players@.subrange(0, i as int), id) is None,
        decreases n - i,
    {
        let ghost next = players@.subrange(0, i + 1);
        assert(next.drop_last() =~= players@.subrange(0, i as int));
        if players[i].player_id == id {
            proof {
                lemma_index_of_prefix(players@, id, i + 1);
            }
            return Some(i);
        }
        i = i + 1;
    }
    assert(players@.subrange(0, n as int) =~= players@);
    None
}

/// Once a prefix holds the id, the whole sequence finds it there.
proof fn lemma_index_of_prefix(players: Seq<RemotePlayer>, id: u64, m: int)
    requires
        0 <= m <= players.len(),
        spec_index_of(players.subrange(0, m), id) is Some,
    ensures
        spec_index_of(players, id) == spec_index_of(players.subrange(0, m), id),
    decreases players.len() - m,
{
    if m < players.len() {
        let longer = players.subrange(0, m + 1);
        assert(longer.drop_last() =~= players.subrange(0, m));
        lemma_index_of_prefix(players, id, m + 1);
    } else {
        assert(players.subrange(0, m) =~= players);
    }
}

proof fn lemma_index_of_in_range(players: Seq<RemotePlayer>, id: u64)
    ensures
        spec_index_of(players, id) matches Some(i) ==> 0 <= i < players.len()
            && players[i].player_id == id,
    decreases players.len(),
{
    if players.len() > 0 {
        lemma_index_of_in_range(players.drop_last(), id);
    }
}

fn any_snapshot_names(snapshots: &[PlayerSnapshot], id: u64, local: u64) -> (r: bool)
    ensures
        r == spec_seen(snapshots@, id, local),
{
    let n = snapshots.len();
    let mut k: usize = 0;
    while k < n
        invariant
            n == snapshots@.len(),
            k <= n,
            forall|j: int| 0 <= j < k ==> (#[trigger] snapshots@[j]).player_id != id || id == local,
        decreases n - k,
    {
        if snapshots[k].player_id == id && id != local {
            return true;
        }
        k = k + 1;
    }
    false
}

/// Keeps the players that the snapshots still name, moves each known
/// player's target to its snapshot, and adds the players that are new.
pub fn update_remote_players(
    remote_players: &mut Vec<RemotePlayer>,
    snapshots: &[PlayerSnapshot],
    local_player_id: u64,
)
    ensures
        final(remote_players)@ == spec_update_remote_players(
            old(remote_players)@,
            snapshots@,
            local_player_id,
        ),
{
    let ghost original = remote_players@;
    let mut kept: Vec<RemotePlayer> = Vec::new();
    let n = remote_players.len();
    let mut i: usize = 0;
    while i < n
        invariant
            n == remote_players@.len(),
            remote_players@ == original,
            i <= n,
            kept@ == spec_retained(original.subrange(0, i as int), snapshots@, local_player_id),
        decreases n - i,
    {
        let player = remote_players[i];
        let ghost next = original.subrange(0, i + 1);
        assert(next.drop_last() =~= original.subrange(0, i as int));
        assert(next.last() == player);
        if any_snapshot_names(snapshots, player.player_id, local_player_id) {
            kept.push(player);
        }
        i = i + 1;
    }
    assert(original.subrange(0, n as int) =~= original);
    let ghost retained = kept@;
    let m = snapshots.len();
    let mut k: usize = 0;
    while k < m
        invariant
            m == snapshots@.len(),
            k <= m,
            kept@ == spec_apply_all(retained, snapshots@.subrange(0, k as int), local_player_id),
        decreases m - k,
    {
        let snapshot = snapshots[k];
        let ghost next = snapshots@.subrange(0, k + 1);
        assert(next.drop_last() =~= snapshots@.subrange(0, k as int));
        assert(next.last() == snapshot);
        if snapshot.player_id != local_player_id {
            match index_of(&kept, snapshot.player_id) {
                Some(j) => {
                    proof {
                        lemma_index_of_in_range(kept@, snapshot.player_id);
                    }
                    let mut player = kept[j];
                    player.target_x = snapshot.x;
                    player.target_y = snapshot.y;
                    kept.set(j, player);
                },
                None => {
                    kept.push(
                        RemotePlayer {
                            player_id: snapshot.player_id,
                            x: snapshot.x,
                            y: snapshot.y,
                            target_x: snapshot.x,
                            target_y: snapshot.y,
                        },
                    );
                },
            }
        }
        k = k + 1;
    }
    assert(snapshots@.subrange(0, m as int) =~= snapshots@);
    *remote_players = kept;
}

/// After an update the local player is never among the others.
pub proof fn lemma_update_excludes_local(
    players: Seq<RemotePlayer>,
    snapshots: Seq<PlayerSnapshot>,
    local: u64,
    i: int,
)
    requires
        0 <= i < spec_update_remote_players(players, snapshots, local).len(),
    ensures
        spec_update_remote_players(players, snapshots, local)[i].player_id != local,
{
    lemma_retained_excludes_local(players, snapshots, local);
    lemma_apply_all_excludes_local(spec_retained(players, snapshots, local), snapshots, local, i);
}

proof fn lemma_retained_excludes_local(
    players: Seq<RemotePlayer>,
    snapshots: Seq<PlayerSnapshot>,
    local: u64,
)
    ensures
        forall|j: int|
            0 <= j < spec_retained(players, snapshots, local).len() ==> (#[trigger] spec_retained(
                players,
                snapshots,
                local,
            )[j]).player_id != local,
    decreases players.len(),
{
    if players.len() > 0 {
        lemma_retained_excludes_local(players.drop_last(), snapshots, local);
        let rest = spec_retained(players.drop_last(), snapshots, local);
        let all = spec_retained(players, snapshots, local);
        assert forall|j: int| 0 <= j < all.len() implies (#[trigger] all[j]).player_id != local by {
            if j < rest.len() {
                assert(all[j] == rest[j]);
            }
        }
    }
}

proof fn lemma_apply_all_excludes_local(
    players: Seq<RemotePlayer>,
    snapshots: Seq<PlayerSnapshot>,
    local: u64,
    i: int,
)
    requires
        forall|j: int| 0 <= j < players.len() ==> (#[trigger] players[j]).player_id != local,
        0 <= i < spec_apply_all(players, snapshots, local).len(),
    ensures
        spec_apply_all(players, snapshots, local)[i].player_id != local,
    decreases snapshots.len(),
{
    if snapshots.len() > 0 {
        let before = spec_apply_all(players, snapshots.drop_last(), local);
        assert forall|j: int| 0 <= j < before.len() implies (#[trigger] before[j]).player_id
            != local by {
            lemma_apply_all_excludes_local(players, snapshots.drop_last(), local, j);
        }
        lemma_index_of_in_range(before, snapshots.last().player_id);
    }
}

/// After an update every player shown is named by some snapshot.
pub proof fn lemma_update_only_named(
    players: Seq<RemotePlayer>,
    snapshots: Seq<PlayerSnapshot>,
    local: u64,
    i: int,
)
    requires
        0 <= i < spec_update_remote_players(players, snapshots, local).len(),
    ensures
        spec_seen(snapshots, spec_update_remote_players(players, snapshots, local)[i].player_id, local),
{
    lemma_retained_named(players, snapshots, local);
    assert(snapshots.subrange(0, snapshots.len() as int) =~= snapshots);
    lemma_apply_all_named(spec_retained(players, snapshots, local), snapshots, snapshots.len() as int, local, i);
}

proof fn lemma_retained_named(players: Seq<RemotePlayer>, snapshots: Seq<PlayerSnapshot>, local: u64)
    ensures
        forall|j: int|
            0 <= j < spec_retained(players, snapshots, local).len() ==> spec_seen(
                snapshots,
                (#[trigger] spec_retained(players, snapshots, local)[j]).player_id,
                local,
            ),
    decreases players.len(),
{
    if players.len() > 0 {
        lemma_retained_named(players.drop_last(), snapshots, local);
        let rest = spec_retained(players.drop_last(), snapshots, local);
        let all = spec_retained(players, snapshots, local);
        assert forall|j: int| 0 <= j < all.len() implies spec_seen(
            snapshots,
            (#[trigger] all[j]).player_id,
            local,
        ) by {
            if j < rest.len() {
                assert(all[j] == rest[j]);
            }
        }
    }
}

proof fn lemma_apply_all_named(
    players: Seq<RemotePlayer>,
    snapshots: Seq<PlayerSnapshot>,
    n: int,
    local: u64,
    i: int,
)
    requires
        forall|j: int|
            0 <= j < players.len() ==> spec_seen(snapshots, (#[trigger] players[j]).player_id, local),
        0 <= n <= snapshots.len(),
        0 <= i < spec_apply_all(players, snapshots.subrange(0, n), local).len(),
    ensures
        spec_seen(snapshots, spec_apply_all(players, snapshots.subrange(0, n), local)[i].player_id, local),
    decreases n,
{
    if n > 0 {
        let applied = snapshots.subrange(0, n);
        assert(applied.drop_last() =~= snapshots.subrange(0, n - 1));
        let before = spec_apply_all(players, snapshots.subrange(0, n - 1), local);
        assert forall|j: int| 0 <= j < before.len() implies spec_seen(
            snapshots,
            (#[trigger] before[j]).player_id,
            local,
        ) by {
            lemma_apply_all_named(players, snapshots, n - 1, local, j);
        }
        lemma_index_of_in_range(before, applied.last().player_id);
        assert(snapshots[n - 1] == applied.last());
    }
}

/// After an update every snapshot other than the local player's is shown.
pub proof fn lemma_update_shows_all(
    players: Seq<RemotePlayer>,
    snapshots: Seq<PlayerSnapshot>,
    local: u64,
    k: int,
)
    requires
        0 <= k < snapshots.len(),
        snapshots[k].player_id != local,
    ensures
        spec_index_of(spec_update_remote_players(players, snapshots, local), snapshots[k].player_id)
            is Some,
{
    lemma_apply_all_keeps(spec_retained(players, snapshots, local), snapshots, local, k);
}

proof fn lemma_apply_snapshot_keeps(
    players: Seq<RemotePlayer>,
    snapshot: PlayerSnapshot,
    local: u64,
    id: u64,
)
    requires
        spec_index_of(players, id) is Some,
    ensures
        spec_index_of(spec_apply_snapshot(players, snapshot, local), id) is Some,
{
    lemma_index_of_in_range(players, id);
    lemma_index_of_in_range(players, snapshot.player_id);
    let i = spec_index_of(players, id)->Some_0;
    let after = spec_apply_snapshot(players, snapshot, local);
    assert(after.len() >= players.len());
    assert(after[i].player_id == id);
    lemma_index_of_witness(after, id, i);
}

proof fn lemma_index_of_witness(players: Seq<RemotePlayer>, id: u64, i: int)
    requires
        0 <= i < players.len(),
        players[i].player_id == id,
    ensures
        spec_index_of(players, id) is Some,
    decreases players.len(),
{
    if i < players.len() - 1 {
        lemma_index_of_witness(players.drop_last(), id, i);
    }
}

proof fn lemma_apply_all_keeps(
    players: Seq<RemotePlayer>,
    snapshots: Seq<PlayerSnapshot>,
    local: u64,
    k: int,
)
    requires
        0 <= k < snapshots.len(),
        snapshots[k].player_id != local,
    ensures
        spec_index_of(spec_apply_all(players, snapshots, local), snapshots[k].player_id) is Some,
    decreases snapshots.len(),
{
    let id = snapshots[k].player_id;
    let front = snapshots.drop_last();
    let before = spec_apply_all(players, front, local);
    if k == snapshots.len() - 1 {
        let after = spec_apply_all(players, snapshots, local);
        match spec_index_of(before, id) {
            Some(i) => {
                lemma_apply_snapshot_keeps(before, snapshots.last(), local, id);
            },
            None => {
                lemma_index_of_witness(after, id, before.len() as int);
            },
        }
    } else {
        lemma_apply_all_keeps(players, front, local, k);
        lemma_apply_snapshot_keeps(before, snapshots.last(), local, id);
    }
}

/// The last snapshot that names a player, if any.
pub open spec fn spec_last_snapshot_of(snapshots: Seq<PlayerSnapshot>, id: u64) -> Option<
    PlayerSnapshot,
>
    decreases snapshots.len(),
{
    if snapshots.len() == 0 {
        None
    } else if snapshots.last().player_id == id {
        Some(snapshots.last())
    } else {
        spec_last_snapshot_of(snapshots.drop_last(), id)
    }
}

/// A player already shown that a snapshot names keeps its entry and the
/// position it is drawn at: the update moves only its target, to the position
/// of the last snapshot that names it.
pub proof fn lemma_update_moves_only_targets(
    players: Seq<RemotePlayer>,
    snapshots: Seq<PlayerSnapshot>,
    local: u64,
    id: u64,
)
    requires
        id != local,
        spec_index_of(players, id) is Some,
        spec_last_snapshot_of(snapshots, id) is Some,
    ensures
        ({
            let old_entry = players[spec_index_of(players, id)->Some_0];
            let s = spec_last_snapshot_of(snapshots, id)->Some_0;
            let updated = spec_update_remote_players(players, snapshots, local);
            &&& spec_index_of(updated, id) is Some
            &&& updated[spec_index_of(updated, id)->Some_0] == RemotePlayer {
                target_x: s.x,
                target_y: s.y,
                ..old_entry
            }
        }),
{
    lemma_last_snapshot_named(snapshots, id);
    lemma_retained_keeps_first(players, snapshots, local, id);
    let retained = spec_retained(players, snapshots, local);
    lemma_index_of_characterized(retained, id);
    let j = spec_index_of(retained, id)->Some_0;
    lemma_apply_all_moves_targets(retained, snapshots, local, j);
    let updated = spec_apply_all(retained, snapshots, local);
    lemma_index_of_same_prefix(retained, updated, id);
}

/// A position of `spec_index_of` is the first one that holds the id.
proof fn lemma_index_of_characterized(players: Seq<RemotePlayer>, id: u64)
    ensures
        match spec_index_of(players, id) {
            Some(i) => 0 <= i < players.len() && players[i].player_id == id && forall|k: int|
                0 <= k < i ==> (#[trigger] players[k]).player_id != id,
            None => forall|k: int| 0 <= k < players.len() ==> (#[trigger] players[k]).player_id != id,
        },
    decreases players.len(),
{
    if players.len() > 0 {
        let front = players.drop_last();
        lemma_index_of_characterized(front, id);
        assert forall|k: int| 0 <= k < front.len() implies #[trigger] players[k] == front[k] by {}
    }
}

/// Two sequences whose ids agree on the first one's positions find an id
/// that the first one holds at the same position.
proof fn lemma_index_of_same_prefix(short: Seq<RemotePlayer>, long: Seq<RemotePlayer>, id: u64)
    requires
        short.len() <= long.len(),
        forall|k: int| 0 <= k < short.len() ==> (#[trigger] long[k]).player_id == short[k].player_id,
        spec_index_of(short, id) is Some,
    ensures
        spec_index_of(long, id) == spec_index_of(short, id),
{
    lemma_index_of_characterized(short, id);
    lemma_index_of_characterized(long, id);
    let j = spec_index_of(short, id)->Some_0;
    assert(long[j].player_id == id);
    match spec_index_of(long, id) {
        Some(i) => {
            if i < j {
                assert(long[i].player_id == short[i].player_id);
            }
            if j < i {
                assert(long[j].player_id == id);
            }
        },
        None => {
            assert(long[j].player_id == id);
        },
    }
}

/// The last snapshot that names a player is one of the snapshots.
proof fn lemma_last_snapshot_named(snapshots: Seq<PlayerSnapshot>, id: u64)
    ensures
        spec_last_snapshot_of(snapshots, id) matches Some(s) ==> s.player_id == id && exists|k: int|
            0 <= k < snapshots.len() && #[trigger] snapshots[k] == s,
    decreases snapshots.len(),
{
    if snapshots.len() > 0 {
        let front = snapshots.drop_last();
        lemma_last_snapshot_named(front, id);
        if snapshots.last().player_id == id {
            assert(snapshots[snapshots.len() - 1] == snapshots.last());
        } else if spec_last_snapshot_of(front, id) is Some {
            let s = spec_last_snapshot_of(front, id)->Some_0;
            let k = choose|k: int| 0 <= k < front.len() && #[trigger] front[k] == s;
            assert(snapshots[k] == front[k]);
        }
    }
}

/// A player missing from a list is missing from what the list keeps.
proof fn lemma_retained_lacks(players: Seq<RemotePlayer>, snapshots: Seq<PlayerSnapshot>, local: u64, id: u64)
    requires
        spec_index_of(players, id) is None,
    ensures
        spec_index_of(spec_retained(players, snapshots, local), id) is None,
    decreases players.len(),
{
    if players.len() > 0 {
        let front = players.drop_last();
        lemma_retained_lacks(front, snapshots, local, id);
        let rest = spec_retained(front, snapshots, local);
        if spec_seen(snapshots, players.last().player_id, local) {
            assert(rest.push(players.last()).drop_last() =~= rest);
        }
    }
}

/// The first entry of a named player is kept, and is the first entry with
/// its id among those kept.
proof fn lemma_retained_keeps_first(
    players: Seq<RemotePlayer>,
    snapshots: Seq<PlayerSnapshot>,
    local: u64,
    id: u64,
)
    requires
        spec_seen(snapshots, id, local),
        spec_index_of(players, id) is Some,
    ensures
        ({
            let kept = spec_retained(players, snapshots, local);
            &&& spec_index_of(kept, id) is Some
            &&& kept[spec_index_of(kept, id)->Some_0] == players[spec_index_of(players, id)->Some_0]
        }),
    decreases players.len(),
{
    let front = players.drop_last();
    let rest = spec_retained(front, snapshots, local);
    assert(players.len() > 0);
    match spec_index_of(front, id) {
        Some(i) => {
            lemma_retained_keeps_first(front, snapshots, local, id);
            lemma_index_of_characterized(front, id);
            assert(players[i] == front[i]);
            if spec_seen(snapshots, players.last().player_id, local) {
                let all = rest.push(players.last());
                assert(all.drop_last() =~= rest);
                lemma_index_of_characterized(rest, id);
                assert(all[spec_index_of(rest, id)->Some_0] == rest[spec_index_of(rest, id)->Some_0]);
            }
        },
        None => {
            lemma_retained_lacks(front, snapshots, local, id);
            let all = rest.push(players.last());
            assert(all.drop_last() =~= rest);
        },
    }
}

/// Applying snapshots keeps every entry's id and drawn position, and moves
/// the target of a first entry to the last snapshot that names it.
proof fn lemma_apply_all_moves_targets(
    players: Seq<RemotePlayer>,
    snapshots: Seq<PlayerSnapshot>,
    local: u64,
    j: int,
)
    requires
        0 <= j < players.len(),
        players[j].player_id != local,
        spec_index_of(players, players[j].player_id) == Some(j),
    ensures
        ({
            let after = spec_apply_all(players, snapshots, local);
            &&& players.len() <= after.len()
            &&& forall|k: int|
                0 <= k < players.len() ==> (#[trigger] after[k]).player_id == players[k].player_id
                    && after[k].x == players[k].x && after[k].y == players[k].y
            &&& after[j] == match spec_last_snapshot_of(snapshots, players[j].player_id) {
                Some(s) => RemotePlayer { target_x: s.x, target_y: s.y, ..players[j] },
                None => players[j],
            }
        }),
    decreases snapshots.len(),
{
    if snapshots.len() > 0 {
        let id = players[j].player_id;
        let front = snapshots.drop_last();
        let s = snapshots.last();
        lemma_apply_all_moves_targets(players, front, local, j);
        let before = spec_apply_all(players, front, local);
        let after = spec_apply_all(players, snapshots, local);
        lemma_index_of_same_prefix(players, before, id);
        lemma_index_of_characterized(before, s.player_id);
        if s.player_id != local {
            match spec_index_of(before, s.player_id) {
                Some(i) => {
                    assert forall|k: int| 0 <= k < players.len() implies (#[trigger] after[k]).player_id
                        == players[k].player_id && after[k].x == players[k].x && after[k].y
                        == players[k].y by {
                        assert(before[k].player_id == players[k].player_id);
                    }
                },
                None => {
                    assert forall|k: int| 0 <= k < players.len() implies (#[trigger] after[k]).player_id
                        == players[k].player_id && after[k].x == players[k].x && after[k].y
                        == players[k].y by {
                        assert(before[k].player_id == players[k].player_id);
                    }
                    assert(before[j].player_id == id);
                },
            }
        }
    }
}

} // verus!
