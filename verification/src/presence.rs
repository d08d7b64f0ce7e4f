//! How the server marks players present, and which connected players it lets
//! go after checking their presence.

use crate::text::{copy_text, push_decimal, spec_decimal};
use vstd::prelude::*;

verus! {

/// How long a presence mark lives without a refresh, in seconds.
pub const PRESENCE_TTL_SECONDS: u64 = 5;

/// The Redis key that marks a player present.
pub open spec fn spec_presence_key(player_id: u64) -> Seq<char> {
    "frontier:presence:"@ + spec_decimal(player_id as nat)
}

pub fn presence_key(player_id: u64) -> (r: String)
    ensures
        r@ == spec_presence_key(player_id),
{
    let mut r = copy_text("frontier:presence:");
    push_decimal(&mut r, player_id);
    r
}

/// What the presence store answered for a player.
#[derive(Debug, Clone, Copy, PartialEq, Eq, Structural)]
pub enum PresenceCheck {
    /// The presence key is still there.
    Active,
    /// The presence key has expired.
    Expired,
    /// The store could not be asked.
    Unavailable,
}

/// The positions of the players whose presence expired, in order.
pub open spec fn spec_expired_players(checks: Seq<PresenceCheck>) -> Seq<usize>
    decreases checks.len(),
{
    if checks.len() == 0 {
        Seq::empty()
    } else {
        let earlier = spec_expired_players(checks.drop_last());
        if checks.last() == PresenceCheck::Expired {
            earlier.push((checks.len() - 1) as usize)
        } else {
            earlier
        }
    }
}

/// The players to disconnect, given the answers for the players in order.
pub fn expired_players(checks: &[PresenceCheck]) -> (r: Vec<usize>)
    ensures
        r@ == spec_expired_players(checks@),
{
    let n = checks.len();
    let mut r: Vec<usize> = Vec::new();
    let mut i: usize = 0;
    assert(checks@.subrange(0, 0) =~= Seq::<PresenceCheck>::empty());
    while i < n
        invariant
            n == checks@.len(),
            i <= n,
            r@ == spec_expired_players(checks@.subrange(0, i as int)),
        decreases n - i,
    {
        let ghost next = checks@.subrange(0, i + 1);
        assert(next.drop_last() =~= checks@.subrange(0, i as int));
        if checks[i] == PresenceCheck::Expired {
            r.push(i);
        }
        i = i + 1;
    }
    assert(checks@.subrange(0, n as int) =~= checks@);
    r
}

/// A player is let go exactly when its presence expired: one that is still
/// present, or whose presence could not be checked, stays connected.
pub proof fn lemma_only_expired_players_leave(checks: Seq<PresenceCheck>, i: int)
    requires
        0 <= i < checks.len(),
        checks.len() <= usize::MAX,
    ensures
        spec_expired_players(checks).contains(i as usize) <==> checks[i]
            == PresenceCheck::Expired,
    decreases checks.len(),
{
    let earlier = spec_expired_players(checks.drop_last());
    let pushed = earlier.push((checks.len() - 1) as usize);
    lemma_expired_below(checks.drop_last());
    if i < checks.len() - 1 {
        lemma_only_expired_players_leave(checks.drop_last(), i);
        if checks.last() == PresenceCheck::Expired {
            assert(pushed.contains(i as usize) <==> earlier.contains(i as usize)) by {
                if pushed.contains(i as usize) {
                    let k = choose|k: int| 0 <= k < pushed.len() && #[trigger] pushed[k] == i as usize;
                    if k < earlier.len() {
                        assert(earlier[k] == i as usize);
                    }
                }
                if earlier.contains(i as usize) {
                    let k = choose|k: int| 0 <= k < earlier.len() && #[trigger] earlier[k] == i as usize;
                    assert(pushed[k] == i as usize);
                }
            }
        }
    } else {
        if checks.last() == PresenceCheck::Expired {
            assert(pushed[earlier.len() as int] == i as usize);
        } else if earlier.contains(i as usize) {
            let k = choose|k: int| 0 <= k < earlier.len() && #[trigger] earlier[k] == i as usize;
            assert(earlier[k] < checks.len() - 1);
        }
    }
}

/// Every position in the answer lies below the number of players.
proof fn lemma_expired_below(checks: Seq<PresenceCheck>)
    requires
        checks.len() <= usize::MAX,
    ensures
        forall|k: int|
            0 <= k < spec_expired_players(checks).len() ==> (#[trigger] spec_expired_players(
                checks,
            )[k]) < checks.len(),
    decreases checks.len(),
{
    if checks.len() > 0 {
        lemma_expired_below(checks.drop_last());
        let earlier = spec_expired_players(checks.drop_last());
        if checks.last() == PresenceCheck::Expired {
            let pushed = earlier.push((checks.len() - 1) as usize);
            assert forall|k: int| 0 <= k < pushed.len() implies #[trigger] pushed[k]
                < checks.len() by {
                if k < earlier.len() {
                    assert(pushed[k] == earlier[k]);
                }
            }
        }
    }
}

} // verus!
