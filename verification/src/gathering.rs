//! Yield of one completed gathering channel.

use vstd::prelude::*;

verus! {

/// Inputs for one completed channel.
#[derive(Debug, Clone, Copy, PartialEq, Eq, Structural)]
pub struct GatherAttempt {
    pub yield_amount: u32,
    pub bonus_extra: u32,
    pub current_pieces: u32,
    pub inventory_space: u32,
}

/// Result of one completed channel. `granted == 0` means the session should
/// end without mutating the node.
#[derive(Debug, Clone, Copy, PartialEq, Eq, Structural)]
pub struct GatherOutcome {
    pub granted: u32,
    pub extra: u32,
    pub remaining_pieces: u32,
    pub node_depleted: bool,
    pub session_ends: bool,
}

/// Pieces a channel grants: the yield plus the bonus (saturating), capped by
/// what the node holds and by the room in the bag.
pub open spec fn granted_pieces(attempt: GatherAttempt) -> nat {
    let wanted = if attempt.yield_amount + attempt.bonus_extra > u32::MAX {
        u32::MAX as nat
    } else {
        (attempt.yield_amount + attempt.bonus_extra) as nat
    };
    let by_node = if wanted < attempt.current_pieces { wanted } else { attempt.current_pieces as nat };
    if by_node < attempt.inventory_space { by_node } else { attempt.inventory_space as nat }
}

/// Applies yield, bonus, remaining pieces and bag space in one step.
pub fn resolve_gather(attempt: GatherAttempt) -> (r: GatherOutcome)
    ensures
        r.granted == granted_pieces(attempt),
        r.granted == 0 ==> r.extra == 0 && r.remaining_pieces == attempt.current_pieces
            && r.node_depleted == (attempt.current_pieces == 0) && r.session_ends,
        r.granted > 0 ==> r.extra == (if r.granted > attempt.yield_amount { r.granted - attempt.yield_amount } else { 0 })
            && r.remaining_pieces == attempt.current_pieces - r.granted
            && r.node_depleted == (r.remaining_pieces == 0)
            && r.session_ends == (r.remaining_pieces == 0 || attempt.inventory_space == r.granted),
        r.granted <= attempt.current_pieces,
        r.granted <= attempt.inventory_space,
        r.remaining_pieces + r.granted == attempt.current_pieces,
        attempt.yield_amount + attempt.bonus_extra <= attempt.current_pieces && attempt.yield_amount
            + attempt.bonus_extra <= attempt.inventory_space ==> r.granted == attempt.yield_amount
            + attempt.bonus_extra && r.extra == attempt.bonus_extra,
{
    let wanted = attempt.yield_amount.saturating_add(attempt.bonus_extra);
    let by_node = if wanted < attempt.current_pieces { wanted } else { attempt.current_pieces };
    let granted = if by_node < attempt.inventory_space { by_node } else { attempt.inventory_space };
    if granted == 0 {
        return GatherOutcome {
            granted: 0,
            extra: 0,
            remaining_pieces: attempt.current_pieces,
            node_depleted: attempt.current_pieces == 0,
            session_ends: true,
        };
    }
    let remaining = attempt.current_pieces - granted;
    let extra = granted.saturating_sub(attempt.yield_amount);
    GatherOutcome {
        granted,
        extra,
        remaining_pieces: remaining,
        node_depleted: remaining == 0,
        session_ends: remaining == 0 || attempt.inventory_space - granted == 0,
    }
}

/// A channel grants the whole yield plus the whole bonus whenever the node
/// and the bag both hold that many; in general it grants no more than the
/// yield plus the bonus, the node's pieces or the bag's room, and exactly
/// the smallest of the three (the yield plus the bonus saturating at
/// `u32::MAX`).
pub proof fn lemma_gather_grants_yield_plus_bonus(attempt: GatherAttempt)
    ensures
        attempt.yield_amount + attempt.bonus_extra <= attempt.current_pieces
            && attempt.yield_amount + attempt.bonus_extra <= attempt.inventory_space ==> granted_pieces(attempt)
            == attempt.yield_amount + attempt.bonus_extra,
        granted_pieces(attempt) <= attempt.yield_amount + attempt.bonus_extra,
        granted_pieces(attempt) <= attempt.current_pieces,
        granted_pieces(attempt) <= attempt.inventory_space,
        granted_pieces(attempt) == attempt.current_pieces || granted_pieces(attempt) == attempt.inventory_space
            || granted_pieces(attempt) == attempt.yield_amount + attempt.bonus_extra
            || granted_pieces(attempt) == u32::MAX,
{
}

/// The pieces a channel grants beyond the yield are exactly the bonus when
/// the node and the bag hold the whole yield plus bonus.
pub proof fn lemma_gather_extra_is_the_bonus(attempt: GatherAttempt, outcome: GatherOutcome)
    requires
        outcome.granted == granted_pieces(attempt),
        outcome.granted > 0 ==> outcome.extra == (if outcome.granted > attempt.yield_amount {
            outcome.granted - attempt.yield_amount
        } else {
            0
        }),
        attempt.yield_amount + attempt.bonus_extra > 0,
        attempt.yield_amount + attempt.bonus_extra <= attempt.current_pieces,
        attempt.yield_amount + attempt.bonus_extra <= attempt.inventory_space,
    ensures
        outcome.granted == attempt.yield_amount + attempt.bonus_extra,
        outcome.extra == attempt.bonus_extra,
{
}

} // verus!
