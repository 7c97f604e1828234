//! Movement decisions shared by the server tick and the client prediction.

use vstd::prelude::*;

verus! {

/// What an active cast does to a `move_to` request.
///
/// CastTime and Channel still accept a destination so movement can cancel
/// the wind-up or an interruptible channel.
#[derive(Debug, Clone, Copy, PartialEq, Eq, Structural)]
pub enum MovementLock {
    /// No cast holds the character.
    Free,
    CastTime,
    Channel,
}

/// Whether the player may issue a new destination.
///
/// `cc_blocks` covers Stun and Root. CastTime and Channel are allowed so a
/// click can interrupt.
pub fn movement_intent_allowed(lock: MovementLock, cc_blocks: bool) -> (r: bool)
    ensures
        r == !cc_blocks,
{
    if cc_blocks {
        return false;
    }
    match lock {
        MovementLock::Free | MovementLock::Channel | MovementLock::CastTime => true,
    }
}

/// Destination the local client should step towards this frame: nothing
/// under crowd control; a pending click while the right button is held;
/// otherwise nothing right after a cast planted the character, and the
/// server's destination the rest of the time.
pub open spec fn predicted_dest<P>(
    pending: Option<P>,
    authoritative: Option<P>,
    right_mouse_held: bool,
    cc_blocks: bool,
    planted: bool,
) -> Option<P> {
    if cc_blocks {
        None
    } else if right_mouse_held && pending is Some {
        pending
    } else if planted {
        None
    } else {
        authoritative
    }
}

/// Destination the local client should step towards this frame.
///
/// A crowd-control block yields nothing, even while the server destination
/// has not cleared yet. `planted` is true on the frames after a CastTime or
/// Channel start, before the leftover destination has replicated as
/// cleared: a held right click still walks (so the player can interrupt),
/// but the leftover destination is ignored. Otherwise a held click prefers
/// the pending click, and without one the server destination is followed,
/// so a cancelled destination is not resumed.
pub fn predicted_move_dest<P>(
    pending: Option<P>,
    authoritative: Option<P>,
    lock: MovementLock,
    right_mouse_held: bool,
    cc_blocks: bool,
    planted: bool,
) -> (r: Option<P>)
    ensures
        r == predicted_dest(pending, authoritative, right_mouse_held, cc_blocks, planted),
        !cc_blocks && !planted && pending is None ==> r == authoritative,
{
    if !movement_intent_allowed(lock, cc_blocks) {
        return None;
    }
    if planted && !right_mouse_held {
        return None;
    }
    if right_mouse_held {
        match pending {
            Some(p) => Some(p),
            None => if planted {
                None
            } else {
                authoritative
            },
        }
    } else {
        authoritative
    }
}

/// What to do with the gap between predicted and authoritative position.
#[derive(Debug, Clone, Copy, PartialEq, Eq, Structural)]
pub enum Reconcile {
    /// Leave the predicted pose alone this frame.
    Leave,
    /// Ease toward the last server pose.
    Ease,
    /// Snap onto the last server pose.
    Snap,
}

/// Whether a predicted pose should be corrected toward the last server pose,
/// given how the drift between them compares with the snap distance and
/// with the idle slack.
///
/// A drift beyond the snap distance always snaps. Otherwise, while a
/// destination is live the predicted step owns the motion and is left
/// alone; once it is gone, a drift inside the slack is ordinary prediction
/// lead and is left alone too, and a larger one eases back.
pub fn reconcile_decision(drift_beyond_snap: bool, dest_live: bool, drift_within_slack: bool) -> (r: Reconcile)
    ensures
        drift_beyond_snap ==> r == Reconcile::Snap,
        !drift_beyond_snap && dest_live ==> r == Reconcile::Leave,
        !drift_beyond_snap && !dest_live && drift_within_slack ==> r == Reconcile::Leave,
        !drift_beyond_snap && !dest_live && !drift_within_slack ==> r == Reconcile::Ease,
{
    if drift_beyond_snap {
        return Reconcile::Snap;
    }
    if dest_live {
        return Reconcile::Leave;
    }
    if drift_within_slack {
        Reconcile::Leave
    } else {
        Reconcile::Ease
    }
}

/// Whether a newly aimed cast should turn the character to face its target.
///
/// Instant casts while walking must not; a standing character always does,
/// and CastTime or Channel casts do even while moving.
pub fn should_face_cast_target(moving: bool, lock: MovementLock) -> (r: bool)
    ensures
        r == (!moving || lock == MovementLock::CastTime || lock == MovementLock::Channel),
{
    if !moving {
        return true;
    }
    match lock {
        MovementLock::CastTime | MovementLock::Channel => true,
        MovementLock::Free => false,
    }
}

/// How the client's destination follows its inputs, over every input:
/// crowd control always stops the character; a pending click wins while
/// the right button is held; without a pending click the server's
/// destination is followed unless a cast has just planted the character,
/// whether or not the button is held; and a planted character without a
/// pending click under a held button goes nowhere.
pub proof fn lemma_predicted_dest_follows_the_server<P>(
    pending: Option<P>,
    authoritative: Option<P>,
    right_mouse_held: bool,
    cc_blocks: bool,
    planted: bool,
)
    ensures
        cc_blocks ==> predicted_dest(pending, authoritative, right_mouse_held, cc_blocks, planted) is None,
        !cc_blocks && right_mouse_held && pending is Some ==> predicted_dest(
            pending,
            authoritative,
            right_mouse_held,
            cc_blocks,
            planted,
        ) == pending,
        !cc_blocks && !planted && pending is None ==> predicted_dest(
            pending,
            authoritative,
            right_mouse_held,
            cc_blocks,
            planted,
        ) == authoritative,
        !cc_blocks && !planted && !right_mouse_held ==> predicted_dest(
            pending,
            authoritative,
            right_mouse_held,
            cc_blocks,
            planted,
        ) == authoritative,
        planted && !(right_mouse_held && pending is Some) ==> predicted_dest(
            pending,
            authoritative,
            right_mouse_held,
            cc_blocks,
            planted,
        ) is None,
        predicted_dest(pending, authoritative, right_mouse_held, cc_blocks, planted) is Some ==> predicted_dest(
            pending,
            authoritative,
            right_mouse_held,
            cc_blocks,
            planted,
        ) == pending || predicted_dest(pending, authoritative, right_mouse_held, cc_blocks, planted)
            == authoritative,
{
}

} // verus!
