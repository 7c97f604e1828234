//! Crowd-control kinds (the rulebook for movement and cast gates) and the
//! set of active effects on one entity.

use vstd::prelude::*;

verus! {

/// Kinds of hard crowd control an entity can suffer.
///
/// Slow is a movement-speed modifier, not a kind.
#[derive(Debug, Clone, Copy, PartialEq, Eq, Structural, Hash)]
pub enum CrowdControlKind {
    /// Fully blocks movement and casting until expiry.
    Stun,
    /// Blocks movement but not casting.
    Root,
    /// Blocks casting but not movement.
    Silence,
}

impl Default for CrowdControlKind {
    fn default() -> (r: CrowdControlKind)
        ensures
            r == CrowdControlKind::Stun,
    {
        CrowdControlKind::Stun
    }
}

impl CrowdControlKind {
    /// The kind suppresses all actions (movement and casting).
    pub open spec fn blocks_all(self) -> bool {
        self == CrowdControlKind::Stun
    }

    /// The kind freezes movement.
    pub open spec fn freezes(self) -> bool {
        self == CrowdControlKind::Stun || self == CrowdControlKind::Root
    }

    /// The kind gags casting.
    pub open spec fn gags(self) -> bool {
        self == CrowdControlKind::Stun || self == CrowdControlKind::Silence
    }

    /// Returns `true` when this kind suppresses all actions.
    pub fn is_blocking(self) -> (r: bool)
        ensures
            r == self.blocks_all(),
    {
        match self {
            CrowdControlKind::Stun => true,
            _ => false,
        }
    }

    /// Movement is frozen (stun or root).
    pub fn blocks_movement(self) -> (r: bool)
        ensures
            r == self.freezes(),
    {
        match self {
            CrowdControlKind::Stun | CrowdControlKind::Root => true,
            CrowdControlKind::Silence => false,
        }
    }

    /// Casting is gagged (stun or silence).
    pub fn blocks_casting(self) -> (r: bool)
        ensures
            r == self.gags(),
    {
        match self {
            CrowdControlKind::Stun | CrowdControlKind::Silence => true,
            CrowdControlKind::Root => false,
        }
    }

    /// Tie-break rank on the world bar: Stun outranks Silence outranks Root.
    pub open spec fn rank(self) -> u8 {
        match self {
            CrowdControlKind::Stun => 3,
            CrowdControlKind::Silence => 2,
            CrowdControlKind::Root => 1,
        }
    }

    /// Tie-break when two effects have the same remaining time on the world bar.
    pub fn world_bar_priority(self) -> (r: u8)
        ensures
            r == self.rank(),
    {
        match self {
            CrowdControlKind::Stun => 3,
            CrowdControlKind::Silence => 2,
            CrowdControlKind::Root => 1,
        }
    }
}

/// One active effect on an entity. `D` is the timer type (seconds in game).
///
/// `total_seconds` is kept beside `remaining_seconds` so a bar can be drawn
/// as a stable ratio.
#[derive(Debug, Clone, PartialEq)]
pub struct ActiveCrowdControl<D> {
    pub kind: CrowdControlKind,
    pub remaining_seconds: D,
    pub total_seconds: D,
}

/// Every active effect on one entity. At most one effect per kind: applying
/// a kind that is already present refreshes it instead of stacking.
#[derive(Debug, Clone, PartialEq)]
pub struct CrowdControlState<D> {
    pub effects: Vec<ActiveCrowdControl<D>>,
}

impl<D> Default for CrowdControlState<D> {
    fn default() -> (r: CrowdControlState<D>)
        ensures
            r.effects@.len() == 0,
    {
        CrowdControlState { effects: Vec::new() }
    }
}

/// Which actions a crowd-control gate asks about.
#[derive(Clone, Copy)]
enum Gate {
    /// Every action (a stun).
    All,
    Movement,
    Casting,
}

impl Gate {
    /// The kinds that close this gate.
    spec fn closed_by(self) -> spec_fn(CrowdControlKind) -> bool {
        match self {
            Gate::All => |k: CrowdControlKind| k.blocks_all(),
            Gate::Movement => |k: CrowdControlKind| k.freezes(),
            Gate::Casting => |k: CrowdControlKind| k.gags(),
        }
    }
}

/// `i` is the first effect of `kind` in `effects`.
pub open spec fn first_of_kind<D>(effects: Seq<ActiveCrowdControl<D>>, kind: CrowdControlKind, i: int) -> bool {
    &&& 0 <= i < effects.len()
    &&& effects[i].kind == kind
    &&& forall|j: int| 0 <= j < i ==> effects[j].kind != kind
}

/// No effect in `effects` has `kind`.
pub open spec fn lacks_kind<D>(effects: Seq<ActiveCrowdControl<D>>, kind: CrowdControlKind) -> bool {
    forall|j: int| 0 <= j < effects.len() ==> effects[j].kind != kind
}

impl<D: Copy> CrowdControlState<D> {
    /// No two effects share a kind.
    pub open spec fn kinds_distinct(self) -> bool {
        forall|i: int, j: int|
            0 <= i < j < self.effects@.len() ==> self.effects@[i].kind != self.effects@[j].kind
    }

    /// Some active effect satisfies `p`.
    pub open spec fn any_effect(self, p: spec_fn(CrowdControlKind) -> bool) -> bool {
        exists|i: int| 0 <= i < self.effects@.len() && #[trigger] p(self.effects@[i].kind)
    }

    /// Returns `true` when no effect is active.
    pub fn is_empty(&self) -> (r: bool)
        ensures
            r == (self.effects@.len() == 0),
    {
        self.effects.len() == 0
    }

    fn any_kind(&self, gate: Gate) -> (r: bool)
        ensures
            r == self.any_effect(gate.closed_by()),
    {
        let ghost p = gate.closed_by();
        for i in 0..self.effects.len()
            invariant
                p == gate.closed_by(),
                forall|j: int| 0 <= j < i ==> !#[trigger] p(self.effects@[j].kind),
        {
            let kind = self.effects[i].kind;
            let hit = match gate {
                Gate::All => kind.is_blocking(),
                Gate::Movement => kind.blocks_movement(),
                Gate::Casting => kind.blocks_casting(),
            };
            if hit {
                proof {
                    assert(p(self.effects@[i as int].kind));
                }
                return true;
            }
        }
        false
    }

    /// Returns `true` if any active effect blocks all actions (a stun).
    pub fn has_blocking_cc(&self) -> (r: bool)
        ensures
            r == self.any_effect(|k: CrowdControlKind| k.blocks_all()),
    {
        self.any_kind(Gate::All)
    }

    /// True when stun or root is currently freezing movement.
    pub fn blocks_movement(&self) -> (r: bool)
        ensures
            r == self.any_effect(|k: CrowdControlKind| k.freezes()),
    {
        self.any_kind(Gate::Movement)
    }

    /// True when stun or silence is currently gagging casts.
    pub fn blocks_casting(&self) -> (r: bool)
        ensures
            r == self.any_effect(|k: CrowdControlKind| k.gags()),
    {
        self.any_kind(Gate::Casting)
    }

    /// Refreshes (or inserts) an effect of the given kind.
    ///
    /// An effect of the same kind has both its timers reset to `duration`;
    /// otherwise a new effect is appended. Refreshing rather than stacking
    /// keeps durations bounded.
    pub fn apply(&mut self, kind: CrowdControlKind, duration_seconds: D)
        ensures
            forall|i: int| #[trigger] first_of_kind(old(self).effects@, kind, i) ==> final(self).effects@
                == old(self).effects@.update(
                i,
                ActiveCrowdControl { kind, remaining_seconds: duration_seconds, total_seconds: duration_seconds },
            ),
            lacks_kind(old(self).effects@, kind) ==> final(self).effects@ == old(self).effects@.push(
                ActiveCrowdControl { kind, remaining_seconds: duration_seconds, total_seconds: duration_seconds },
            ),
            old(self).kinds_distinct() ==> final(self).kinds_distinct(),
            exists|i: int|
                0 <= i < final(self).effects@.len() && #[trigger] final(self).effects@[i] == (ActiveCrowdControl {
                    kind,
                    remaining_seconds: duration_seconds,
                    total_seconds: duration_seconds,
                }),
    {
        let n = self.effects.len();
        for i in 0..n
            invariant
                n == self.effects@.len(),
                self.effects@ == old(self).effects@,
                forall|j: int| 0 <= j < i ==> self.effects@[j].kind != kind,
        {
            if self.effects[i].kind == kind {
                let ghost before = self.effects@;
                let fresh = ActiveCrowdControl { kind, remaining_seconds: duration_seconds, total_seconds: duration_seconds };
                self.effects.set(i, fresh);
                proof {
                    assert forall|k: int| #[trigger] first_of_kind(before, kind, k) implies k == i by {
                        if k < i {
                        } else if k > i {
                            assert(before[i as int].kind == kind);
                        }
                    }
                    if before.len() > 0 && old(self).kinds_distinct() {
                        assert forall|a: int, b: int| 0 <= a < b < self.effects@.len() implies self.effects@[a].kind
                            != self.effects@[b].kind by {
                            if a == i as int {
                                assert(before[b].kind != before[a].kind);
                            } else if b == i as int {
                                assert(before[a].kind != before[b].kind);
                            }
                        }
                    }
                    assert(self.effects@[i as int] == fresh);
                }
                return;
            }
        }
        self.effects.push(ActiveCrowdControl { kind, remaining_seconds: duration_seconds, total_seconds: duration_seconds });
        proof {
            assert forall|k: int| !#[trigger] first_of_kind(old(self).effects@, kind, k) by {}
            assert(self.effects@[self.effects@.len() - 1] == ActiveCrowdControl {
                kind,
                remaining_seconds: duration_seconds,
                total_seconds: duration_seconds,
            });
        }
    }
}

/// A kind blocks every action exactly when it freezes movement and gags
/// casting; every hard control blocks at least one of the two; and the stun
/// is the kind that blocks every action.
pub proof fn lemma_stun_blocks_movement_and_casting(k: CrowdControlKind)
    ensures
        k.blocks_all() <==> (k.freezes() && k.gags()),
        k.freezes() || k.gags(),
        k.blocks_all() <==> k == CrowdControlKind::Stun,
        k.freezes() && !k.gags() <==> k == CrowdControlKind::Root,
        k.gags() && !k.freezes() <==> k == CrowdControlKind::Silence,
{
}

/// A state holding an effect of a kind is closed by every gate that kind
/// closes: holding a stun blocks movement, casting and every action.
pub proof fn lemma_held_kind_closes_its_gates<D: Copy>(state: CrowdControlState<D>, i: int)
    requires
        0 <= i < state.effects@.len(),
    ensures
        state.effects@[i].kind.freezes() ==> state.any_effect(|k: CrowdControlKind| k.freezes()),
        state.effects@[i].kind.gags() ==> state.any_effect(|k: CrowdControlKind| k.gags()),
        state.effects@[i].kind.blocks_all() ==> state.any_effect(|k: CrowdControlKind| k.blocks_all()),
        state.effects@[i].kind == CrowdControlKind::Stun ==> state.any_effect(|k: CrowdControlKind| k.freezes())
            && state.any_effect(|k: CrowdControlKind| k.gags()) && state.any_effect(
            |k: CrowdControlKind| k.blocks_all(),
        ),
{
    let fz = |k: CrowdControlKind| k.freezes();
    let gg = |k: CrowdControlKind| k.gags();
    let ba = |k: CrowdControlKind| k.blocks_all();
    assert(fz(state.effects@[i].kind) == state.effects@[i].kind.freezes());
    assert(gg(state.effects@[i].kind) == state.effects@[i].kind.gags());
    assert(ba(state.effects@[i].kind) == state.effects@[i].kind.blocks_all());
}

} // verus!
