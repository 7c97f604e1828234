//! Outcomes of the combat formulas that the library names.

use vstd::prelude::*;

verus! {

/// The caster does not have enough current mana for this cost.
#[derive(Debug, Clone, Copy, PartialEq, Eq, Structural)]
pub struct InsufficientMana;

} // verus!
