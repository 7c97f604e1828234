//! Plain data returned by placeable definitions.

use vstd::prelude::*;

use crate::abilities::AbilityId;
use crate::items::ItemCategory;

verus! {

/// Normal trash versus a named encounter that owns an arena.
#[derive(Debug, Clone, Copy, PartialEq, Eq, Structural)]
pub enum EnemyRank {
    Normal,
    Boss,
}

impl Default for EnemyRank {
    fn default() -> (r: EnemyRank)
        ensures
            r == EnemyRank::Normal,
    {
        EnemyRank::Normal
    }
}

/// Interaction offered by an NPC or an interactable object.
#[derive(Debug, Clone, PartialEq)]
pub enum InteractionKind {
    /// Opens a shop inventory. `inventory_id` references a content table.
    Shop { inventory_id: String },
    /// Opens an isolated player market.
    Market { market_id: String },
    /// Opens a dialogue tree.
    Dialogue { dialogue_tree_id: String },
    /// Opens a crafting bench for one or more item categories.
    Craft { categories: Vec<ItemCategory> },
    /// Opens a chest and rolls the given loot table.
    OpenChest { loot_table_id: String },
    /// Toggles a door (open or closed).
    OpenDoor,
}

/// Which visual the client should build for a placeable kind.
#[derive(Debug, Clone)]
pub enum AssetHint {
    /// Render as a placeholder colored cuboid.
    Placeholder,
    /// Load a scene at the given relative path.
    Scene(&'static str),
    /// Marker-only placement: no visual mesh.
    Invisible,
}

/// One ability on an enemy kit: a shared base ability, the kit's
/// inscription `I` and the gates `U` that say when the AI may use it.
#[derive(Debug, Clone)]
pub struct AbilityKitEntry<I, U> {
    pub ability_id: AbilityId,
    pub inscription: I,
    /// Range / HP / priority gates. [`AbilityKitEntry::new`] uses the
    /// default gates.
    pub use_when: U,
}

impl<I: Default, U: Default> AbilityKitEntry<I, U> {
    /// A bare gesture: default inscription and default gates.
    pub fn new(ability_id: &str) -> (r: AbilityKitEntry<I, U>)
        ensures
            r.ability_id@ == ability_id@,
            call_ensures(I::default, (), r.inscription),
            call_ensures(U::default, (), r.use_when),
    {
        AbilityKitEntry { ability_id: AbilityId::new(ability_id), inscription: I::default(), use_when: U::default() }
    }
}

impl<I, U> AbilityKitEntry<I, U> {
    /// Replaces the use-when gates.
    pub fn with_use(self, use_when: U) -> (r: AbilityKitEntry<I, U>)
        ensures
            r == (AbilityKitEntry { use_when, ..self }),
    {
        AbilityKitEntry { use_when, ..self }
    }

    /// Same as [`AbilityKitEntry::with_use`].
    pub fn with_use_when(self, use_when: U) -> (r: AbilityKitEntry<I, U>)
        ensures
            r == (AbilityKitEntry { use_when, ..self }),
    {
        self.with_use(use_when)
    }
}

} // verus!
