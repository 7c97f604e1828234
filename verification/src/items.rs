//! Item identity and per-instance data: the ids, the catalogue enums and
//! the physical copy of an item that sits in a bag or an equipment slot.

use vstd::prelude::*;

use crate::abilities::{AbilitySelection, WeaponInscription};

verus! {

/// Unique identifier of an item type, such as `"iron_sword"` or `"wood"`.
#[derive(Debug, Clone, PartialEq, Eq, Hash)]
pub struct ItemId(pub String);

impl View for ItemId {
    type V = Seq<char>;

    open spec fn view(&self) -> Seq<char> {
        self.0@
    }
}

impl ItemId {
    /// Builds an id from its text.
    pub fn new(id: &str) -> (r: ItemId)
        ensures
            r@ == id@,
    {
        ItemId(id.to_owned())
    }

    /// Underlying string value.
    pub fn as_str(&self) -> (r: &str)
        ensures
            r@ == self@,
    {
        self.0.as_str()
    }

    /// A copy carrying the same text.
    pub fn duplicate(&self) -> (r: ItemId)
        ensures
            r == *self,
    {
        ItemId(self.0.clone())
    }

    /// Whether two ids name the same item type.
    pub fn same_as(&self, other: &ItemId) -> (r: bool)
        ensures
            r == (self@ == other@),
    {
        self.0 == other.0
    }
}

impl From<&'static str> for ItemId {
    /// The id whose text is `value`, as [`ItemId::new`] builds it.
    fn from(value: &'static str) -> (r: ItemId)
        ensures
            r@ == value@,
    {
        ItemId::new(value)
    }
}

/// Two strings with the same text are not provably one value, so the
/// conversion is specified by its view, on `from` above, and not through
/// `from_spec`.
impl vstd::std_specs::convert::FromSpecImpl<&'static str> for ItemId {
    open spec fn obeys_from_spec() -> bool {
        false
    }

    open spec fn from_spec(v: &'static str) -> ItemId {
        choose|id: ItemId| id@ == v@
    }
}

/// Narrative category, used for filtering and for the bag's stacking rule.
#[derive(Debug, Clone, Copy, PartialEq, Eq, Structural, Hash)]
pub enum ItemCategory {
    Weapon,
    Armor,
    Consumable,
    Material,
    Quest,
    /// Worn utility items that are neither weapon nor armor (bag, cape, mount).
    Accessory,
    /// Equippable gathering tools (axe, hammer).
    Tool,
}

/// Cosmetic rarity driving the slot border color.
#[derive(Debug, Clone, Copy, PartialEq, Eq, Structural, Hash)]
pub enum ItemRarity {
    Common,
    Uncommon,
    Rare,
    Epic,
    Legendary,
}

/// Equip rule an item may declare.
#[derive(Debug, Clone, Copy, PartialEq, Eq, Structural, Hash)]
pub enum EquipRequirement {
    /// Minimum player level to equip the item.
    MinLevel { value: u32 },
}

/// Kind of gathering tool: the match key between an item and a resource node.
#[derive(Debug, Clone, Copy, PartialEq, Eq, Structural, Hash)]
pub enum GatheringToolKind {
    Axe,
    Hammer,
}

/// Identity of one physical copy of an item.
#[derive(Debug, Clone, Copy, PartialEq, Eq, Structural, Hash)]
pub struct ItemInstanceId(pub u64);

impl ItemInstanceId {
    /// The id a copy carries before the database has issued one.
    pub open spec fn unassigned_spec() -> ItemInstanceId {
        ItemInstanceId(0)
    }

    /// The id a copy carries before the database has issued one.
    #[verifier::when_used_as_spec(unassigned_spec)]
    pub fn unassigned() -> (r: ItemInstanceId)
        ensures
            r == ItemInstanceId::unassigned_spec(),
    {
        ItemInstanceId(0)
    }
}

/// One physical copy (or pile) of an item.
///
/// A pile is mergeable with another pile of the same item type only while it
/// carries no personalisation: no ability picks and no inscription.
#[derive(Debug, Clone, PartialEq)]
pub struct ItemInstance {
    pub instance_id: ItemInstanceId,
    pub item_id: ItemId,
    pub quantity: u32,
    pub ability_selection: AbilitySelection,
    pub root_inscription: Option<WeaponInscription>,
}

impl ItemInstance {
    /// No personalisation: the pile may merge with others of its item type.
    pub open spec fn mergeable(self) -> bool {
        &&& self.root_inscription is None
        &&& self.ability_selection.is_empty_spec()
    }

    /// A freshly created pile of `quantity` pieces of `id`.
    pub open spec fn is_fresh_pile(self, id: Seq<char>, quantity: nat) -> bool {
        &&& self.item_id@ == id
        &&& self.quantity == quantity
        &&& self.root_inscription is None
        &&& self.ability_selection.is_empty_spec()
    }

    /// The same pile with another quantity.
    pub open spec fn with_quantity(self, quantity: u32) -> ItemInstance {
        ItemInstance { quantity, ..self }
    }

    /// One uninscribed piece of `item_id`, id not yet assigned.
    pub fn new(item_id: ItemId) -> (r: ItemInstance)
        ensures
            r.item_id == item_id,
            r.instance_id == ItemInstanceId::unassigned_spec(),
            r.is_fresh_pile(item_id@, 1),
    {
        ItemInstance {
            instance_id: ItemInstanceId::unassigned(),
            item_id,
            quantity: 1,
            ability_selection: AbilitySelection::default(),
            root_inscription: None,
        }
    }

    /// Whether this pile may merge with another pile of the same item type.
    pub fn is_stack_mergeable(&self) -> (r: bool)
        ensures
            r == self.mergeable(),
    {
        self.root_inscription.is_none() && self.ability_selection.is_empty()
    }

    /// A copy with every field equal, inscription and ability picks included.
    pub fn duplicate(&self) -> (r: ItemInstance)
        ensures
            r == *self,
    {
        ItemInstance {
            instance_id: self.instance_id,
            item_id: self.item_id.duplicate(),
            quantity: self.quantity,
            ability_selection: self.ability_selection.duplicate(),
            root_inscription: match &self.root_inscription {
                Some(inscription) => Some(inscription.duplicate()),
                None => None,
            },
        }
    }
}

/// A verified copy of an optional pile.
pub fn duplicate_slot(slot: &Option<ItemInstance>) -> (r: Option<ItemInstance>)
    ensures
        r == *slot,
{
    match slot {
        Some(item) => Some(item.duplicate()),
        None => None,
    }
}

} // verus!
