//! Equipment: one optional item copy per body or utility slot.

use vstd::prelude::*;

use crate::items::{ItemInstance, ItemInstanceId};

verus! {

/// Dedicated equipment slot.
#[derive(Debug, Clone, Copy, PartialEq, Eq, Structural, Hash)]
pub enum EquipSlot {
    Bag,
    Helmet,
    Cape,
    Weapon,
    Armor,
    Offhand,
    Potion,
    Shoes,
    Food,
    Mount,
}

/// Number of equipment slots.
pub const EQUIP_SLOT_COUNT: usize = 10;

/// The slot at position `i` of the display order.
pub open spec fn slot_order(i: int) -> EquipSlot {
    if i == 0 {
        EquipSlot::Bag
    } else if i == 1 {
        EquipSlot::Helmet
    } else if i == 2 {
        EquipSlot::Cape
    } else if i == 3 {
        EquipSlot::Weapon
    } else if i == 4 {
        EquipSlot::Armor
    } else if i == 5 {
        EquipSlot::Offhand
    } else if i == 6 {
        EquipSlot::Potion
    } else if i == 7 {
        EquipSlot::Shoes
    } else if i == 8 {
        EquipSlot::Food
    } else {
        EquipSlot::Mount
    }
}

/// Position of `slot` in the display order.
pub open spec fn slot_position(slot: EquipSlot) -> int {
    match slot {
        EquipSlot::Bag => 0,
        EquipSlot::Helmet => 1,
        EquipSlot::Cape => 2,
        EquipSlot::Weapon => 3,
        EquipSlot::Armor => 4,
        EquipSlot::Offhand => 5,
        EquipSlot::Potion => 6,
        EquipSlot::Shoes => 7,
        EquipSlot::Food => 8,
        EquipSlot::Mount => 9,
    }
}

impl Default for EquipSlot {
    fn default() -> (r: EquipSlot)
        ensures
            r == EquipSlot::Weapon,
    {
        EquipSlot::Weapon
    }
}

impl EquipSlot {
    /// Every equip slot, in the display order used by the inventory UI.
    pub const ALL: [EquipSlot; EQUIP_SLOT_COUNT] = [
        EquipSlot::Bag,
        EquipSlot::Helmet,
        EquipSlot::Cape,
        EquipSlot::Weapon,
        EquipSlot::Armor,
        EquipSlot::Offhand,
        EquipSlot::Potion,
        EquipSlot::Shoes,
        EquipSlot::Food,
        EquipSlot::Mount,
    ];

    /// The slot at position `i` of the display order.
    pub fn at(i: usize) -> (r: EquipSlot)
        requires
            i < EQUIP_SLOT_COUNT,
        ensures
            r == slot_order(i as int),
            slot_position(r) == i,
    {
        if i == 0 {
            EquipSlot::Bag
        } else if i == 1 {
            EquipSlot::Helmet
        } else if i == 2 {
            EquipSlot::Cape
        } else if i == 3 {
            EquipSlot::Weapon
        } else if i == 4 {
            EquipSlot::Armor
        } else if i == 5 {
            EquipSlot::Offhand
        } else if i == 6 {
            EquipSlot::Potion
        } else if i == 7 {
            EquipSlot::Shoes
        } else if i == 8 {
            EquipSlot::Food
        } else {
            EquipSlot::Mount
        }
    }

    /// Short uppercase label shown above the slot box.
    pub open spec fn label_text(self) -> Seq<char> {
        match self {
            EquipSlot::Bag => "BAG"@,
            EquipSlot::Helmet => "HELMET"@,
            EquipSlot::Cape => "CAPE"@,
            EquipSlot::Weapon => "WEAPON"@,
            EquipSlot::Armor => "ARMOR"@,
            EquipSlot::Offhand => "OFFHAND"@,
            EquipSlot::Potion => "POTION"@,
            EquipSlot::Shoes => "SHOES"@,
            EquipSlot::Food => "FOOD"@,
            EquipSlot::Mount => "MOUNT"@,
        }
    }

    /// Short uppercase label shown above the slot box.
    pub fn label(&self) -> (r: &'static str)
        ensures
            r@ == self.label_text(),
    {
        match self {
            EquipSlot::Bag => "BAG",
            EquipSlot::Helmet => "HELMET",
            EquipSlot::Cape => "CAPE",
            EquipSlot::Weapon => "WEAPON",
            EquipSlot::Armor => "ARMOR",
            EquipSlot::Offhand => "OFFHAND",
            EquipSlot::Potion => "POTION",
            EquipSlot::Shoes => "SHOES",
            EquipSlot::Food => "FOOD",
            EquipSlot::Mount => "MOUNT",
        }
    }
}

/// Current equipment of a player: one optional item copy per [`EquipSlot`].
#[derive(Debug, Clone, PartialEq)]
pub struct Equipment {
    pub bag: Option<ItemInstance>,
    pub helmet: Option<ItemInstance>,
    pub cape: Option<ItemInstance>,
    pub weapon: Option<ItemInstance>,
    pub armor: Option<ItemInstance>,
    pub offhand: Option<ItemInstance>,
    pub potion: Option<ItemInstance>,
    pub shoes: Option<ItemInstance>,
    pub food: Option<ItemInstance>,
    pub mount: Option<ItemInstance>,
}

impl Default for Equipment {
    fn default() -> (r: Equipment)
        ensures
            forall|slot: EquipSlot| #[trigger] r.slot_item(slot) is None,
    {
        Equipment {
            bag: None,
            helmet: None,
            cape: None,
            weapon: None,
            armor: None,
            offhand: None,
            potion: None,
            shoes: None,
            food: None,
            mount: None,
        }
    }
}

impl Equipment {
    /// What `slot` holds.
    pub open spec fn slot_item(self, slot: EquipSlot) -> Option<ItemInstance> {
        match slot {
            EquipSlot::Bag => self.bag,
            EquipSlot::Helmet => self.helmet,
            EquipSlot::Cape => self.cape,
            EquipSlot::Weapon => self.weapon,
            EquipSlot::Armor => self.armor,
            EquipSlot::Offhand => self.offhand,
            EquipSlot::Potion => self.potion,
            EquipSlot::Shoes => self.shoes,
            EquipSlot::Food => self.food,
            EquipSlot::Mount => self.mount,
        }
    }

    /// The same equipment with `slot` holding `item` instead.
    pub open spec fn with_slot(self, slot: EquipSlot, item: Option<ItemInstance>) -> Equipment {
        match slot {
            EquipSlot::Bag => Equipment { bag: item, ..self },
            EquipSlot::Helmet => Equipment { helmet: item, ..self },
            EquipSlot::Cape => Equipment { cape: item, ..self },
            EquipSlot::Weapon => Equipment { weapon: item, ..self },
            EquipSlot::Armor => Equipment { armor: item, ..self },
            EquipSlot::Offhand => Equipment { offhand: item, ..self },
            EquipSlot::Potion => Equipment { potion: item, ..self },
            EquipSlot::Shoes => Equipment { shoes: item, ..self },
            EquipSlot::Food => Equipment { food: item, ..self },
            EquipSlot::Mount => Equipment { mount: item, ..self },
        }
    }

    /// The slots' contents in display order.
    pub open spec fn in_order(self) -> Seq<Option<ItemInstance>> {
        Seq::new(EQUIP_SLOT_COUNT as nat, |i: int| self.slot_item(slot_order(i)))
    }

    /// `slot` holds the physical copy `instance_id`.
    pub open spec fn holds(self, slot: EquipSlot, instance_id: ItemInstanceId) -> bool {
        self.slot_item(slot) is Some && self.slot_item(slot)->0.instance_id == instance_id
    }

    /// Reads the item copy currently occupying `slot`, if any.
    pub fn get(&self, slot: EquipSlot) -> (r: &Option<ItemInstance>)
        ensures
            *r == self.slot_item(slot),
    {
        match slot {
            EquipSlot::Bag => &self.bag,
            EquipSlot::Helmet => &self.helmet,
            EquipSlot::Cape => &self.cape,
            EquipSlot::Weapon => &self.weapon,
            EquipSlot::Armor => &self.armor,
            EquipSlot::Offhand => &self.offhand,
            EquipSlot::Potion => &self.potion,
            EquipSlot::Shoes => &self.shoes,
            EquipSlot::Food => &self.food,
            EquipSlot::Mount => &self.mount,
        }
    }

    /// Mutable access to the item copy occupying `slot`; every other slot
    /// is left as it was.
    pub fn get_mut(&mut self, slot: EquipSlot) -> (r: &mut Option<ItemInstance>)
        ensures
            *r == old(self).slot_item(slot),
            *final(self) == old(self).with_slot(slot, *final(r)),
    {
        match slot {
            EquipSlot::Bag => &mut self.bag,
            EquipSlot::Helmet => &mut self.helmet,
            EquipSlot::Cape => &mut self.cape,
            EquipSlot::Weapon => &mut self.weapon,
            EquipSlot::Armor => &mut self.armor,
            EquipSlot::Offhand => &mut self.offhand,
            EquipSlot::Potion => &mut self.potion,
            EquipSlot::Shoes => &mut self.shoes,
            EquipSlot::Food => &mut self.food,
            EquipSlot::Mount => &mut self.mount,
        }
    }

    /// Finds which slot, if any, holds the physical copy `instance_id`
    /// (per copy, not per item type). Slots are searched in display order.
    pub fn slot_holding(&self, instance_id: ItemInstanceId) -> (r: Option<EquipSlot>)
        ensures
            r matches Some(slot) ==> self.holds(slot, instance_id) && forall|j: int|
                0 <= j < slot_position(slot) ==> !self.holds(#[trigger] slot_order(j), instance_id),
            r is None ==> forall|slot: EquipSlot| !#[trigger] self.holds(slot, instance_id),
    {
        for i in 0..EQUIP_SLOT_COUNT
            invariant
                forall|j: int| 0 <= j < i ==> !self.holds(#[trigger] slot_order(j), instance_id),
        {
            let slot = EquipSlot::at(i);
            match self.get(slot) {
                Some(item) => {
                    if item.instance_id == instance_id {
                        return Some(slot);
                    }
                },
                None => {},
            }
        }
        proof {
            assert forall|slot: EquipSlot| !#[trigger] self.holds(slot, instance_id) by {
                assert(slot_order(slot_position(slot)) == slot);
            }
        }
        None
    }
}

/// Writing a slot and reading it back gives what was written; every other
/// slot keeps what it held. (`get_mut` writes through `with_slot`, `get`
/// reads through `slot_item`.)
pub proof fn lemma_write_then_read(
    equipment: Equipment,
    slot: EquipSlot,
    item: Option<ItemInstance>,
    other: EquipSlot,
)
    ensures
        equipment.with_slot(slot, item).slot_item(slot) == item,
        other != slot ==> equipment.with_slot(slot, item).slot_item(other) == equipment.slot_item(other),
{
}

} // verus!
