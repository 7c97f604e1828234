use bevymmo_gameplay::abilities::{AbilityId, WeaponInscription};
use bevymmo_gameplay::equipment::EquipSlot;
use bevymmo_gameplay::inventory::{Inventory, StackOpError};
use bevymmo_gameplay::items::{ItemId, ItemInstance, ItemInstanceId};

fn pile(name: &str, id: u64, quantity: u32) -> ItemInstance {
    let mut instance = ItemInstance::new(ItemId::new(name));
    instance.instance_id = ItemInstanceId(id);
    instance.quantity = quantity;
    instance
}

fn quantities(inv: &Inventory) -> Vec<Option<u32>> {
    inv.slots.iter().map(|slot| slot.as_ref().map(|item| item.quantity)).collect()
}

fn fill_with_swords_from(inv: &mut Inventory, first: usize) {
    for (index, slot) in inv.slots.iter_mut().enumerate().skip(first) {
        *slot = Some(pile("sword", 100 + index as u64, 1));
    }
}

#[test]
fn add_stackable_places_exactly_the_space_it_reports() {
    let mut inv = Inventory::default();
    inv.slots[0] = Some(pile("wood", 1, 150));
    fill_with_swords_from(&mut inv, 2);
    let wood = ItemId::new("wood");
    assert_eq!(inv.space_for(&wood, true), 250);
    let mut next = 10u64;
    let placed = inv.add_stackable(wood.clone(), 300, || {
        next += 1;
        ItemInstanceId(next)
    });
    assert_eq!(placed, 250);
    assert_eq!(inv.count_item(&wood), 400);
    assert_eq!(inv.slots[0].as_ref().map(|item| item.quantity), Some(200));
    assert_eq!(inv.slots[1].as_ref().map(|item| item.quantity), Some(200));
    assert_eq!(inv.slots[1].as_ref().map(|item| item.instance_id), Some(ItemInstanceId(11)));
    assert_eq!(inv.space_for(&wood, true), 0);
}

#[test]
fn add_stackable_opens_full_stacks_in_slot_order() {
    let mut inv = Inventory::default();
    let mut minted = Vec::new();
    let mut next = 0u64;
    let placed = inv.add_stackable(ItemId::new("copper"), 450, || {
        next += 1;
        minted.push(next);
        ItemInstanceId(next)
    });
    assert_eq!(placed, 450);
    assert_eq!(minted, vec![1, 2, 3]);
    let qs = quantities(&inv);
    assert_eq!(&qs[..4], &[Some(200), Some(200), Some(50), None]);
    assert_eq!(inv.slots[2].as_ref().map(|item| item.instance_id), Some(ItemInstanceId(3)));
}

#[test]
fn add_stackable_of_nothing_changes_nothing() {
    let mut inv = Inventory::default();
    inv.slots[3] = Some(pile("wood", 1, 5));
    let before = inv.clone();
    assert_eq!(inv.add_stackable(ItemId::new("wood"), 0, || panic!("no pile is opened")), 0);
    assert_eq!(inv, before);
}

#[test]
fn add_stackable_skips_inscribed_piles() {
    let mut inv = Inventory::default();
    let mut engraved = pile("wood", 1, 5);
    engraved.root_inscription = Some(WeaponInscription::default());
    inv.slots[0] = Some(engraved);
    assert_eq!(inv.add_stackable(ItemId::new("wood"), 3, || ItemInstanceId(2)), 3);
    assert_eq!(inv.slots[0].as_ref().map(|item| item.quantity), Some(5));
    assert_eq!(inv.slots[1].as_ref().map(|item| item.quantity), Some(3));
}

#[test]
fn space_for_a_unique_item_counts_empty_slots() {
    let mut inv = Inventory::default();
    fill_with_swords_from(&mut inv, 26);
    assert_eq!(inv.space_for(&ItemId::new("sword"), false), 26);
    assert_eq!(inv.space_for(&ItemId::new("wood"), true), 26 * 200);
}

#[test]
fn insert_instance_opens_one_pile_and_keeps_the_id_when_everything_fits() {
    let mut inv = Inventory::default();
    inv.slots[0] = Some(pile("wood", 1, 195));
    assert_eq!(inv.insert_instance(pile("wood", 7, 30), true), Ok(None));
    assert_eq!(inv.slots[0].as_ref().map(|item| item.quantity), Some(200));
    assert_eq!(inv.slots[1].as_ref().map(|item| item.quantity), Some(25));
    assert_eq!(inv.slots[1].as_ref().map(|item| item.instance_id), Some(ItemInstanceId(7)));
}

#[test]
fn insert_instance_hands_back_the_rest_and_unassigns_the_opened_pile() {
    let mut inv = Inventory::default();
    inv.slots[0] = Some(pile("wood", 1, 190));
    fill_with_swords_from(&mut inv, 2);
    let leftover = inv.insert_instance(pile("wood", 7, 250), true).unwrap().expect("leftover");
    assert_eq!(leftover.quantity, 40);
    assert_eq!(leftover.instance_id, ItemInstanceId(7));
    assert_eq!(inv.slots[1].as_ref().map(|item| item.quantity), Some(200));
    assert_eq!(
        inv.slots[1].as_ref().map(|item| item.instance_id),
        Some(ItemInstanceId::unassigned())
    );
    assert_eq!(inv.count_item(&ItemId::new("wood")), 400);
}

#[test]
fn insert_instance_refuses_a_pile_with_no_room_and_leaves_the_bag() {
    let mut inv = Inventory::default();
    inv.slots[0] = Some(pile("wood", 1, 200));
    fill_with_swords_from(&mut inv, 1);
    let before = inv.clone();
    assert_eq!(inv.insert_instance(pile("wood", 7, 5), true), Err(StackOpError::InventoryFull));
    assert_eq!(inv, before);
}

#[test]
fn insert_instance_refuses_an_empty_pile() {
    let mut inv = Inventory::default();
    assert_eq!(inv.insert_instance(pile("wood", 7, 0), true), Err(StackOpError::AmountZero));
    assert_eq!(inv, Inventory::default());
}

#[test]
fn a_unique_item_is_not_merged_even_when_stacks_is_passed() {
    let mut inv = Inventory::default();
    let mut picked = pile("sword", 1, 1);
    picked.ability_selection.primary = Some(AbilityId::new("cleave"));
    inv.slots[0] = Some(pile("sword", 2, 1));
    assert_eq!(inv.insert_instance(picked, true), Ok(None));
    assert_eq!(inv.slots[1].as_ref().map(|item| item.instance_id), Some(ItemInstanceId(1)));
}

#[test]
fn moving_keeps_every_count() {
    let mut inv = Inventory::default();
    inv.slots[0] = Some(pile("wood", 1, 120));
    inv.slots[1] = Some(pile("wood", 2, 150));
    inv.slots[2] = Some(pile("copper", 3, 9));
    inv.move_or_merge(0, 1, true).expect("merge");
    assert_eq!(inv.count_item(&ItemId::new("wood")), 270);
    assert_eq!(quantities(&inv)[..2], [Some(70), Some(200)]);
    inv.move_or_merge(2, 0, true).expect("swap");
    assert_eq!(inv.count_item(&ItemId::new("copper")), 9);
    assert_eq!(inv.count_item(&ItemId::new("wood")), 270);
}

#[test]
fn move_or_merge_rejects_out_of_range_and_ignores_a_self_move() {
    let mut inv = Inventory::default();
    inv.slots[0] = Some(pile("wood", 1, 5));
    let before = inv.clone();
    assert_eq!(inv.move_or_merge(0, 30, true), Err(StackOpError::SlotOutOfRange));
    assert_eq!(inv.move_or_merge(31, 0, true), Err(StackOpError::SlotOutOfRange));
    assert_eq!(inv.move_or_merge(0, 0, true), Ok(()));
    assert_eq!(inv, before);
}

#[test]
fn a_split_pile_merges_back_into_its_source() {
    let mut inv = Inventory::default();
    inv.slots[0] = Some(pile("wood", 1, 50));
    let before = inv.clone();
    let dest = inv.split_stack(0, 7, true, || ItemInstanceId(2)).expect("split");
    assert_eq!(inv.count_item(&ItemId::new("wood")), 50);
    assert!(inv.can_merge_slots(dest, 0, true));
    inv.move_or_merge(dest, 0, true).expect("merge back");
    assert_eq!(inv, before);
}

#[test]
fn combine_into_keeps_the_count_and_reports_refusals() {
    let mut inv = Inventory::default();
    inv.slots[0] = Some(pile("wood", 1, 10));
    inv.slots[5] = Some(pile("wood", 2, 30));
    inv.slots[9] = Some(pile("wood", 3, 40));
    assert!(inv.has_other_mergeable_stack(9, true));
    assert_eq!(inv.combine_into(9, true), Ok(40));
    assert_eq!(inv.count_item(&ItemId::new("wood")), 80);
    assert_eq!(inv.slots[9].as_ref().map(|item| item.quantity), Some(80));
    assert_eq!(inv.combine_into(30, true), Err(StackOpError::SlotOutOfRange));
    assert_eq!(inv.combine_into(1, true), Err(StackOpError::SlotEmpty));
    let mut engraved = pile("wood", 4, 3);
    engraved.root_inscription = Some(WeaponInscription::default());
    inv.slots[1] = Some(engraved);
    assert_eq!(inv.combine_into(1, true), Err(StackOpError::NotStackable));
}

#[test]
fn take_amount_reports_each_refusal() {
    let mut inv = Inventory::default();
    let mut engraved = pile("wood", 1, 9);
    engraved.root_inscription = Some(WeaponInscription::default());
    inv.slots[0] = Some(engraved);
    inv.slots[1] = Some(pile("wood", 2, 9));
    let before = inv.clone();
    assert_eq!(inv.take_amount(30, 1, true, || ItemInstanceId(5)).unwrap_err(), StackOpError::SlotOutOfRange);
    assert_eq!(inv.take_amount(2, 1, true, || ItemInstanceId(5)).unwrap_err(), StackOpError::SlotEmpty);
    assert_eq!(inv.take_amount(0, 4, true, || ItemInstanceId(5)).unwrap_err(), StackOpError::NotStackable);
    assert_eq!(inv.take_amount(1, 4, false, || ItemInstanceId(5)).unwrap_err(), StackOpError::NotStackable);
    assert_eq!(inv, before);
    let taken = inv.take_amount(1, 4, true, || ItemInstanceId(5)).expect("peel");
    assert_eq!(taken.quantity, 4);
    assert_eq!(inv.count_item(&ItemId::new("wood")), 14);
}

#[test]
fn remove_item_amount_leaves_other_items_alone() {
    let mut inv = Inventory::default();
    inv.slots[0] = Some(pile("copper", 1, 4));
    inv.slots[1] = Some(pile("wood", 2, 3));
    inv.slots[2] = Some(pile("wood", 3, 3));
    inv.remove_item_amount(&ItemId::new("wood"), 4).expect("remove");
    assert_eq!(quantities(&inv)[..3], [Some(4), None, Some(2)]);
    assert_eq!(inv.count_item(&ItemId::new("copper")), 4);
}

#[test]
fn split_and_trade_windows() {
    assert_eq!(Inventory::split_amount_bounds(1), None);
    assert_eq!(Inventory::split_amount_bounds(2), Some((1, 1)));
    assert_eq!(Inventory::split_amount_bounds(50), Some((1, 49)));
    assert_eq!(Inventory::clamp_split_amount(9, 1), 0);
    assert_eq!(Inventory::default_split_amount(0), 0);
    assert_eq!(Inventory::default_split_amount(201), 100);
    assert_eq!(Inventory::trade_amount_bounds(0), None);
    assert_eq!(Inventory::trade_amount_bounds(12), Some((1, 12)));
}

#[test]
fn every_refusal_has_its_message() {
    assert_eq!(StackOpError::SlotOutOfRange.as_str(), "inventory slot out of range");
    assert_eq!(StackOpError::SlotEmpty.as_str(), "inventory slot is empty");
    assert_eq!(StackOpError::NotStackable.as_str(), "item does not stack");
    assert_eq!(StackOpError::AmountZero.as_str(), "amount must be at least 1");
    assert_eq!(
        StackOpError::AmountNotLessThanQuantity.as_str(),
        "split amount must leave at least one piece"
    );
    assert_eq!(StackOpError::AmountExceedsQuantity.as_str(), "not enough of that item");
    assert_eq!(StackOpError::InventoryFull.as_str(), "inventory is full");
}

#[test]
fn equip_slots_are_labelled_in_display_order() {
    let labels: Vec<&str> = EquipSlot::ALL.iter().map(|slot| slot.label()).collect();
    assert_eq!(
        labels,
        vec!["BAG", "HELMET", "CAPE", "WEAPON", "ARMOR", "OFFHAND", "POTION", "SHOES", "FOOD", "MOUNT"]
    );
    for (index, slot) in EquipSlot::ALL.iter().enumerate() {
        assert_eq!(EquipSlot::at(index), *slot);
    }
}

#[test]
fn a_new_item_is_one_mergeable_piece() {
    let item = ItemInstance::new(ItemId::new("wood"));
    assert_eq!(item.quantity, 1);
    assert_eq!(item.instance_id, ItemInstanceId::unassigned());
    assert!(item.is_stack_mergeable());
    assert_eq!(item.duplicate(), item);
    assert!(ItemId::new("wood").same_as(&ItemId::new("wood")));
    assert!(!ItemId::new("wood").same_as(&ItemId::new("copper")));
}

fn every_pile_within_the_cap(inv: &Inventory) -> bool {
    inv.slots
        .iter()
        .flatten()
        .all(|item| item.quantity >= 1 && item.quantity <= Inventory::MAX_STACK)
}

#[test]
fn every_operation_keeps_piles_within_the_cap() {
    let mut inv = Inventory::default();
    assert!(every_pile_within_the_cap(&inv));
    let mut next = 0u64;
    let mut mint = || {
        next += 1;
        ItemInstanceId(next)
    };
    let wood = ItemId::new("wood");
    assert_eq!(inv.add_stackable(wood.clone(), 530, &mut mint), 530);
    assert_eq!(quantities(&inv)[..4], [Some(200), Some(200), Some(130), None]);
    assert!(every_pile_within_the_cap(&inv));

    let back = inv.insert_instance(pile("wood", 50, 120), true).unwrap();
    assert_eq!(back, None);
    assert!(every_pile_within_the_cap(&inv));
    assert_eq!(inv.count_item(&wood), 650);

    assert_eq!(inv.split_stack(0, 199, true, &mut mint), Ok(4));
    assert!(every_pile_within_the_cap(&inv));
    assert_eq!(inv.move_or_merge(4, 1, true), Ok(()));
    assert!(every_pile_within_the_cap(&inv));
    assert_eq!(inv.combine_into(3, true), Ok(150));
    assert!(every_pile_within_the_cap(&inv));
    assert_eq!(inv.remove_item_amount(&wood, 333), Ok(()));
    assert!(every_pile_within_the_cap(&inv));
    assert_eq!(inv.count_item(&wood), 650 - 333);
    let taken = inv.take_amount(3, 17, true, &mut mint).unwrap();
    assert_eq!(taken.quantity, 17);
    assert!(every_pile_within_the_cap(&inv));
}

#[test]
fn item_id_roundtrips_through_str() {
    let id = ItemId::new("iron_sword");
    assert_eq!(id.as_str(), "iron_sword");
    let from_static: ItemId = "iron_sword".into();
    assert_eq!(from_static, id);
}
