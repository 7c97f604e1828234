use bevymmo_gameplay::abilities::{AbilityId, AbilitySelection, RootWordId, WeaponInscription};
use bevymmo_gameplay::equipment::Equipment;
use bevymmo_gameplay::inventory::Inventory;
use bevymmo_gameplay::items::{ItemId, ItemInstance, ItemInstanceId};
use bevymmo_gameplay::loot::{
    collect_player_drops, loot_bag_expired, loot_for_rolls, roll_loot, LootDrop, LootTable, RolledLoot,
    LOOT_BAG_LIFETIME_SECS,
};

fn seq(values: &'static [u32]) -> impl FnMut() -> u32 {
    let mut iter = values.iter().copied();
    let last = values.last().copied().unwrap_or(0);
    move || iter.next().unwrap_or(last)
}

fn wood(id: u64, quantity: u32) -> ItemInstance {
    let mut instance = ItemInstance::new(ItemId::new("wood"));
    instance.instance_id = ItemInstanceId(id);
    instance.quantity = quantity;
    instance
}

#[test]
fn gold_roll_stays_inside_the_inclusive_range() {
    let table = LootTable {
        gold: 3..=7,
        drops: Vec::new(),
    };
    assert_eq!(roll_loot(&table, seq(&[0])).gold, 3);
    assert_eq!(roll_loot(&table, seq(&[4])).gold, 7);
    assert_eq!(roll_loot(&table, seq(&[5])).gold, 3);
}

#[test]
fn inverted_gold_range_yields_the_start() {
    let table = LootTable {
        gold: std::ops::RangeInclusive::new(9, 2),
        drops: Vec::new(),
    };
    assert_eq!(roll_loot(&table, seq(&[99])).gold, 9);
}

#[test]
fn chance_zero_never_drops_and_does_not_consume_a_roll() {
    let table = LootTable {
        gold: 1..=1,
        drops: vec![LootDrop::new("wood", 0), LootDrop::new("copper", 100)],
    };
    let rolled = roll_loot(&table, seq(&[0]));
    assert_eq!(rolled.items.len(), 1);
    assert_eq!(rolled.items[0].0.as_str(), "copper");
}

#[test]
fn chance_hundred_always_drops() {
    let table = LootTable {
        gold: 0..=0,
        drops: vec![LootDrop::new("sword", 100)],
    };
    let rolled = roll_loot(&table, seq(&[99]));
    assert_eq!(rolled.items.len(), 1);
    assert_eq!(rolled.items[0].0.as_str(), "sword");
}

#[test]
fn independent_drops_can_both_hit() {
    let table = LootTable {
        gold: 0..=0,
        drops: vec![LootDrop::new("wood", 40), LootDrop::new("copper", 15)],
    };
    let rolled = roll_loot(&table, seq(&[10, 10]));
    assert_eq!(rolled.items.len(), 2);
}

#[test]
fn independent_drops_can_miss() {
    let table = LootTable {
        gold: 0..=0,
        drops: vec![LootDrop::new("wood", 40), LootDrop::new("copper", 15)],
    };
    let rolled = roll_loot(&table, seq(&[40, 15]));
    assert!(rolled.items.is_empty());
}

#[test]
fn collect_player_drops_skips_empty_slots() {
    let drops = collect_player_drops(&Inventory::default(), &Equipment::default());
    assert!(drops.is_empty());
}

#[test]
fn equipment_comes_before_inventory() {
    let equipment = Equipment {
        shoes: Some(ItemInstance::new(ItemId::new("swift_boots"))),
        ..Equipment::default()
    };
    let mut inventory = Inventory::default();
    inventory.slots[0] = Some(wood(1, 1));
    let drops = collect_player_drops(&inventory, &equipment);
    assert_eq!(drops[0].item_id.as_str(), "swift_boots");
    assert_eq!(drops[1].item_id.as_str(), "wood");
}

#[test]
fn bag_expires_on_or_after_the_deadline() {
    assert!(loot_bag_expired(600, 600));
    assert!(loot_bag_expired(601, 600));
    assert!(!loot_bag_expired(599, 600));
}

#[test]
fn lifetime_is_ten_minutes() {
    assert_eq!(LOOT_BAG_LIFETIME_SECS, 600);
}

#[test]
fn the_gold_roll_comes_before_the_drop_rolls() {
    let table = LootTable {
        gold: 10..=19,
        drops: vec![LootDrop::new("wood", 50), LootDrop::new("copper", 50)],
    };
    // gold takes 23 % 10 = 3; wood rolls 149 % 100 = 49 < 50; copper rolls 50, a miss.
    let rolled = roll_loot(&table, seq(&[23, 149, 50]));
    assert_eq!(rolled.gold, 13);
    assert_eq!(rolled.items.len(), 1);
    assert_eq!(rolled.items[0].0.as_str(), "wood");
    assert_eq!(rolled.items[0].1, 1);
}

#[test]
fn a_drop_of_zero_pieces_never_lands() {
    let mut drop = LootDrop::new("wood", 100);
    drop.quantity = 0;
    let table = LootTable { gold: 0..=0, drops: vec![drop] };
    assert!(roll_loot(&table, seq(&[0])).is_empty());
}

#[test]
fn loot_drop_clamps_its_chance() {
    let drop = LootDrop::new("wood", 250);
    assert_eq!(drop.chance_percent, 100);
    assert_eq!(drop.quantity, 1);
    assert_eq!(drop.item_id.as_str(), "wood");
}

#[test]
fn rolled_loot_is_empty_only_without_gold_and_items() {
    assert!(RolledLoot::default().is_empty());
    assert!(!RolledLoot { gold: 1, items: Vec::new() }.is_empty());
    assert!(!RolledLoot { gold: 0, items: vec![(ItemId::new("wood"), 1)] }.is_empty());
}

#[test]
fn drops_keep_equipment_display_order_then_bag_order() {
    let equipment = Equipment {
        mount: Some(wood(3, 1)),
        bag: Some(wood(1, 1)),
        weapon: Some(wood(2, 1)),
        ..Equipment::default()
    };
    let mut inventory = Inventory::default();
    inventory.slots[29] = Some(wood(5, 2));
    inventory.slots[4] = Some(wood(4, 7));
    let ids: Vec<u64> = collect_player_drops(&inventory, &equipment)
        .iter()
        .map(|item| item.instance_id.0)
        .collect();
    assert_eq!(ids, vec![1, 2, 3, 4, 5]);
}

fn mixed_table() -> LootTable {
    LootTable {
        gold: 3..=7,
        drops: vec![
            LootDrop::new("a", 50),
            LootDrop::new("b", 100),
            LootDrop::new("c", 0),
            LootDrop::new("d", 30),
        ],
    }
}

fn names(loot: &RolledLoot) -> Vec<&str> {
    loot.items.iter().map(|(id, _)| id.as_str()).collect()
}

#[test]
fn loot_for_rolls_reads_gold_then_one_roll_per_real_chance() {
    let table = mixed_table();
    let hit = loot_for_rolls(&table, &[4, 49, 30]);
    assert_eq!(hit.gold, 7);
    assert_eq!(names(&hit), vec!["a", "b"]);
    let other = loot_for_rolls(&table, &[5, 150, 129]);
    assert_eq!(other.gold, 3);
    assert_eq!(names(&other), vec!["b", "d"]);
}

#[test]
fn roll_loot_draws_exactly_the_rolls_loot_for_rolls_reads() {
    let table = mixed_table();
    let mut drawn = Vec::new();
    let mut values = [4u32, 49, 30, 99, 99].into_iter();
    let rolled = roll_loot(&table, || {
        let n = values.next().unwrap_or(0);
        drawn.push(n);
        n
    });
    assert_eq!(drawn, vec![4, 49, 30]);
    assert_eq!(rolled, loot_for_rolls(&table, &drawn));
}

fn inscribed_sword(id: u64) -> ItemInstance {
    let mut instance = ItemInstance::new(ItemId::new("sword"));
    instance.instance_id = ItemInstanceId(id);
    instance.ability_selection = AbilitySelection {
        primary: Some(AbilityId::new("cleave")),
        secondary: Some(AbilityId::new("lunge")),
        ultimate: None,
    };
    instance.root_inscription = Some(WeaponInscription {
        root_word: Some(RootWordId::new("flame")),
    });
    instance
}

#[test]
fn collect_player_drops_keeps_inscription_and_ability_picks() {
    let equipment = Equipment {
        weapon: Some(inscribed_sword(7)),
        ..Equipment::default()
    };
    let mut inventory = Inventory::default();
    inventory.slots[2] = Some(wood(11, 4));

    let drops = collect_player_drops(&inventory, &equipment);
    assert_eq!(drops.len(), 2);
    assert_eq!(drops[0].instance_id, ItemInstanceId(7));
    assert_eq!(
        drops[0]
            .root_inscription
            .as_ref()
            .and_then(|inscription| inscription.root_word.as_ref())
            .map(RootWordId::as_str),
        Some("flame")
    );
    assert_eq!(
        drops[0]
            .ability_selection
            .primary
            .as_ref()
            .map(AbilityId::as_str),
        Some("cleave")
    );
    assert_eq!(drops[1].instance_id, ItemInstanceId(11));
    assert_eq!(drops[1].quantity, 4);
}

#[test]
fn loot_tables_clone_and_compare() {
    let table = mixed_table();
    let copy = table.clone();
    assert_eq!(copy, table);
    assert_eq!(*copy.gold.start(), 3);
    assert_eq!(*copy.gold.end(), 7);
    let from_id = LootDrop::new(ItemId::new("wood"), 20);
    assert_eq!(from_id, LootDrop::new("wood", 20));
}
