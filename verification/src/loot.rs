//! Corpse and mob loot: drop tables, player-gear dumps, bag lifetime.

use std::ops::RangeInclusive;

use vstd::prelude::*;

use crate::equipment::{slot_order, EquipSlot, Equipment, EQUIP_SLOT_COUNT};
use crate::inventory::{Inventory, INVENTORY_CAPACITY};
use crate::items::{duplicate_slot, ItemId, ItemInstance};
use crate::tally::{lemma_total_prefix_le, lemma_total_take_all, lemma_total_take_step, total};

verus! {

/// How long a loot bag stays in the world before it and its contents are
/// destroyed. Ten minutes.
pub const LOOT_BAG_LIFETIME_SECS: u64 = 600;

/// One independent chance to drop a catalogue item.
#[derive(Debug, Clone, PartialEq)]
pub struct LootDrop {
    pub item_id: ItemId,
    /// `0` never drops, `100` always drops. Rolls are independent.
    pub chance_percent: u8,
    pub quantity: u32,
}

impl LootDrop {
    /// One piece, with `chance_percent` clamped to `0..=100`.
    pub fn new<T: Into<ItemId>>(item_id: T, chance_percent: u8) -> (r: LootDrop)
        ensures
            call_ensures(T::into, (item_id,), r.item_id),
            r.chance_percent == (if chance_percent < 100 { chance_percent } else { 100 }),
            r.quantity == 1,
    {
        LootDrop {
            item_id: item_id.into(),
            chance_percent: if chance_percent < 100 { chance_percent } else { 100 },
            quantity: 1,
        }
    }
}

/// Authored drop table on an enemy archetype.
#[derive(Debug, Clone, PartialEq)]
pub struct LootTable {
    /// Inclusive gold roll. When `start > end` the roll yields the start.
    pub gold: RangeInclusive<u64>,
    pub drops: Vec<LootDrop>,
}

/// What one roll of a [`LootTable`] produced.
#[derive(Debug, Clone, PartialEq, Eq)]
pub struct RolledLoot {
    pub gold: u64,
    pub items: Vec<(ItemId, u32)>,
}

impl Default for RolledLoot {
    fn default() -> (r: RolledLoot)
        ensures
            r.gold == 0,
            r.items@.len() == 0,
    {
        RolledLoot { gold: 0, items: Vec::new() }
    }
}

impl RolledLoot {
    /// No gold and no items.
    pub fn is_empty(&self) -> (r: bool)
        ensures
            r == (self.gold == 0 && self.items@.len() == 0),
    {
        self.gold == 0 && self.items.len() == 0
    }
}

/// `Clone` of `std::ops::RangeInclusive`: the copy's bounds are clones of
/// the original's bounds (the derived impl clones each field).
pub assume_specification<Idx: Clone>[ <RangeInclusive<Idx> as Clone>::clone ](
    range: &RangeInclusive<Idx>,
) -> (r: RangeInclusive<Idx>)
    ensures
        cloned(range@.start, r@.start),
        cloned(range@.end, r@.end),
;

/// Lower bound of an inclusive range: `std::ops::RangeInclusive::start`.
#[verifier::external_body]
fn range_start(range: &RangeInclusive<u64>) -> (r: u64)
    ensures
        r == range@.start,
{
    *range.start()
}

/// Upper bound of an inclusive range: `std::ops::RangeInclusive::end`.
#[verifier::external_body]
fn range_end(range: &RangeInclusive<u64>) -> (r: u64)
    ensures
        r == range@.end,
{
    *range.end()
}

/// Gold yielded by `roll` over `min ..= max` (the start when the range is empty or a point).
pub open spec fn gold_for_roll(min: u64, max: u64, roll: u32) -> u64 {
    if max <= min {
        min
    } else {
        (min + (roll as int) % (max - min + 1)) as u64
    }
}

/// Rolls the gold consumes: none for an empty or one-value range.
pub open spec fn gold_rolls(min: u64, max: u64) -> nat {
    if max <= min {
        0
    } else {
        1
    }
}

/// Rolls one drop consumes: only a real chance (strictly between 0 and 100) rolls.
pub open spec fn drop_rolls(drop: LootDrop) -> nat {
    if drop.chance_percent == 0 || drop.quantity == 0 || drop.chance_percent >= 100 {
        0
    } else {
        1
    }
}

pub open spec fn drop_roll_counts() -> spec_fn(LootDrop) -> nat {
    |drop: LootDrop| drop_rolls(drop)
}

/// Whether `drop` lands, given the roll it would consume.
pub open spec fn drop_lands(drop: LootDrop, roll: u32) -> bool {
    if drop.chance_percent == 0 || drop.quantity == 0 {
        false
    } else if drop.chance_percent >= 100 {
        true
    } else {
        (roll as int) % 100 < drop.chance_percent
    }
}

/// Items produced by `drops`, whose rolls start at index `base` of `rolls`.
pub open spec fn rolled_items(drops: Seq<LootDrop>, rolls: Seq<u32>, base: nat) -> Seq<(ItemId, u32)>
    decreases drops.len(),
{
    if drops.len() == 0 {
        Seq::empty()
    } else {
        let before = rolled_items(drops.drop_last(), rolls, base);
        let last = drops.last();
        let roll = rolls[(base + total(drops.drop_last(), drop_roll_counts())) as int];
        if drop_lands(last, roll) {
            before.push((last.item_id, last.quantity))
        } else {
            before
        }
    }
}

/// Rolls `table` consumes, in draw order: the gold roll (none for a range
/// of at most one value), then one per drop with a real chance.
pub open spec fn rolls_needed(table: LootTable) -> nat {
    gold_rolls(table.gold@.start, table.gold@.end) + total(table.drops@, drop_roll_counts())
}

/// `gold` and `items` are what `table` yields when the random source returns `rolls` in order.
pub open spec fn loot_from_rolls(table: LootTable, gold: u64, items: Seq<(ItemId, u32)>, rolls: Seq<u32>) -> bool {
    let min = table.gold@.start;
    let max = table.gold@.end;
    &&& gold == gold_for_roll(min, max, if gold_rolls(min, max) == 0 { 0 } else { rolls[0] })
    &&& items == rolled_items(table.drops@, rolls, gold_rolls(min, max))
    &&& rolls.len() == rolls_needed(table)
}

/// The value in `min ..= max` that `roll` selects; the start when the range
/// holds at most one value.
fn roll_inclusive(min: u64, max: u64, roll: u32) -> (r: u64)
    requires
        max <= min || max - min < u64::MAX,
    ensures
        r == gold_for_roll(min, max, roll),
        min <= r,
        max > min ==> r <= max,
{
    if max <= min {
        return min;
    }
    let span = max - min + 1;
    min + (roll as u64) % span
}

/// Whether a drop draws a roll: only a real chance (strictly between 0 and 100) does.
fn draws_roll(drop: &LootDrop) -> (r: bool)
    ensures
        r == (drop_rolls(*drop) == 1),
{
    !(drop.chance_percent == 0 || drop.quantity == 0 || drop.chance_percent >= 100)
}

/// What `table` yields when the random source returns `rolls`, in order.
///
/// The first roll picks the gold (`start + roll % (end - start + 1)`), unless
/// the range holds at most one value, which yields its start and draws
/// nothing. Then each drop in order: chance `0` (or quantity `0`) never
/// lands and draws nothing, chance `100` always lands and draws nothing,
/// and any other chance `c` draws the next roll `n` and lands when
/// `n % 100 < c`.
pub fn loot_for_rolls(table: &LootTable, rolls: &[u32]) -> (r: RolledLoot)
    requires
        rolls@.len() == rolls_needed(*table),
        table.gold@.end <= table.gold@.start || table.gold@.end - table.gold@.start < u64::MAX,
    ensures
        loot_from_rolls(*table, r.gold, r.items@, rolls@),
        table.gold@.start <= r.gold,
        table.gold@.end > table.gold@.start ==> r.gold <= table.gold@.end,
        r.items@.len() <= table.drops@.len(),
        forall|i: int| 0 <= i < r.items@.len() ==> from_some_drop(#[trigger] r.items@[i], table.drops@),
        forall|j: int|
            0 <= j < table.drops@.len() && (#[trigger] table.drops@[j]).chance_percent >= 100 && table.drops@[j].quantity
                > 0 ==> r.items@.contains(table.drops@[j].item_id_and_quantity()),
{
    let min = range_start(&table.gold);
    let max = range_end(&table.gold);
    let base: usize = if max > min { 1 } else { 0 };
    let first: u32 = if base == 1 { rolls[0] } else { 0 };
    let gold = roll_inclusive(min, max, first);
    let ghost drops = table.drops@;
    let mut next: usize = base;
    let mut items: Vec<(ItemId, u32)> = Vec::new();
    for i in 0..table.drops.len()
        invariant
            drops == table.drops@,
            base as nat == gold_rolls(min, max),
            rolls@.len() == base + total(drops, drop_roll_counts()),
            next == base + total(drops.take(i as int), drop_roll_counts()),
            items@ == rolled_items(drops.take(i as int), rolls@, base as nat),
            items@.len() <= i,
    {
        proof {
            lemma_total_take_step(drops, drop_roll_counts(), i as int);
            lemma_total_prefix_le(drops, drop_roll_counts(), i + 1);
            assert(drops.take(i + 1).drop_last() =~= drops.take(i as int));
        }
        let drop = &table.drops[i];
        if drop.chance_percent == 0 || drop.quantity == 0 {
        } else if drop.chance_percent >= 100 {
            items.push((drop.item_id.duplicate(), drop.quantity));
        } else {
            let n = rolls[next];
            next = next + 1;
            if n % 100 < drop.chance_percent as u32 {
                items.push((drop.item_id.duplicate(), drop.quantity));
            }
        }
    }
    proof {
        assert(drops.take(drops.len() as int) =~= drops);
        lemma_rolled_items_carry_drop_quantities(drops, rolls@, base as nat);
    }
    RolledLoot { gold, items }
}

/// Rolls gold uniformly in `table.gold` and each drop independently.
///
/// `next_u32` is the entropy source. Rolls are drawn in the order
/// [`loot_for_rolls`] consumes them (the gold roll, then one per drop with a
/// real chance), and the outcome is that function's result for them.
pub fn roll_loot<F: FnMut() -> u32>(table: &LootTable, mut next_u32: F) -> (r: RolledLoot)
    requires
        call_requires(next_u32, ()),
        table.gold@.end <= table.gold@.start || table.gold@.end - table.gold@.start < u64::MAX,
    ensures
        exists|rolls: Seq<u32>|
            #[trigger] loot_from_rolls(*table, r.gold, r.items@, rolls) && forall|i: int|
                0 <= i < rolls.len() ==> call_ensures(next_u32, (), #[trigger] rolls[i]),
        table.gold@.start <= r.gold,
        table.gold@.end > table.gold@.start ==> r.gold <= table.gold@.end,
        r.items@.len() <= table.drops@.len(),
        forall|i: int| 0 <= i < r.items@.len() ==> from_some_drop(#[trigger] r.items@[i], table.drops@),
        forall|j: int|
            0 <= j < table.drops@.len() && (#[trigger] table.drops@[j]).chance_percent >= 100 && table.drops@[j].quantity
                > 0 ==> r.items@.contains(table.drops@[j].item_id_and_quantity()),
{
    let min = range_start(&table.gold);
    let max = range_end(&table.gold);
    let ghost drops = table.drops@;
    let ghost f = next_u32;
    let mut rolls: Vec<u32> = Vec::new();
    if max > min {
        let n = next_u32();
        rolls.push(n);
    }
    for i in 0..table.drops.len()
        invariant
            drops == table.drops@,
            next_u32 == f,
            call_requires(f, ()),
            rolls@.len() == gold_rolls(min, max) + total(drops.take(i as int), drop_roll_counts()),
            forall|j: int| 0 <= j < rolls@.len() ==> call_ensures(f, (), #[trigger] rolls@[j]),
    {
        proof {
            lemma_total_take_step(drops, drop_roll_counts(), i as int);
        }
        if draws_roll(&table.drops[i]) {
            let n = next_u32();
            rolls.push(n);
        }
    }
    proof {
        lemma_total_take_all(drops, drop_roll_counts());
    }
    let loot = loot_for_rolls(table, rolls.as_slice());
    proof {
        assert(loot_from_rolls(*table, loot.gold, loot.items@, rolls@));
    }
    loot
}

/// Items a dead player drops: equipment first (display order), then the
/// bag's slots in order. Empty slots are skipped; copies keep their
/// inscriptions and ability picks.
pub open spec fn occupied(slots: Seq<Option<ItemInstance>>) -> Seq<ItemInstance>
    decreases slots.len(),
{
    if slots.len() == 0 {
        Seq::empty()
    } else {
        let before = occupied(slots.drop_last());
        match slots.last() {
            Some(item) => before.push(item),
            None => before,
        }
    }
}

/// Equipment first (`EquipSlot::ALL` order), then inventory slots in order.
/// Empty slots are skipped. Copies keep their inscriptions and ability picks.
pub fn collect_player_drops(inventory: &Inventory, equipment: &Equipment) -> (r: Vec<ItemInstance>)
    ensures
        r@ == occupied(equipment.in_order()) + occupied(inventory.slots@),
{
    let ghost eq = equipment.in_order();
    let ghost inv = inventory.slots@;
    let mut drops: Vec<ItemInstance> = Vec::new();
    for i in 0..EQUIP_SLOT_COUNT
        invariant
            eq == equipment.in_order(),
            eq.len() == EQUIP_SLOT_COUNT,
            drops@ == occupied(eq.take(i as int)),
    {
        proof {
            assert(eq.take(i + 1).drop_last() =~= eq.take(i as int));
        }
        let slot = EquipSlot::at(i);
        match duplicate_slot(equipment.get(slot)) {
            Some(item) => drops.push(item),
            None => {},
        }
    }
    proof {
        assert(eq.take(EQUIP_SLOT_COUNT as int) =~= eq);
    }
    let ghost head = drops@;
    for i in 0..INVENTORY_CAPACITY
        invariant
            inv == inventory.slots@,
            inv.len() == INVENTORY_CAPACITY,
            head == occupied(eq),
            drops@ == head + occupied(inv.take(i as int)),
    {
        proof {
            assert(inv.take(i + 1).drop_last() =~= inv.take(i as int));
        }
        match duplicate_slot(&inventory.slots[i]) {
            Some(item) => {
                drops.push(item);
                proof {
                    assert(drops@ =~= head + occupied(inv.take(i + 1)));
                }
            },
            None => {},
        }
    }
    proof {
        assert(inv.take(INVENTORY_CAPACITY as int) =~= inv);
    }
    drops
}

/// Whether a bag whose deadline is `expires_at_micros` is gone at `now_micros`.
///
/// Equal counts as expired, so a bag that lasts exactly its lifetime does
/// not survive the tick that lands on the deadline.
pub fn loot_bag_expired(now_micros: i64, expires_at_micros: i64) -> (r: bool)
    ensures
        r == (now_micros >= expires_at_micros),
{
    now_micros >= expires_at_micros
}

/// `item` is the item and the authored quantity of one of `drops` that
/// has some pieces and some chance.
pub open spec fn from_some_drop(item: (ItemId, u32), drops: Seq<LootDrop>) -> bool {
    exists|j: int|
        0 <= j < drops.len() && item == (#[trigger] drops[j]).item_id_and_quantity() && drops[j].quantity > 0
            && drops[j].chance_percent > 0
}

impl LootDrop {
    /// The item and the authored quantity this drop yields when it lands.
    pub open spec fn item_id_and_quantity(self) -> (ItemId, u32) {
        (self.item_id, self.quantity)
    }
}

/// Every item a roll yields is one of the drops, with that drop's item and
/// its authored quantity (a drop of zero pieces or zero chance never
/// yields); and every drop with a full chance and some pieces is yielded,
/// whatever the rolls.
pub proof fn lemma_rolled_items_carry_drop_quantities(drops: Seq<LootDrop>, rolls: Seq<u32>, base: nat)
    ensures
        rolled_items(drops, rolls, base).len() <= drops.len(),
        forall|i: int|
            0 <= i < rolled_items(drops, rolls, base).len() ==> from_some_drop(
                #[trigger] rolled_items(drops, rolls, base)[i],
                drops,
            ),
        forall|j: int|
            0 <= j < drops.len() && (#[trigger] drops[j]).chance_percent >= 100 && drops[j].quantity > 0
                ==> rolled_items(drops, rolls, base).contains(drops[j].item_id_and_quantity()),
    decreases drops.len(),
{
    if drops.len() > 0 {
        let front = drops.drop_last();
        lemma_rolled_items_carry_drop_quantities(front, rolls, base);
        let before = rolled_items(front, rolls, base);
        let items = rolled_items(drops, rolls, base);
        let n = (drops.len() - 1) as int;
        assert forall|i: int| 0 <= i < items.len() implies from_some_drop(#[trigger] items[i], drops) by {
            if i < before.len() {
                assert(items[i] == before[i]);
                assert(from_some_drop(before[i], front));
                let j = choose|j: int|
                    0 <= j < front.len() && before[i] == (#[trigger] front[j]).item_id_and_quantity()
                        && front[j].quantity > 0 && front[j].chance_percent > 0;
                assert(front[j] == drops[j]);
            } else {
                assert(items[i] == drops[n].item_id_and_quantity());
            }
        }
        assert forall|j: int|
            0 <= j < drops.len() && (#[trigger] drops[j]).chance_percent >= 100 && drops[j].quantity > 0 implies items.contains(
                drops[j].item_id_and_quantity(),
            ) by {
            if j < n {
                assert(front[j] == drops[j]);
                let i = choose|i: int| 0 <= i < before.len() && before[i] == front[j].item_id_and_quantity();
                assert(items[i] == before[i]);
            } else {
                assert(items[before.len() as int] == drops[n].item_id_and_quantity());
            }
        }
    }
}

/// The loot a table yields for any rolls: each item is one of the table's
/// drops with its authored quantity, and every drop with a full chance and
/// some pieces is in it.
pub proof fn lemma_loot_carries_drop_quantities(table: LootTable, gold: u64, items: Seq<(ItemId, u32)>, rolls: Seq<u32>)
    requires
        loot_from_rolls(table, gold, items, rolls),
    ensures
        forall|i: int| 0 <= i < items.len() ==> from_some_drop(#[trigger] items[i], table.drops@),
        forall|j: int|
            0 <= j < table.drops@.len() && (#[trigger] table.drops@[j]).chance_percent >= 100 && table.drops@[j].quantity
                > 0 ==> items.contains(table.drops@[j].item_id_and_quantity()),
{
    lemma_rolled_items_carry_drop_quantities(table.drops@, rolls, gold_rolls(table.gold@.start, table.gold@.end));
}

} // verus!
