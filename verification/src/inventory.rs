//! The generic bag of a player: a fixed row of slots, with stacking rules
//! for materials.

use vstd::prelude::*;

use crate::inventory_model::{
    can_merge, combined, combined_gain, feed_of, feeds, give_up, headroom, mergeable_pile, others,
    lemma_combined_within_cap, lemma_drained_within_cap, lemma_poured_within_cap,
    lemma_swapped_within_cap, pile_fits, piles_within_cap, pile_size, poured, pull_room_before, pulled_from, receive, swapped, lemma_count_swap, count_in, drain_slot, drained, empty_count, empty_marks, fill_slot, first_empty_at,
    fresh_owed_before, fresh_pile_size, fresh_slot_ok, full, lemma_count_update,
    lemma_space_split, left_after, owed_before, piles, slot_spaces, space_in, stack_cap,
    stack_room_in, stack_rooms, unplaced_after_piles, unplaced_before,
};
use crate::items::{ItemCategory, ItemId, ItemInstance, ItemInstanceId};
use crate::tally::{
    lemma_total_positive, lemma_total_prefix_le, lemma_total_take_all, lemma_total_take_step, total,
};

verus! {

/// Number of generic slots in [`Inventory`].
pub const INVENTORY_CAPACITY: usize = 30;

/// Why a stack operation was refused. The bag is left unchanged.
#[derive(Debug, Clone, Copy, PartialEq, Eq, Structural)]
pub enum StackOpError {
    SlotOutOfRange,
    SlotEmpty,
    NotStackable,
    AmountZero,
    AmountNotLessThanQuantity,
    AmountExceedsQuantity,
    InventoryFull,
}

impl StackOpError {
    /// Player-facing text of the refusal.
    pub open spec fn message(self) -> Seq<char> {
        match self {
            StackOpError::SlotOutOfRange => "inventory slot out of range"@,
            StackOpError::SlotEmpty => "inventory slot is empty"@,
            StackOpError::NotStackable => "item does not stack"@,
            StackOpError::AmountZero => "amount must be at least 1"@,
            StackOpError::AmountNotLessThanQuantity => "split amount must leave at least one piece"@,
            StackOpError::AmountExceedsQuantity => "not enough of that item"@,
            StackOpError::InventoryFull => "inventory is full"@,
        }
    }

    /// Player-facing text of the refusal.
    pub fn as_str(self) -> (r: &'static str)
        ensures
            r@ == self.message(),
    {
        match self {
            StackOpError::SlotOutOfRange => "inventory slot out of range",
            StackOpError::SlotEmpty => "inventory slot is empty",
            StackOpError::NotStackable => "item does not stack",
            StackOpError::AmountZero => "amount must be at least 1",
            StackOpError::AmountNotLessThanQuantity => "split amount must leave at least one piece",
            StackOpError::AmountExceedsQuantity => "not enough of that item",
            StackOpError::InventoryFull => "inventory is full",
        }
    }
}

/// Generic inventory of a player.
///
/// Unique items occupy one slot each. Materials stack in a slot up to
/// [`Inventory::MAX_STACK`]; a pile can be split into two slots or merged
/// with another pile of the same id. The layout is a fixed-size array so
/// that slot 7 is always slot 7.
#[derive(Debug, Clone, PartialEq)]
pub struct Inventory {
    pub slots: [Option<ItemInstance>; INVENTORY_CAPACITY],
}

impl Default for Inventory {
    fn default() -> (r: Inventory)
        ensures
            r.slots@.len() == INVENTORY_CAPACITY,
            forall|i: int| 0 <= i < INVENTORY_CAPACITY ==> r.slots@[i] is None,
            piles_within_cap(r.slots@),
    {
        Inventory {
            slots: [
                None, None, None, None, None, None, None, None, None, None,
                None, None, None, None, None, None, None, None, None, None,
                None, None, None, None, None, None, None, None, None, None,
            ],
        }
    }
}

/// Size of the fresh pile a merging insert opens with `rest` pieces left
/// after topping up (0 when nothing is left or no slot is empty).
pub open spec fn opened_size(slots: Seq<Option<ItemInstance>>, rest: nat) -> nat {
    if rest > 0 && !full(slots) {
        if rest > stack_cap() {
            stack_cap()
        } else {
            rest
        }
    } else {
        0
    }
}

/// The pile a merging insert places in the first empty slot. It keeps the
/// incoming id only when nothing is left over.
pub open spec fn opened_pile(instance: ItemInstance, rest: nat, size: nat) -> ItemInstance {
    ItemInstance {
        quantity: size as u32,
        instance_id: if rest > size {
            ItemInstanceId::unassigned_spec()
        } else {
            instance.instance_id
        },
        ..instance
    }
}

/// Outcome of inserting a mergeable `instance` into `before`, giving `after`.
pub open spec fn merged_insert(
    before: Seq<Option<ItemInstance>>,
    after: Seq<Option<ItemInstance>>,
    instance: ItemInstance,
    r: Result<Option<ItemInstance>, StackOpError>,
) -> bool {
    let id = instance.item_id@;
    let q = instance.quantity as nat;
    let rest = unplaced_after_piles(before, id, q);
    let size = opened_size(before, rest);
    let placed = (q - rest) + size;
    &&& placed == 0 ==> r == Err::<Option<ItemInstance>, StackOpError>(StackOpError::InventoryFull)
        && after == before
    &&& placed > 0 ==> {
        &&& forall|k: int|
            0 <= k < before.len() && before[k] is Some ==> #[trigger] after[k] == fill_slot(
                before[k],
                id,
                unplaced_before(before, id, q, k),
            )
        &&& forall|k: int|
            0 <= k < before.len() && before[k] is None ==> #[trigger] after[k] == (if size > 0
                && first_empty_at(before, k) {
                Some(opened_pile(instance, rest, size))
            } else {
                None
            })
        &&& count_in(after, id) == count_in(before, id) + placed
        &&& r == (if placed == q {
            Ok::<Option<ItemInstance>, StackOpError>(None)
        } else {
            Ok(Some(instance.with_quantity((q - placed) as u32)))
        })
    }
}

/// `min(q, 200)`: the most one pile can take of `q` pieces.
pub open spec fn one_stack_of(q: nat) -> nat {
    if q < stack_cap() {
        q
    } else {
        stack_cap()
    }
}

/// A mergeable insert into a bag with a free slot is never refused.
///
/// At least `min(q, 200)` of the `q > 0` pieces go in (the count of the
/// item grows by that much at least), and when no pile of the item has room
/// left, the first free slot opens a pile of the item with `min(q, 200)`
/// pieces.
pub proof fn lemma_merging_insert_is_not_refused(
    before: Seq<Option<ItemInstance>>,
    after: Seq<Option<ItemInstance>>,
    instance: ItemInstance,
    r: Result<Option<ItemInstance>, StackOpError>,
)
    requires
        merged_insert(before, after, instance, r),
        instance.quantity > 0,
        !full(before),
    ensures
        r is Ok,
        count_in(after, instance.item_id@) >= count_in(before, instance.item_id@) + one_stack_of(
            instance.quantity as nat,
        ),
        (forall|k: int|
            0 <= k < before.len() && #[trigger] before[k] is Some && before[k]->0.item_id@ == instance.item_id@
                && before[k]->0.mergeable() ==> before[k]->0.quantity >= stack_cap()) ==> forall|i: int|
            #[trigger] first_empty_at(before, i) ==> after[i] is Some && after[i]->0.item_id == instance.item_id
                && after[i]->0.quantity == one_stack_of(instance.quantity as nat),
{
    let id = instance.item_id@;
    let q = instance.quantity as nat;
    let rest = unplaced_after_piles(before, id, q);
    if forall|k: int|
        0 <= k < before.len() && #[trigger] before[k] is Some && before[k]->0.item_id@ == id
            && before[k]->0.mergeable() ==> before[k]->0.quantity >= stack_cap() {
        if stack_room_in(before, id) > 0 {
            let k = lemma_total_positive(before, stack_rooms(id));
            assert(before[k] is Some);
        }
        assert(rest == q);
        assert forall|i: int| #[trigger] first_empty_at(before, i) implies after[i] is Some
            && after[i]->0.item_id == instance.item_id && after[i]->0.quantity == one_stack_of(q) by {
            assert(before[i] is None);
        }
    }
}

/// Why splitting `amount` off slot `from` is refused, checked in this order.
pub open spec fn split_refusal(slots: Seq<Option<ItemInstance>>, from: int, amount: u32, stacks: bool) -> Option<StackOpError> {
    if !(0 <= from < INVENTORY_CAPACITY) {
        Some(StackOpError::SlotOutOfRange)
    } else if !stacks {
        Some(StackOpError::NotStackable)
    } else if amount == 0 {
        Some(StackOpError::AmountZero)
    } else if slots[from] is None {
        Some(StackOpError::SlotEmpty)
    } else if !slots[from]->0.mergeable() {
        Some(StackOpError::NotStackable)
    } else if amount >= slots[from]->0.quantity {
        Some(StackOpError::AmountNotLessThanQuantity)
    } else if full(slots) {
        Some(StackOpError::InventoryFull)
    } else {
        None
    }
}

/// Why taking `amount` out of slot `slot` is refused, checked in this order.
pub open spec fn take_refusal(slots: Seq<Option<ItemInstance>>, slot: int, amount: u32, stacks: bool) -> Option<StackOpError> {
    if !(0 <= slot < INVENTORY_CAPACITY) {
        Some(StackOpError::SlotOutOfRange)
    } else if amount == 0 {
        Some(StackOpError::AmountZero)
    } else if slots[slot] is None {
        Some(StackOpError::SlotEmpty)
    } else if amount > slots[slot]->0.quantity {
        Some(StackOpError::AmountExceedsQuantity)
    } else if amount == slots[slot]->0.quantity {
        None
    } else if !stacks || !slots[slot]->0.mergeable() {
        Some(StackOpError::NotStackable)
    } else {
        None
    }
}

/// `peeled` is `source` cut down to `amount` pieces under a new id.
pub open spec fn peeled_from(peeled: ItemInstance, source: ItemInstance, amount: u32) -> bool {
    peeled == ItemInstance { instance_id: peeled.instance_id, quantity: amount, ..source }
}

/// Legal split window for a pile of `quantity`: `1 ..= quantity - 1`.
pub open spec fn split_window(quantity: u32) -> Option<(u32, u32)> {
    if quantity < 2 {
        None
    } else {
        Some((1u32, (quantity - 1) as u32))
    }
}

/// `amount` clamped into `lo ..= hi`.
pub open spec fn clamped(amount: u32, lo: u32, hi: u32) -> u32 {
    if amount < lo {
        lo
    } else if amount > hi {
        hi
    } else {
        amount
    }
}

fn clamp_into(amount: u32, lo: u32, hi: u32) -> (r: u32)
    requires
        lo <= hi,
    ensures
        r == clamped(amount, lo, hi),
{
    if amount < lo {
        lo
    } else if amount > hi {
        hi
    } else {
        amount
    }
}

impl Inventory {
    /// Maximum quantity in one occupied slot. The bag owns this cap, not the item.
    pub const MAX_STACK: u32 = 200;

    /// Materials stack. Everything else stays unique (one instance per slot).
    pub fn stacks_category(category: ItemCategory) -> (r: bool)
        ensures
            r == (category == ItemCategory::Material),
    {
        match category {
            ItemCategory::Material => true,
            _ => false,
        }
    }

    /// Index of the first empty slot, if any.
    fn first_empty(&self) -> (r: Option<usize>)
        ensures
            match r {
                Some(i) => first_empty_at(self.slots@, i as int),
                None => full(self.slots@),
            },
    {
        let mut i: usize = 0;
        while i < INVENTORY_CAPACITY
            invariant
                i <= INVENTORY_CAPACITY,
                self.slots@.len() == INVENTORY_CAPACITY,
                forall|j: int| 0 <= j < i ==> self.slots@[j] is Some,
            decreases INVENTORY_CAPACITY - i,
        {
            if self.slots[i].is_none() {
                return Some(i);
            }
            i = i + 1;
        }
        None
    }

    /// Total quantity of `item_id` across every occupied slot.
    pub fn count_item(&self, item_id: &ItemId) -> (r: u32)
        requires
            count_in(self.slots@, item_id@) <= u32::MAX,
        ensures
            r == count_in(self.slots@, item_id@),
    {
        let ghost s = self.slots@;
        let ghost f = piles(item_id@);
        let mut sum: u32 = 0;
        for i in 0..INVENTORY_CAPACITY
            invariant
                s == self.slots@,
                s.len() == INVENTORY_CAPACITY,
                f == piles(item_id@),
                total(s, f) <= u32::MAX,
                sum == total(s.take(i as int), f),
        {
            proof {
                lemma_total_take_step(s, f, i as int);
                lemma_total_prefix_le(s, f, i + 1);
            }
            match &self.slots[i] {
                Some(item) => {
                    if item.item_id.same_as(item_id) {
                        sum = sum + item.quantity;
                    }
                },
                None => {},
            }
        }
        proof {
            lemma_total_take_all(s, f);
        }
        sum
    }

    /// Removes `amount` pieces of `item_id` from the first matching slots.
    ///
    /// Whole piles whose remaining quantity hits zero are cleared. Refused
    /// with the bag unchanged when `amount` is zero or the bag holds fewer
    /// than `amount` pieces.
    pub fn remove_item_amount(&mut self, item_id: &ItemId, amount: u32) -> (r: Result<(), StackOpError>)
        requires
            count_in(old(self).slots@, item_id@) <= u32::MAX,
        ensures
            amount == 0 ==> r == Err::<(), StackOpError>(StackOpError::AmountZero),
            amount > 0 && count_in(old(self).slots@, item_id@) < amount ==> r == Err::<(), StackOpError>(
                StackOpError::AmountExceedsQuantity,
            ),
            amount > 0 && count_in(old(self).slots@, item_id@) >= amount ==> r is Ok,
            r is Err ==> final(self).slots@ == old(self).slots@,
            r is Ok ==> final(self).slots@ == drained(old(self).slots@, item_id@, amount as nat),
            r is Ok ==> count_in(final(self).slots@, item_id@) == count_in(old(self).slots@, item_id@)
                - amount,
            piles_within_cap(old(self).slots@) ==> piles_within_cap(final(self).slots@),
    {
        if amount == 0 {
            return Err(StackOpError::AmountZero);
        }
        if self.count_item(item_id) < amount {
            return Err(StackOpError::AmountExceedsQuantity);
        }
        let ghost s = self.slots@;
        let ghost id = item_id@;
        let mut remaining = amount;
        for i in 0..INVENTORY_CAPACITY
            invariant
                s.len() == INVENTORY_CAPACITY,
                self.slots@.len() == INVENTORY_CAPACITY,
                id == item_id@,
                amount <= count_in(s, id),
                remaining == owed_before(s, id, amount as nat, i as int),
                forall|k: int| 0 <= k < i ==> self.slots@[k] == drain_slot(s[k], id, owed_before(s, id, amount as nat, k)),
                forall|k: int| i <= k < INVENTORY_CAPACITY ==> self.slots@[k] == s[k],
                count_in(self.slots@, id) == count_in(s, id) - (amount - remaining),
        {
            proof {
                lemma_total_take_step(s, piles(id), i as int);
            }
            let ghost before = self.slots@;
            if remaining > 0 {
                let mut taken: Option<ItemInstance> = None;
                std::mem::swap(&mut taken, &mut self.slots[i]);
                match taken {
                    Some(mut item) => {
                        if item.item_id.same_as(item_id) {
                            if item.quantity <= remaining {
                                remaining = remaining - item.quantity;
                            } else {
                                item.quantity = item.quantity - remaining;
                                remaining = 0;
                                self.slots[i] = Some(item);
                            }
                        } else {
                            self.slots[i] = Some(item);
                        }
                    },
                    None => {},
                }
            }
            proof {
                lemma_count_update(before, id, i as int, self.slots@[i as int]);
                assert(self.slots@ =~= before.update(i as int, self.slots@[i as int]));
            }
        }
        proof {
            lemma_total_take_all(s, piles(id));
            assert(self.slots@ =~= drained(s, id, amount as nat));
            if piles_within_cap(s) {
                lemma_drained_within_cap(s, id, amount as nat);
            }
        }
        Ok(())
    }

    /// How many more pieces of `item_id` this bag can accept.
    ///
    /// For a unique item that is the number of empty slots; for a stacking
    /// one, a full stack per empty slot plus the headroom on every mergeable
    /// pile of the same item.
    pub fn space_for(&self, item_id: &ItemId, stacks: bool) -> (r: u32)
        ensures
            !stacks ==> r == empty_count(self.slots@),
            stacks ==> r == space_in(self.slots@, item_id@),
    {
        let ghost s = self.slots@;
        if !stacks {
            let mut empty: u32 = 0;
            for i in 0..INVENTORY_CAPACITY
                invariant
                    s == self.slots@,
                    s.len() == INVENTORY_CAPACITY,
                    empty == empty_count(s.take(i as int)),
                    empty <= i,
            {
                proof {
                    lemma_total_take_step(s, empty_marks(), i as int);
                }
                if self.slots[i].is_none() {
                    empty = empty + 1;
                }
            }
            proof {
                lemma_total_take_all(s, empty_marks());
            }
            return empty;
        }
        let ghost f = slot_spaces(item_id@);
        let mut space: u32 = 0;
        for i in 0..INVENTORY_CAPACITY
            invariant
                s == self.slots@,
                s.len() == INVENTORY_CAPACITY,
                f == slot_spaces(item_id@),
                space == total(s.take(i as int), f),
                space <= Inventory::MAX_STACK * i,
        {
            proof {
                lemma_total_take_step(s, f, i as int);
            }
            match &self.slots[i] {
                Some(item) => {
                    if item.item_id.same_as(item_id) && item.is_stack_mergeable() {
                        if item.quantity < Inventory::MAX_STACK {
                            space = space + (Inventory::MAX_STACK - item.quantity);
                        }
                    }
                },
                None => {
                    space = space + Inventory::MAX_STACK;
                },
            }
        }
        proof {
            lemma_total_take_all(s, f);
        }
        space
    }

    /// Tops up the existing mergeable piles of `item_id`, in slot order,
    /// with up to `amount` pieces. Returns how many pieces are left over.
    fn top_up_piles(&mut self, item_id: &ItemId, amount: u32) -> (rest: u32)
        ensures
            rest == unplaced_after_piles(old(self).slots@, item_id@, amount as nat),
            forall|k: int|
                0 <= k < INVENTORY_CAPACITY ==> #[trigger] final(self).slots@[k] == fill_slot(
                    old(self).slots@[k],
                    item_id@,
                    unplaced_before(old(self).slots@, item_id@, amount as nat, k),
                ),
            forall|k: int| 0 <= k < INVENTORY_CAPACITY ==> (#[trigger] final(self).slots@[k] is None
                <==> old(self).slots@[k] is None),
            count_in(final(self).slots@, item_id@) == count_in(old(self).slots@, item_id@) + (amount
                - rest),
            rest == amount ==> final(self).slots@ == old(self).slots@,
    {
        let ghost s = self.slots@;
        let ghost id = item_id@;
        let mut remaining = amount;
        for i in 0..INVENTORY_CAPACITY
            invariant
                s.len() == INVENTORY_CAPACITY,
                self.slots@.len() == INVENTORY_CAPACITY,
                id == item_id@,
                remaining <= amount,
                remaining == unplaced_before(s, id, amount as nat, i as int),
                forall|k: int| 0 <= k < i ==> self.slots@[k] == fill_slot(s[k], id, unplaced_before(s, id, amount as nat, k)),
                forall|k: int| i <= k < INVENTORY_CAPACITY ==> self.slots@[k] == s[k],
                count_in(self.slots@, id) == count_in(s, id) + (amount - remaining),
                remaining == amount ==> self.slots@ == s,
        {
            proof {
                lemma_total_take_step(s, stack_rooms(id), i as int);
            }
            let ghost before = self.slots@;
            if remaining > 0 {
                let mut taken: Option<ItemInstance> = None;
                std::mem::swap(&mut taken, &mut self.slots[i]);
                match taken {
                    Some(mut item) => {
                        if item.item_id.same_as(item_id) && item.is_stack_mergeable()
                            && item.quantity < Inventory::MAX_STACK {
                            let room = Inventory::MAX_STACK - item.quantity;
                            let add = if remaining < room { remaining } else { room };
                            item.quantity = item.quantity + add;
                            remaining = remaining - add;
                        }
                        self.slots[i] = Some(item);
                    },
                    None => {},
                }
            }
            proof {
                lemma_count_update(before, id, i as int, self.slots@[i as int]);
                assert(self.slots@ =~= before.update(i as int, self.slots@[i as int]));
                if remaining == amount {
                    assert(self.slots@ =~= s);
                }
            }
        }
        proof {
            lemma_total_take_all(s, stack_rooms(id));
        }
        remaining
    }

    /// Adds up to `amount` of a stackable item. Returns how many were placed.
    ///
    /// Existing mergeable piles of the same item are topped up first, in slot
    /// order; what is left opens fresh piles of at most [`Inventory::MAX_STACK`]
    /// in the empty slots, in slot order, each with an id drawn from `mint`.
    pub fn add_stackable<F: FnMut() -> ItemInstanceId>(&mut self, item_id: ItemId, amount: u32, mut mint: F) -> (r: u32)
        requires
            call_requires(mint, ()),
        ensures
            r == (if amount < space_in(old(self).slots@, item_id@) {
                amount as nat
            } else {
                space_in(old(self).slots@, item_id@)
            }),
            count_in(final(self).slots@, item_id@) == count_in(old(self).slots@, item_id@) + r,
            forall|k: int|
                0 <= k < INVENTORY_CAPACITY && old(self).slots@[k] is Some ==> #[trigger] final(self).slots@[k]
                    == fill_slot(old(self).slots@[k], item_id@, unplaced_before(old(self).slots@, item_id@, amount as nat, k)),
            forall|k: int|
                0 <= k < INVENTORY_CAPACITY && old(self).slots@[k] is None ==> fresh_slot_ok(
                    #[trigger] final(self).slots@[k],
                    item_id@,
                    fresh_pile_size(
                        old(self).slots@,
                        unplaced_after_piles(old(self).slots@, item_id@, amount as nat),
                        k,
                    ),
                ),
            forall|k: int|
                0 <= k < INVENTORY_CAPACITY && old(self).slots@[k] is None && #[trigger] final(self).slots@[k] is Some
                    ==> call_ensures(mint, (), final(self).slots@[k]->0.instance_id),
            piles_within_cap(old(self).slots@) ==> piles_within_cap(final(self).slots@),
    {
        let ghost s = self.slots@;
        let ghost id = item_id@;
        let ghost minter = mint;
        proof {
            lemma_space_split(s, id);
        }
        let mut remaining = self.top_up_piles(&item_id, amount);
        let ghost rest = remaining as nat;
        let ghost mid = self.slots@;
        for i in 0..INVENTORY_CAPACITY
            invariant
                s.len() == INVENTORY_CAPACITY,
                mid.len() == INVENTORY_CAPACITY,
                self.slots@.len() == INVENTORY_CAPACITY,
                id == item_id@,
                mint == minter,
                call_requires(minter, ()),
                forall|k: int| 0 <= k < i && s[k] is None && #[trigger] self.slots@[k] is Some ==> call_ensures(minter, (), self.slots@[k]->0.instance_id),
                rest == unplaced_after_piles(s, id, amount as nat),
                rest <= amount,
                space_in(s, id) == stack_room_in(s, id) + stack_cap() * empty_count(s),
                remaining == fresh_owed_before(s, rest, i as int),
                forall|k: int| 0 <= k < INVENTORY_CAPACITY ==> (#[trigger] mid[k] is None <==> s[k] is None),
                forall|k: int| 0 <= k < INVENTORY_CAPACITY && s[k] is Some ==> mid[k] == fill_slot(s[k], id, unplaced_before(s, id, amount as nat, k)),
                forall|k: int| 0 <= k < INVENTORY_CAPACITY && s[k] is Some ==> self.slots@[k] == mid[k],
                forall|k: int| 0 <= k < i && s[k] is None ==> fresh_slot_ok(self.slots@[k], id, fresh_pile_size(s, rest, k)),
                forall|k: int| i <= k < INVENTORY_CAPACITY ==> self.slots@[k] == mid[k],
                count_in(self.slots@, id) == count_in(s, id) + (amount - remaining),
        {
            proof {
                lemma_total_take_step(s, empty_marks(), i as int);
                assert(empty_count(s.take(i + 1)) == empty_count(s.take(i as int)) + (if s[i as int] is None { 1nat } else { 0nat }));
                assert(self.slots@[i as int] == mid[i as int]);
            }
            let ghost before = self.slots@;
            if remaining > 0 && self.slots[i].is_none() {
                let add = if remaining < Inventory::MAX_STACK { remaining } else { Inventory::MAX_STACK };
                let mut instance = ItemInstance::new(item_id.duplicate());
                instance.instance_id = mint();
                instance.quantity = add;
                self.slots[i] = Some(instance);
                remaining = remaining - add;
                proof {
                    lemma_count_update(before, id, i as int, self.slots@[i as int]);
                }
            }
        }
        proof {
            lemma_total_take_all(s, empty_marks());
            assert forall|k: int|
                0 <= k < INVENTORY_CAPACITY && s[k] is Some implies #[trigger] self.slots@[k]
                    == fill_slot(s[k], id, unplaced_before(s, id, amount as nat, k)) by {
                assert(self.slots@[k] == mid[k]);
            }
            if piles_within_cap(s) {
                assert forall|k: int| 0 <= k < INVENTORY_CAPACITY implies #[trigger] pile_fits(self.slots@[k]) by {
                    assert(pile_fits(s[k]));
                    if s[k] is Some {
                        assert(self.slots@[k] == mid[k]);
                    } else {
                        assert(fresh_slot_ok(self.slots@[k], id, fresh_pile_size(s, rest, k)));
                    }
                }
            }
        }
        amount - remaining
    }

    /// Places `instance` into this bag.
    ///
    /// Mergeable materials fill existing piles first, then occupy at most one
    /// empty slot; what still does not fit is handed back. Unique items are
    /// all-or-nothing: [`StackOpError::InventoryFull`] leaves the bag unchanged.
    pub fn insert_instance(&mut self, instance: ItemInstance, stacks: bool) -> (r: Result<Option<ItemInstance>, StackOpError>)
        ensures
            instance.quantity == 0 ==> r == Err::<Option<ItemInstance>, StackOpError>(StackOpError::AmountZero)
                && final(self).slots@ == old(self).slots@,
            instance.quantity > 0 && !(stacks && instance.mergeable()) && full(old(self).slots@) ==> r
                == Err::<Option<ItemInstance>, StackOpError>(StackOpError::InventoryFull) && final(self).slots@
                == old(self).slots@,
            instance.quantity > 0 && !(stacks && instance.mergeable()) && !full(old(self).slots@) ==> r
                == Ok::<Option<ItemInstance>, StackOpError>(None),
            instance.quantity > 0 && !(stacks && instance.mergeable()) ==> forall|i: int|
                #[trigger] first_empty_at(old(self).slots@, i) ==> final(self).slots@ == old(self).slots@.update(
                    i,
                    Some(instance),
                ),
            instance.quantity > 0 && stacks && instance.mergeable() ==> merged_insert(
                old(self).slots@,
                final(self).slots@,
                instance,
                r,
            ),
            piles_within_cap(old(self).slots@) && (instance.quantity <= stack_cap() || stacks
                && instance.mergeable()) ==> piles_within_cap(final(self).slots@),
            instance.quantity > 0 && !full(old(self).slots@) ==> r is Ok,
            instance.quantity > 0 && stacks && instance.mergeable() && !full(old(self).slots@) ==> count_in(
                final(self).slots@,
                instance.item_id@,
            ) >= count_in(old(self).slots@, instance.item_id@) + one_stack_of(instance.quantity as nat),
    {
        if instance.quantity == 0 {
            return Err(StackOpError::AmountZero);
        }
        let merge = stacks && instance.is_stack_mergeable();
        if !merge {
            match self.first_empty() {
                None => {
                    return Err(StackOpError::InventoryFull);
                },
                Some(index) => {
                    let ghost s0 = self.slots@;
                    let ghost q0 = instance.quantity;
                    self.slots[index] = Some(instance);
                    proof {
                        if piles_within_cap(s0) && q0 <= stack_cap() {
                            assert forall|k: int| 0 <= k < INVENTORY_CAPACITY implies #[trigger] pile_fits(self.slots@[k]) by {
                                assert(pile_fits(s0[k]));
                            }
                        }
                    }
                    return Ok(None);
                },
            }
        }
        let ghost s = self.slots@;
        let ghost id = instance.item_id@;
        let q = instance.quantity;
        let rest = self.top_up_piles(&instance.item_id, q);
        let ghost mid = self.slots@;
        let mut placed = q - rest;
        let mut leftover = rest;
        if rest > 0 {
            match self.first_empty() {
                Some(index) => {
                    proof {
                        assert(mid[index as int] is None);
                        assert forall|j: int| 0 <= j < index implies s[j] is Some by {
                            assert(mid[j] is Some);
                        }
                    }
                    let qty = if rest < Inventory::MAX_STACK { rest } else { Inventory::MAX_STACK };
                    let left = rest - qty;
                    let mut occupying = instance.duplicate();
                    occupying.quantity = qty;
                    if left > 0 {
                        occupying.instance_id = ItemInstanceId::unassigned();
                    }
                    self.slots[index] = Some(occupying);
                    proof {
                        lemma_count_update(mid, id, index as int, self.slots@[index as int]);
                    }
                    leftover = left;
                    placed = placed + qty;
                },
                None => {
                    proof {
                        assert forall|j: int| 0 <= j < s.len() implies s[j] is Some by {
                            assert(mid[j] is Some);
                        }
                    }
                },
            }
        }
        proof {
            if rest == 0 {
                assert(!(rest > 0));
            }
            if piles_within_cap(s) {
                assert forall|k: int| 0 <= k < INVENTORY_CAPACITY implies #[trigger] pile_fits(self.slots@[k]) by {
                    assert(pile_fits(s[k]));
                    assert(pile_fits(mid[k]));
                }
            }
        }
        if placed == 0 {
            Err(StackOpError::InventoryFull)
        } else if leftover == 0 {
            Ok(None)
        } else {
            let mut back = instance;
            back.quantity = leftover;
            Ok(Some(back))
        }
    }

    /// Peels `amount` off `from` into the first empty slot, whose index is
    /// returned. The peeled pile gets an id drawn from `mint`.
    ///
    /// `stacks` is the bag rule for this item type (materials only). Unique
    /// items must pass `false`.
    pub fn split_stack<F: FnOnce() -> ItemInstanceId>(&mut self, from: usize, amount: u32, stacks: bool, mint: F) -> (r: Result<usize, StackOpError>)
        requires
            call_requires(mint, ()),
        ensures
            split_refusal(old(self).slots@, from as int, amount, stacks) matches Some(e) ==> r == Err::<usize, StackOpError>(e)
                && final(self).slots@ == old(self).slots@,
            split_refusal(old(self).slots@, from as int, amount, stacks) is None ==> r is Ok,
            r matches Ok(dest) ==> {
                let source = old(self).slots@[from as int]->0;
                &&& first_empty_at(old(self).slots@, dest as int)
                &&& final(self).slots@ == old(self).slots@.update(
                    from as int,
                    Some(source.with_quantity((source.quantity - amount) as u32)),
                ).update(dest as int, final(self).slots@[dest as int])
                &&& final(self).slots@[dest as int] is Some
                &&& peeled_from(final(self).slots@[dest as int]->0, source, amount)
                &&& call_ensures(mint, (), final(self).slots@[dest as int]->0.instance_id)
            },
            forall|id: Seq<char>| #[trigger] count_in(final(self).slots@, id) == count_in(old(self).slots@, id),
            piles_within_cap(old(self).slots@) ==> piles_within_cap(final(self).slots@),
    {
        if from >= INVENTORY_CAPACITY {
            return Err(StackOpError::SlotOutOfRange);
        }
        if !stacks {
            return Err(StackOpError::NotStackable);
        }
        if amount == 0 {
            return Err(StackOpError::AmountZero);
        }
        match &self.slots[from] {
            None => {
                return Err(StackOpError::SlotEmpty);
            },
            Some(source) => {
                if !source.is_stack_mergeable() {
                    return Err(StackOpError::NotStackable);
                }
                if amount >= source.quantity {
                    return Err(StackOpError::AmountNotLessThanQuantity);
                }
            },
        }
        let dest = match self.first_empty() {
            None => {
                return Err(StackOpError::InventoryFull);
            },
            Some(d) => d,
        };
        let ghost s = self.slots@;
        let mut taken: Option<ItemInstance> = None;
        std::mem::swap(&mut taken, &mut self.slots[from]);
        match taken {
            Some(mut source) => {
                let mut peeled = source.duplicate();
                peeled.instance_id = mint();
                peeled.quantity = amount;
                source.quantity = source.quantity - amount;
                self.slots[from] = Some(source);
                let ghost mid = self.slots@;
                self.slots[dest] = Some(peeled);
                proof {
                    assert(self.slots@ =~= s.update(from as int, mid[from as int]).update(
                        dest as int,
                        self.slots@[dest as int],
                    ));
                    assert forall|id: Seq<char>| #[trigger] count_in(self.slots@, id) == count_in(s, id) by {
                        lemma_count_update(s, id, from as int, mid[from as int]);
                        assert(mid =~= s.update(from as int, mid[from as int]));
                        lemma_count_update(mid, id, dest as int, self.slots@[dest as int]);
                    }
                    if piles_within_cap(s) {
                        assert forall|k: int| 0 <= k < INVENTORY_CAPACITY implies #[trigger] pile_fits(self.slots@[k]) by {
                            assert(pile_fits(s[k]));
                            assert(pile_fits(s[from as int]));
                        }
                    }
                }
                Ok(dest)
            },
            None => {
                proof {
                    assert(false);
                }
                Err(StackOpError::SlotEmpty)
            },
        }
    }

    /// Removes `amount` from `slot` and returns that pile.
    ///
    /// Taking the whole pile empties the slot and keeps the pile's own id.
    /// Taking less peels a new pile (id drawn from `mint`) and leaves the
    /// rest in place; no free slot is needed, since the peeled pile leaves
    /// the bag.
    pub fn take_amount<F: FnOnce() -> ItemInstanceId>(&mut self, slot: usize, amount: u32, stacks: bool, mint: F) -> (r: Result<ItemInstance, StackOpError>)
        requires
            call_requires(mint, ()),
        ensures
            take_refusal(old(self).slots@, slot as int, amount, stacks) matches Some(e) ==> r == Err::<ItemInstance, StackOpError>(e)
                && final(self).slots@ == old(self).slots@,
            take_refusal(old(self).slots@, slot as int, amount, stacks) is None ==> r is Ok,
            r matches Ok(item) ==> {
                let source = old(self).slots@[slot as int]->0;
                &&& amount == source.quantity ==> item == source && final(self).slots@ == old(self).slots@.update(slot as int, None)
                &&& amount < source.quantity ==> peeled_from(item, source, amount) && call_ensures(mint, (), item.instance_id)
                    && final(self).slots@
                    == old(self).slots@.update(slot as int, Some(source.with_quantity((source.quantity - amount) as u32)))
                &&& count_in(final(self).slots@, source.item_id@) + amount == count_in(old(self).slots@, source.item_id@)
            },
            piles_within_cap(old(self).slots@) ==> piles_within_cap(final(self).slots@),
    {
        if slot >= INVENTORY_CAPACITY {
            return Err(StackOpError::SlotOutOfRange);
        }
        if amount == 0 {
            return Err(StackOpError::AmountZero);
        }
        let (quantity, mergeable) = match &self.slots[slot] {
            None => {
                return Err(StackOpError::SlotEmpty);
            },
            Some(source) => (source.quantity, source.is_stack_mergeable()),
        };
        if amount > quantity {
            return Err(StackOpError::AmountExceedsQuantity);
        }
        let ghost s = self.slots@;
        let ghost id = s[slot as int]->0.item_id@;
        if amount == quantity {
            let mut taken: Option<ItemInstance> = None;
            std::mem::swap(&mut taken, &mut self.slots[slot]);
            proof {
                assert(self.slots@ =~= s.update(slot as int, None));
                lemma_count_update(s, id, slot as int, None);
                if piles_within_cap(s) {
                    assert forall|k: int| 0 <= k < INVENTORY_CAPACITY implies #[trigger] pile_fits(self.slots@[k]) by {
                        assert(pile_fits(s[k]));
                    }
                }
            }
            match taken {
                Some(item) => {
                    return Ok(item);
                },
                None => {
                    proof {
                        assert(false);
                    }
                    return Err(StackOpError::SlotEmpty);
                },
            }
        }
        if !stacks || !mergeable {
            return Err(StackOpError::NotStackable);
        }
        let mut taken: Option<ItemInstance> = None;
        std::mem::swap(&mut taken, &mut self.slots[slot]);
        match taken {
            Some(mut source) => {
                let mut peeled = source.duplicate();
                peeled.instance_id = mint();
                peeled.quantity = amount;
                source.quantity = source.quantity - amount;
                self.slots[slot] = Some(source);
                proof {
                    assert(self.slots@ =~= s.update(slot as int, self.slots@[slot as int]));
                    lemma_count_update(s, id, slot as int, self.slots@[slot as int]);
                    if piles_within_cap(s) {
                        assert forall|k: int| 0 <= k < INVENTORY_CAPACITY implies #[trigger] pile_fits(self.slots@[k]) by {
                            assert(pile_fits(s[k]));
                        }
                    }
                }
                Ok(peeled)
            },
            None => {
                proof {
                    assert(false);
                }
                Err(StackOpError::SlotEmpty)
            },
        }
    }

    /// Quantity held in slot `i`, 0 when it is empty.
    fn quantity_at(&self, i: usize) -> (r: u32)
        requires
            i < INVENTORY_CAPACITY,
        ensures
            r == pile_size(self.slots@[i as int]),
    {
        match &self.slots[i] {
            Some(item) => item.quantity,
            None => 0,
        }
    }

    /// Whether `from` can pour into `to` without swapping.
    ///
    /// The destination must have room (`quantity < MAX_STACK`); a full
    /// destination is not mergeable, so [`Self::move_or_merge`] swaps instead.
    pub fn can_merge_slots(&self, from: usize, to: usize, stacks: bool) -> (r: bool)
        ensures
            r == can_merge(self.slots@, from as int, to as int, stacks),
    {
        if !stacks || from == to || from >= INVENTORY_CAPACITY || to >= INVENTORY_CAPACITY {
            return false;
        }
        match (&self.slots[from], &self.slots[to]) {
            (Some(src), Some(dst)) => {
                src.item_id.same_as(&dst.item_id) && src.is_stack_mergeable() && dst.is_stack_mergeable()
                    && dst.quantity < Inventory::MAX_STACK
            },
            _ => false,
        }
    }

    /// True when another occupied slot can pour into `dest`.
    pub fn has_other_mergeable_stack(&self, dest: usize, stacks: bool) -> (r: bool)
        ensures
            r == exists|i: int| 0 <= i < INVENTORY_CAPACITY && #[trigger] can_merge(self.slots@, i, dest as int, stacks),
    {
        for index in 0..INVENTORY_CAPACITY
            invariant
                forall|i: int| 0 <= i < index ==> !#[trigger] can_merge(self.slots@, i, dest as int, stacks),
        {
            if self.can_merge_slots(index, dest, stacks) {
                return true;
            }
        }
        false
    }

    /// Pours as much of `from` into `to` as the stack cap allows. A source
    /// that empties is cleared. Callers check [`Self::can_merge_slots`]
    /// first; only then are the pieces conserved.
    fn transfer_stack(&mut self, from: usize, to: usize)
        requires
            from < INVENTORY_CAPACITY,
            to < INVENTORY_CAPACITY,
        ensures
            from == to ==> final(self).slots@ == old(self).slots@,
            from != to ==> final(self).slots@ == poured(old(self).slots@, from as int, to as int),
            can_merge(old(self).slots@, from as int, to as int, true) ==> forall|id: Seq<char>|
                #[trigger] count_in(final(self).slots@, id) == count_in(old(self).slots@, id),
    {
        if from == to {
            return;
        }
        let ghost s = self.slots@;
        let src_qty = self.quantity_at(from);
        let dest_qty = self.quantity_at(to);
        let room = if dest_qty < Inventory::MAX_STACK { Inventory::MAX_STACK - dest_qty } else { 0 };
        let moved = if src_qty < room { src_qty } else { room };
        if moved == 0 {
            proof {
                assert(s.update(to as int, receive(s[to as int], 0)) =~= s);
                assert(poured(s, from as int, to as int) =~= s);
            }
            return;
        }
        let mut dest_slot: Option<ItemInstance> = None;
        std::mem::swap(&mut dest_slot, &mut self.slots[to]);
        match dest_slot {
            Some(mut dest) => {
                dest.quantity = dest.quantity + moved;
                self.slots[to] = Some(dest);
            },
            None => {},
        }
        let ghost mid = self.slots@;
        let mut src_slot: Option<ItemInstance> = None;
        std::mem::swap(&mut src_slot, &mut self.slots[from]);
        match src_slot {
            Some(mut src) => {
                if src.quantity > moved {
                    src.quantity = src.quantity - moved;
                    self.slots[from] = Some(src);
                }
            },
            None => {},
        }
        proof {
            assert(mid =~= s.update(to as int, mid[to as int]));
            assert(self.slots@ =~= mid.update(from as int, self.slots@[from as int]));
            assert(self.slots@ =~= poured(s, from as int, to as int));
            if can_merge(s, from as int, to as int, true) {
                assert forall|id: Seq<char>| #[trigger] count_in(self.slots@, id) == count_in(s, id) by {
                    lemma_count_update(s, id, to as int, mid[to as int]);
                    lemma_count_update(mid, id, from as int, self.slots@[from as int]);
                }
            }
        }
    }

    /// Moves `from` onto `to`, merging same-item mergeable piles when there
    /// is room and swapping otherwise (including onto a full pile).
    pub fn move_or_merge(&mut self, from: usize, to: usize, stacks: bool) -> (r: Result<(), StackOpError>)
        ensures
            from >= INVENTORY_CAPACITY || to >= INVENTORY_CAPACITY ==> r == Err::<(), StackOpError>(StackOpError::SlotOutOfRange)
                && final(self).slots@ == old(self).slots@,
            from < INVENTORY_CAPACITY && to < INVENTORY_CAPACITY ==> r is Ok,
            r is Ok && from == to ==> final(self).slots@ == old(self).slots@,
            r is Ok && can_merge(old(self).slots@, from as int, to as int, stacks) ==> final(self).slots@
                == poured(old(self).slots@, from as int, to as int),
            r is Ok && from != to && !can_merge(old(self).slots@, from as int, to as int, stacks) ==> final(self).slots@
                == swapped(old(self).slots@, from as int, to as int),
            forall|id: Seq<char>| #[trigger] count_in(final(self).slots@, id) == count_in(old(self).slots@, id),
            piles_within_cap(old(self).slots@) ==> piles_within_cap(final(self).slots@),
    {
        if from >= INVENTORY_CAPACITY || to >= INVENTORY_CAPACITY {
            return Err(StackOpError::SlotOutOfRange);
        }
        if from == to {
            return Ok(());
        }
        let ghost s = self.slots@;
        if self.can_merge_slots(from, to, stacks) {
            self.transfer_stack(from, to);
            proof {
                if piles_within_cap(s) {
                    lemma_poured_within_cap(s, from as int, to as int);
                }
            }
            return Ok(());
        }
        let mut a: Option<ItemInstance> = None;
        std::mem::swap(&mut a, &mut self.slots[from]);
        let mut b: Option<ItemInstance> = None;
        std::mem::swap(&mut b, &mut self.slots[to]);
        self.slots[from] = b;
        self.slots[to] = a;
        proof {
            assert(self.slots@ =~= swapped(s, from as int, to as int));
            assert forall|id: Seq<char>| #[trigger] count_in(self.slots@, id) == count_in(s, id) by {
                lemma_count_swap(s, id, from as int, to as int);
            }
            if piles_within_cap(s) {
                lemma_swapped_within_cap(s, from as int, to as int);
            }
        }
        Ok(())
    }

    /// Pulls every other pile of the same item into `dest`, in slot order,
    /// up to [`Self::MAX_STACK`]. Returns how many pieces were added.
    pub fn combine_into(&mut self, dest: usize, stacks: bool) -> (r: Result<u32, StackOpError>)
        ensures
            dest >= INVENTORY_CAPACITY ==> r == Err::<u32, StackOpError>(StackOpError::SlotOutOfRange),
            dest < INVENTORY_CAPACITY && !stacks ==> r == Err::<u32, StackOpError>(StackOpError::NotStackable),
            dest < INVENTORY_CAPACITY && stacks && old(self).slots@[dest as int] is None ==> r == Err::<u32, StackOpError>(
                StackOpError::SlotEmpty,
            ),
            dest < INVENTORY_CAPACITY && stacks && old(self).slots@[dest as int] is Some
                && !old(self).slots@[dest as int]->0.mergeable() ==> r == Err::<u32, StackOpError>(StackOpError::NotStackable),
            r is Err ==> final(self).slots@ == old(self).slots@,
            dest < INVENTORY_CAPACITY && stacks && old(self).slots@[dest as int] is Some
                && old(self).slots@[dest as int]->0.mergeable() ==> r == Ok::<u32, StackOpError>(
                combined_gain(old(self).slots@, dest as int) as u32,
            ) && final(self).slots@ == combined(old(self).slots@, dest as int),
            forall|id: Seq<char>| #[trigger] count_in(final(self).slots@, id) == count_in(old(self).slots@, id),
            piles_within_cap(old(self).slots@) ==> piles_within_cap(final(self).slots@),
    {
        if dest >= INVENTORY_CAPACITY {
            return Err(StackOpError::SlotOutOfRange);
        }
        if !stacks {
            return Err(StackOpError::NotStackable);
        }
        match &self.slots[dest] {
            None => {
                return Err(StackOpError::SlotEmpty);
            },
            Some(target) => {
                if !target.is_stack_mergeable() {
                    return Err(StackOpError::NotStackable);
                }
            },
        }
        let ghost s = self.slots@;
        let ghost d = dest as int;
        let ghost id = s[d]->0.item_id@;
        let ghost room = headroom(s[d]->0.quantity);
        let ghost o = others(s, d);
        let mut added: u32 = 0;
        for index in 0..INVENTORY_CAPACITY
            invariant
                s.len() == INVENTORY_CAPACITY,
                self.slots@.len() == INVENTORY_CAPACITY,
                0 <= d < INVENTORY_CAPACITY,
                d == dest,
                s[d] is Some,
                s[d]->0.mergeable(),
                id == s[d]->0.item_id@,
                room == headroom(s[d]->0.quantity),
                o == others(s, d),
                o.len() == INVENTORY_CAPACITY,
                added as nat == room - pull_room_before(s, d, index as int),
                added <= room,
                pull_room_before(s, d, index as int) <= room,
                self.slots@[d] == receive(s[d], added as nat),
                forall|k: int| 0 <= k < index && k != d ==> self.slots@[k] == give_up(s[k], pulled_from(s, d, k)),
                forall|k: int| index <= k < INVENTORY_CAPACITY && k != d ==> self.slots@[k] == s[k],
                forall|x: Seq<char>| #[trigger] count_in(self.slots@, x) == count_in(s, x),
        {
            proof {
                lemma_total_take_step(o, feeds(id), index as int);
                assert(o[index as int] == if index as int == d { None } else { s[index as int] });
            }
            let ghost cur = self.slots@;
            if self.can_merge_slots(index, dest, true) {
                let before = self.quantity_at(dest);
                self.transfer_stack(index, dest);
                let after = self.quantity_at(dest);
                added = added + (after - before);
                proof {
                    assert(self.slots@ =~= poured(cur, index as int, d));
                }
            } else {
                proof {
                    if index as int != d {
                        assert(!mergeable_pile(s[index as int], id) || pull_room_before(s, d, index as int) == 0);
                    }
                }
            }
        }
        proof {
            lemma_total_take_all(o, feeds(id));
            assert(self.slots@ =~= combined(s, d));
            if piles_within_cap(s) {
                lemma_combined_within_cap(s, d);
            }
        }
        Ok(added)
    }

    /// Amount the split control should start at for a pile of `quantity`.
    ///
    /// Half the pile, leaving at least one piece in the source; `0` when the
    /// pile cannot be split.
    pub fn default_split_amount(quantity: u32) -> (r: u32)
        ensures
            r == (if quantity < 2 { 0 } else { quantity / 2 }),
            quantity >= 2 ==> 1 <= r && r < quantity,
    {
        match Self::split_amount_bounds(quantity) {
            Some((lo, hi)) => clamp_into(quantity / 2, lo, hi),
            None => 0,
        }
    }

    /// Inclusive `1 ..= quantity - 1` when `quantity >= 2`.
    pub fn split_amount_bounds(quantity: u32) -> (r: Option<(u32, u32)>)
        ensures
            r == split_window(quantity),
    {
        if quantity < 2 {
            None
        } else {
            Some((1, quantity - 1))
        }
    }

    /// Clamps a typed or stepped amount into the legal split window.
    pub fn clamp_split_amount(amount: u32, quantity: u32) -> (r: u32)
        ensures
            quantity < 2 ==> r == 0,
            quantity >= 2 ==> r == clamped(amount, 1, (quantity - 1) as u32),
            quantity >= 2 ==> 1 <= r && r < quantity,
    {
        match Self::split_amount_bounds(quantity) {
            Some((lo, hi)) => clamp_into(amount, lo, hi),
            None => 0,
        }
    }

    /// Inclusive `1 ..= available` when the pile is not empty.
    pub fn trade_amount_bounds(available: u32) -> (r: Option<(u32, u32)>)
        ensures
            available == 0 ==> r is None,
            available > 0 ==> r == Some((1u32, available)),
    {
        if available == 0 {
            None
        } else {
            Some((1, available))
        }
    }

    /// Sell-all by default. Unique items stay at 1.
    pub fn default_trade_amount(available: u32) -> (r: u32)
        ensures
            r == available,
    {
        available
    }

    /// Clamps a listing or instant-sell amount into `1 ..= available`.
    pub fn clamp_trade_amount(amount: u32, available: u32) -> (r: u32)
        ensures
            available == 0 ==> r == 0,
            available > 0 ==> r == clamped(amount, 1, available),
            available > 0 ==> 1 <= r && r <= available,
    {
        match Self::trade_amount_bounds(available) {
            Some((lo, hi)) => clamp_into(amount, lo, hi),
            None => 0,
        }
    }
}

} // verus!
