//! The mathematical model of a bag: what each slot holds, what the bag
//! counts and how much room it has, and the exact layouts that the bag's
//! operations produce.

use vstd::prelude::*;

use crate::items::ItemInstance;
use crate::tally::{
    lemma_total_add, lemma_total_positive, lemma_total_prefix_le, lemma_total_scale,
    lemma_total_take_step, lemma_total_update, total,
};

verus! {

/// Largest quantity a single occupied slot may reach through stacking.
pub open spec fn stack_cap() -> nat {
    200
}

/// Pieces of `id` held in one slot.
pub open spec fn pile_of(slot: Option<ItemInstance>, id: Seq<char>) -> nat {
    match slot {
        Some(item) => if item.item_id@ == id {
            item.quantity as nat
        } else {
            0
        },
        None => 0,
    }
}

pub open spec fn piles(id: Seq<char>) -> spec_fn(Option<ItemInstance>) -> nat {
    |slot: Option<ItemInstance>| pile_of(slot, id)
}

/// Total pieces of `id` across every slot.
pub open spec fn count_in(slots: Seq<Option<ItemInstance>>, id: Seq<char>) -> nat {
    total(slots, piles(id))
}

/// `1` for an empty slot, `0` for an occupied one.
pub open spec fn empty_mark(slot: Option<ItemInstance>) -> nat {
    if slot is None {
        1
    } else {
        0
    }
}

pub open spec fn empty_marks() -> spec_fn(Option<ItemInstance>) -> nat {
    |slot: Option<ItemInstance>| empty_mark(slot)
}

/// Number of empty slots.
pub open spec fn empty_count(slots: Seq<Option<ItemInstance>>) -> nat {
    total(slots, empty_marks())
}

/// Pieces a pile of `quantity` can still take before the stack cap.
pub open spec fn headroom(quantity: u32) -> nat {
    if quantity < stack_cap() {
        (stack_cap() - quantity) as nat
    } else {
        0
    }
}

/// The slot holds a mergeable pile of `id`.
pub open spec fn mergeable_pile(slot: Option<ItemInstance>, id: Seq<char>) -> bool {
    slot is Some && slot->0.item_id@ == id && slot->0.mergeable()
}

/// Room left on an existing mergeable pile of `id` (empty slots count 0).
pub open spec fn stack_room(slot: Option<ItemInstance>, id: Seq<char>) -> nat {
    if mergeable_pile(slot, id) {
        headroom(slot->0.quantity)
    } else {
        0
    }
}

pub open spec fn stack_rooms(id: Seq<char>) -> spec_fn(Option<ItemInstance>) -> nat {
    |slot: Option<ItemInstance>| stack_room(slot, id)
}

/// Room on existing mergeable piles of `id`.
pub open spec fn stack_room_in(slots: Seq<Option<ItemInstance>>, id: Seq<char>) -> nat {
    total(slots, stack_rooms(id))
}

/// Pieces of a stacking item `id` one slot can still accept.
pub open spec fn slot_space(slot: Option<ItemInstance>, id: Seq<char>) -> nat {
    match slot {
        None => stack_cap(),
        Some(_) => stack_room(slot, id),
    }
}

pub open spec fn slot_spaces(id: Seq<char>) -> spec_fn(Option<ItemInstance>) -> nat {
    |slot: Option<ItemInstance>| slot_space(slot, id)
}

/// Pieces of a stacking item `id` the whole bag can still accept.
pub open spec fn space_in(slots: Seq<Option<ItemInstance>>, id: Seq<char>) -> nat {
    total(slots, slot_spaces(id))
}

/// `a - min(a, b)`: what is left of `a` once `b` has been served.
pub open spec fn left_after(a: nat, b: nat) -> nat {
    if b >= a {
        0
    } else {
        (a - b) as nat
    }
}

// ---------------------------------------------------------------------
// Removing pieces from the first matching slots
// ---------------------------------------------------------------------

/// Pieces still owed when the drain reaches slot `k`.
pub open spec fn owed_before(slots: Seq<Option<ItemInstance>>, id: Seq<char>, amount: nat, k: int) -> nat {
    left_after(amount, count_in(slots.take(k), id))
}

/// One slot after a drain that still owes `owed` pieces of `id` reaches it.
pub open spec fn drain_slot(slot: Option<ItemInstance>, id: Seq<char>, owed: nat) -> Option<ItemInstance> {
    match slot {
        Some(item) => if item.item_id@ == id && owed > 0 {
            if item.quantity <= owed {
                None
            } else {
                Some(item.with_quantity((item.quantity - owed) as u32))
            }
        } else {
            slot
        },
        None => None,
    }
}

/// The bag after `amount` pieces of `id` are removed from the first matching slots.
pub open spec fn drained(slots: Seq<Option<ItemInstance>>, id: Seq<char>, amount: nat) -> Seq<Option<ItemInstance>> {
    Seq::new(slots.len(), |k: int| drain_slot(slots[k], id, owed_before(slots, id, amount, k)))
}

// ---------------------------------------------------------------------
// Adding pieces: existing piles first, then fresh piles in empty slots
// ---------------------------------------------------------------------

/// Pieces not yet placed when filling existing piles reaches slot `k`.
pub open spec fn unplaced_before(slots: Seq<Option<ItemInstance>>, id: Seq<char>, amount: nat, k: int) -> nat {
    left_after(amount, stack_room_in(slots.take(k), id))
}

/// One slot after filling existing piles, with `owed` pieces still to place.
pub open spec fn fill_slot(slot: Option<ItemInstance>, id: Seq<char>, owed: nat) -> Option<ItemInstance> {
    if mergeable_pile(slot, id) && owed > 0 && headroom(slot->0.quantity) > 0 {
        let add = if owed < headroom(slot->0.quantity) {
            owed
        } else {
            headroom(slot->0.quantity)
        };
        Some(slot->0.with_quantity((slot->0.quantity + add) as u32))
    } else {
        slot
    }
}

/// Pieces still to place once every existing pile has been topped up.
pub open spec fn unplaced_after_piles(slots: Seq<Option<ItemInstance>>, id: Seq<char>, amount: nat) -> nat {
    left_after(amount, stack_room_in(slots, id))
}

/// Pieces still to place when fresh piles reach slot `k`, starting from `rest`.
pub open spec fn fresh_owed_before(slots: Seq<Option<ItemInstance>>, rest: nat, k: int) -> nat {
    left_after(rest, stack_cap() * empty_count(slots.take(k)))
}

/// Size of the fresh pile opened in empty slot `k` (0: the slot stays empty).
pub open spec fn fresh_pile_size(slots: Seq<Option<ItemInstance>>, rest: nat, k: int) -> nat {
    let owed = fresh_owed_before(slots, rest, k);
    if owed > stack_cap() {
        stack_cap()
    } else {
        owed
    }
}

/// An empty slot after fresh piles of `id` have been opened.
pub open spec fn fresh_slot_ok(slot: Option<ItemInstance>, id: Seq<char>, size: nat) -> bool {
    if size == 0 {
        slot is None
    } else {
        slot is Some && slot->0.is_fresh_pile(id, size)
    }
}

// ---------------------------------------------------------------------
// Merging piles
// ---------------------------------------------------------------------

/// Whether the pile in `from` can pour into `to` (same mergeable item, room left).
pub open spec fn can_merge(slots: Seq<Option<ItemInstance>>, from: int, to: int, stacks: bool) -> bool {
    &&& stacks
    &&& from != to
    &&& 0 <= from < slots.len()
    &&& 0 <= to < slots.len()
    &&& slots[from] is Some
    &&& slots[to] is Some
    &&& slots[from]->0.item_id@ == slots[to]->0.item_id@
    &&& slots[from]->0.mergeable()
    &&& slots[to]->0.mergeable()
    &&& slots[to]->0.quantity < stack_cap()
}

/// Pieces that pour from `from` into `to`.
pub open spec fn pour_amount(slots: Seq<Option<ItemInstance>>, from: int, to: int) -> nat {
    let src = pile_size(slots[from]);
    let room = headroom(pile_size(slots[to]) as u32);
    if src < room {
        src
    } else {
        room
    }
}

/// Quantity of an occupied slot, 0 for an empty one.
pub open spec fn pile_size(slot: Option<ItemInstance>) -> nat {
    match slot {
        Some(item) => item.quantity as nat,
        None => 0,
    }
}

/// A slot that gives up `taken` of its pieces: emptied when nothing remains.
pub open spec fn give_up(slot: Option<ItemInstance>, taken: nat) -> Option<ItemInstance> {
    if taken == 0 {
        slot
    } else if slot is Some && slot->0.quantity > taken {
        Some(slot->0.with_quantity((slot->0.quantity - taken) as u32))
    } else {
        None
    }
}

/// A slot that receives `added` pieces.
pub open spec fn receive(slot: Option<ItemInstance>, added: nat) -> Option<ItemInstance> {
    if added == 0 {
        slot
    } else {
        match slot {
            Some(item) => Some(item.with_quantity((item.quantity + added) as u32)),
            None => None,
        }
    }
}

/// The bag after pouring `from` into `to`.
pub open spec fn poured(slots: Seq<Option<ItemInstance>>, from: int, to: int) -> Seq<Option<ItemInstance>> {
    let moved = pour_amount(slots, from, to);
    slots.update(to, receive(slots[to], moved)).update(from, give_up(slots[from], moved))
}

/// The bag with slots `a` and `b` exchanged.
pub open spec fn swapped(slots: Seq<Option<ItemInstance>>, a: int, b: int) -> Seq<Option<ItemInstance>> {
    slots.update(a, slots[b]).update(b, slots[a])
}

/// Pieces a mergeable pile of `id` can contribute.
pub open spec fn feed_of(slot: Option<ItemInstance>, id: Seq<char>) -> nat {
    if mergeable_pile(slot, id) {
        slot->0.quantity as nat
    } else {
        0
    }
}

pub open spec fn feeds(id: Seq<char>) -> spec_fn(Option<ItemInstance>) -> nat {
    |slot: Option<ItemInstance>| feed_of(slot, id)
}

/// Every slot but `dest`, with `dest` seen as empty.
pub open spec fn others(slots: Seq<Option<ItemInstance>>, dest: int) -> Seq<Option<ItemInstance>> {
    slots.update(dest, None)
}

/// Room of `dest` still open when pulling reaches slot `k`.
pub open spec fn pull_room_before(slots: Seq<Option<ItemInstance>>, dest: int, k: int) -> nat {
    let id = slots[dest]->0.item_id@;
    left_after(headroom(slots[dest]->0.quantity), total(others(slots, dest).take(k), feeds(id)))
}

/// Pieces pulled from slot `k` into `dest`.
pub open spec fn pulled_from(slots: Seq<Option<ItemInstance>>, dest: int, k: int) -> nat {
    let id = slots[dest]->0.item_id@;
    let give = feed_of(others(slots, dest)[k], id);
    let room = pull_room_before(slots, dest, k);
    if give < room {
        give
    } else {
        room
    }
}

/// Pieces `dest` gains when every other pile of its item pours into it.
pub open spec fn combined_gain(slots: Seq<Option<ItemInstance>>, dest: int) -> nat {
    let id = slots[dest]->0.item_id@;
    let room = headroom(slots[dest]->0.quantity);
    let supply = total(others(slots, dest), feeds(id));
    if supply < room {
        supply
    } else {
        room
    }
}

/// The bag after every other pile of `dest`'s item pours into `dest`, in slot order.
pub open spec fn combined(slots: Seq<Option<ItemInstance>>, dest: int) -> Seq<Option<ItemInstance>> {
    Seq::new(
        slots.len(),
        |k: int|
            if k == dest {
                receive(slots[dest], combined_gain(slots, dest))
            } else {
                give_up(slots[k], pulled_from(slots, dest, k))
            },
    )
}

/// `i` is the first empty slot.
pub open spec fn first_empty_at(slots: Seq<Option<ItemInstance>>, i: int) -> bool {
    &&& 0 <= i < slots.len()
    &&& slots[i] is None
    &&& forall|j: int| 0 <= j < i ==> slots[j] is Some
}

/// No slot is empty.
pub open spec fn full(slots: Seq<Option<ItemInstance>>) -> bool {
    forall|j: int| 0 <= j < slots.len() ==> slots[j] is Some
}

/// A slot holds nothing, or between one piece and a full stack.
pub open spec fn pile_fits(slot: Option<ItemInstance>) -> bool {
    match slot {
        Some(item) => 1 <= item.quantity && item.quantity <= stack_cap(),
        None => true,
    }
}

/// Every occupied slot holds between one piece and a full stack.
pub open spec fn piles_within_cap(slots: Seq<Option<ItemInstance>>) -> bool {
    forall|k: int| 0 <= k < slots.len() ==> #[trigger] pile_fits(slots[k])
}

// ---------------------------------------------------------------------
// Lemmas
// ---------------------------------------------------------------------

/// Replacing one slot changes the count of `id` by the difference of the two piles.
pub proof fn lemma_count_update(slots: Seq<Option<ItemInstance>>, id: Seq<char>, i: int, v: Option<ItemInstance>)
    requires
        0 <= i < slots.len(),
    ensures
        count_in(slots.update(i, v), id) == count_in(slots, id) - pile_of(slots[i], id) + pile_of(v, id),
{
    lemma_total_update(slots, piles(id), i, v);
}

/// Exchanging two slots keeps every count.
pub proof fn lemma_count_swap(slots: Seq<Option<ItemInstance>>, id: Seq<char>, a: int, b: int)
    requires
        0 <= a < slots.len(),
        0 <= b < slots.len(),
    ensures
        count_in(swapped(slots, a, b), id) == count_in(slots, id),
{
    let s1 = slots.update(a, slots[b]);
    lemma_count_update(slots, id, a, slots[b]);
    lemma_count_update(s1, id, b, slots[a]);
    if a == b {
        assert(swapped(slots, a, b) =~= slots);
    }
}

/// Space for a stacking item is the room on its piles plus a full stack per empty slot.
pub proof fn lemma_space_split(slots: Seq<Option<ItemInstance>>, id: Seq<char>)
    ensures
        space_in(slots, id) == stack_room_in(slots, id) + stack_cap() * empty_count(slots),
{
    let scaled = |slot: Option<ItemInstance>| stack_cap() * empty_mark(slot);
    assert forall|x: Option<ItemInstance>| #[trigger] slot_spaces(id)(x) == stack_rooms(id)(x) + scaled(x) by {
    }
    lemma_total_add(slots, stack_rooms(id), scaled, slot_spaces(id));
    assert forall|x: Option<ItemInstance>| #[trigger] scaled(x) == stack_cap() * empty_marks()(x) by {
    }
    lemma_total_scale(slots, empty_marks(), scaled, stack_cap());
}

/// When no other slot can pour into `dest`, pulling every pile into it
/// gains nothing.
pub proof fn lemma_nothing_to_combine(slots: Seq<Option<ItemInstance>>, dest: int)
    requires
        0 <= dest < slots.len(),
        slots[dest] is Some,
        slots[dest]->0.mergeable(),
        forall|i: int| 0 <= i < slots.len() ==> !#[trigger] can_merge(slots, i, dest, true),
    ensures
        combined_gain(slots, dest) == 0,
{
    let id = slots[dest]->0.item_id@;
    let o = others(slots, dest);
    if headroom(slots[dest]->0.quantity) > 0 && total(o, feeds(id)) > 0 {
        let k = lemma_total_positive(o, feeds(id));
        assert(k != dest);
        assert(o[k] == slots[k]);
        assert(can_merge(slots, k, dest, true));
    }
}

/// Pouring a freshly split pile back onto its source restores the bag.
///
/// `peeled` is the pile that split off `amount` pieces of the pile in
/// `from` into the empty slot `dest`; the source held at most a full stack.
pub proof fn lemma_split_merges_back(
    slots: Seq<Option<ItemInstance>>,
    from: int,
    dest: int,
    amount: u32,
    peeled: ItemInstance,
)
    requires
        0 <= from < slots.len(),
        0 <= dest < slots.len(),
        from != dest,
        slots[from] is Some,
        slots[from]->0.mergeable(),
        0 < amount < slots[from]->0.quantity,
        slots[from]->0.quantity <= stack_cap(),
        slots[dest] is None,
        (peeled == ItemInstance { instance_id: peeled.instance_id, quantity: amount, ..slots[from]->0 }),
    ensures
        ({
            let source = slots[from]->0;
            let after = slots.update(from, Some(source.with_quantity((source.quantity - amount) as u32))).update(
                dest,
                Some(peeled),
            );
            can_merge(after, dest, from, true) && poured(after, dest, from) == slots
        }),
{
    let source = slots[from]->0;
    let after = slots.update(from, Some(source.with_quantity((source.quantity - amount) as u32))).update(
        dest,
        Some(peeled),
    );
    assert(source.with_quantity((source.quantity - amount) as u32).with_quantity(source.quantity) == source);
    assert(poured(after, dest, from) =~= slots);
}

/// Draining pieces from the first matching slots keeps every pile within the cap.
pub proof fn lemma_drained_within_cap(slots: Seq<Option<ItemInstance>>, id: Seq<char>, amount: nat)
    requires
        piles_within_cap(slots),
    ensures
        piles_within_cap(drained(slots, id, amount)),
{
    let d = drained(slots, id, amount);
    assert forall|k: int| 0 <= k < d.len() implies #[trigger] pile_fits(d[k]) by {
        assert(pile_fits(slots[k]));
    }
}

/// Pouring one pile into another keeps every pile within the cap.
pub proof fn lemma_poured_within_cap(slots: Seq<Option<ItemInstance>>, from: int, to: int)
    requires
        piles_within_cap(slots),
        0 <= from < slots.len(),
        0 <= to < slots.len(),
        from != to,
    ensures
        piles_within_cap(poured(slots, from, to)),
{
    let p = poured(slots, from, to);
    assert forall|k: int| 0 <= k < p.len() implies #[trigger] pile_fits(p[k]) by {
        assert(pile_fits(slots[k]));
        assert(pile_fits(slots[from]));
        assert(pile_fits(slots[to]));
    }
}

/// Exchanging two slots keeps every pile within the cap.
pub proof fn lemma_swapped_within_cap(slots: Seq<Option<ItemInstance>>, a: int, b: int)
    requires
        piles_within_cap(slots),
        0 <= a < slots.len(),
        0 <= b < slots.len(),
    ensures
        piles_within_cap(swapped(slots, a, b)),
{
    let w = swapped(slots, a, b);
    assert forall|k: int| 0 <= k < w.len() implies #[trigger] pile_fits(w[k]) by {
        assert(pile_fits(slots[k]));
        assert(pile_fits(slots[a]));
        assert(pile_fits(slots[b]));
    }
}

/// Pulling every other pile into `dest` keeps every pile within the cap.
pub proof fn lemma_combined_within_cap(slots: Seq<Option<ItemInstance>>, dest: int)
    requires
        piles_within_cap(slots),
        0 <= dest < slots.len(),
        slots[dest] is Some,
    ensures
        piles_within_cap(combined(slots, dest)),
{
    let c = combined(slots, dest);
    assert forall|k: int| 0 <= k < c.len() implies #[trigger] pile_fits(c[k]) by {
        assert(pile_fits(slots[k]));
        if k != dest {
            assert(others(slots, dest)[k] == slots[k]);
        }
    }
}

/// Removal drains matching slots front to back: once a later matching slot
/// is touched, every earlier pile of the same item has been emptied.
pub proof fn lemma_drain_front_first(slots: Seq<Option<ItemInstance>>, id: Seq<char>, amount: nat, i: int, j: int)
    requires
        0 <= i < j < slots.len(),
        slots[i] is Some,
        slots[i]->0.item_id@ == id,
        drained(slots, id, amount)[j] != slots[j],
    ensures
        drained(slots, id, amount)[i] is None,
{
    lemma_total_take_step(slots, piles(id), i);
    lemma_total_prefix_le(slots.take(j), piles(id), i + 1);
    assert(slots.take(j).take(i + 1) =~= slots.take(i + 1));
}

} // verus!
