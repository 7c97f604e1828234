# bevymmo_gameplay

Engine-independent gameplay rules of the game, written in Verus and proved
against their contracts.

## Layout

- `src/` — the verified library.
  - `inventory_model.rs`, `tally.rs`: the mathematical model of a bag (what
    each slot holds, counts, room, and the exact layouts the operations
    produce) and the sums it is built on.
  - `inventory.rs`: the bag and its stacking rules (add, insert, remove,
    split, take, move or merge, combine, amount windows).
  - `equipment.rs`, `items.rs`, `abilities.rs`: equipment slots, item
    copies, ability picks and inscriptions.
  - `loot.rs`: drop tables, player-gear dumps, bag lifetime.
  - `gathering.rs`: the yield of one completed gathering channel.
  - `crowd_control.rs`: crowd-control kinds, gates and the refresh rule.
  - `movement.rs`: movement and reconciliation decisions.
  - `settings.rs`, `status.rs`, `placeables.rs`, `stats.rs`: settings
    overlay state and shared data types.
- `app/` — ordinary Rust around the library: floating-point formulas (mana,
  shields, gathering timers, stepping in world space, crowd-control timers),
  the default stat profiles, and serde-ready copies of the replicated state.
- `tests/` — executable tests of the library.
