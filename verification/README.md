# veritas

Battle tracking for a damage-meter overlay of a turn-based game, written in Verus.

The game's hooks report events (a lineup is set, a turn begins, a skill is used,
damage lands, a turn ends, ...). The library turns what the hooks read into those
events, keeps the state of the current battle up to date as they arrive, and
shapes a finished battle into its export (the JSON document) and its chart table
(the CSV rows).

Fractional quantities (damage, action value, stats) are a type parameter `N`; the
arithmetic on them is handed in as closures, so the library itself holds no
floating point. The contracts describe results in terms of those closures.

## Layout

- `src/battle.rs`: the battle state, one handler per event, and the dispatcher
  `BattleContext::handle_event`, each with a contract; the state's invariant is
  `BattleContext::well_formed`. Each avatar's damage breakdown is a `BTreeMap`
  keyed by the rank of the attack type, so it is walked in attack-type order.
- `src/accounting.rs`: the sums that tie the damage tallies together (team total,
  per-avatar totals, breakdowns and turns) and the lemmas about them.
- `src/hooks.rs`: building events from what the hooks read.
- `src/export.rs`: the export document and the choice of export folder (dates come
  from chrono).
- `src/chart.rs`: the chart table and the rows of the damage meter.
- `src/meter.rs`: the damage meter's order (greatest amount first, ties in lineup
  order), its scale and how much of its bar each row fills.
- `src/breakdown.rs`: the damage-type breakdown of the team and its chart points.
- `src/names.rs`: name clean-up and wrapping.
- `src/attack.rs`, `src/types.rs`, `src/events.rs`: the vocabulary.
- `src/buffers.rs`: icon caches.
- `src/ui_state.rs`, `src/palette.rs`: the overlay's settings, their defaults,
  what it does when a battle starts or ends, and its colours.
- `src/laws.rs`: properties that span calls.
- `app/`: the shared tracker, file output, serialisable copies of the export
  types, and the `f64` arithmetic.
- `tests/`: tests on concrete battles.

## What is not here

The overlay's drawing (the egui windows and widgets), the installation of the game
hooks and the reading of the game's memory behind them, the DirectX overlay, the
broadcasting of packets to other tools and the updater are not part of this crate:
they are I/O and FFI around the logic above. `app/` keeps the parts of that
plumbing that feed the library: the shared tracker, the polling of the battle's
state, and the writing of export files.
