# game_shared

Shared game rules of a WoW-style server, written in Verus: items and
inventories, loot and group rolls, mail, quests, reputation, professions,
pet battles, trading, support tickets and the message of the day.

- `src/` is the verified library. Every public function carries a contract
  over a mathematical model of its data (sequences, maps and spec functions),
  and the laws that span several operations are public proof functions.
- `tests/` exercises the library on concrete values.
- `app/` holds what works on floating-point values (positions, distances,
  timers, probabilities, threat) and turns them into the plain values the
  library takes.
