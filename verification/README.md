# lightning

A Path of Exile build planner's core, written in Verus: the passive tree (allocation
paths, removal, cluster jewels, tattoos), items and their text, gems, the modifier and
stat evaluator, damage and defence calculations, character import, and the readers of
the game's data files (`.datc64` tables, `.psg` trees, `.csd` translations).

Every function in `src/` carries a contract proved by Verus. Calls into outside crates
(`pathfinding`, `imbl`, `byteorder`, `encoding_rs`) go through small trusted wrappers whose
contracts say what those crates document.

Layout:

- `src/` the verified library, one module per part of the planner;
- `tests/` tests of the library on concrete values;
- `app/` a command-line front end: reading files, fetching a character over the
  network, and formatting numbers with decimals.
