# rogue

The rules of a Rogue dungeon crawler, written in Verus and proved against
their contracts.

## Layout

- `src/` — the verified library.
  - `level/` — rooms, mazes and corridors: the room grid, the plan of
    connections between rooms, stamping rooms into the level map, drawing
    them.
  - `structure.rs`, `tile.rs`, `geom.rs` — tile maps and coordinates.
  - `ui/` — the terminal screen model, key decoding, the message line,
    prompts and the status line.
  - `pack.rs` — the hero's pack (where a picked-up item goes, letters,
    taking items out) and the names items are shown by.
  - `command.rs`, `moves.rs`, `look.rs`, `help.rs` — the command reader
    (counts, repeating the last command, Ctrl-run keys, the table of command
    keys, which commands take no time), movement and runs, the hero's look at the squares around him,
    and the help screen.
  - `quaff.rs`, `reading.rs`, `zap.rs` — drinking a potion, reading a
    scroll and zapping a wand or staff: the item leaving the pack or
    spending a charge, what each kind does to the hero, his gear and the
    monsters near him, what he is told, and the work left for the rest of
    the game.
  - `hunger.rs`, `effects.rs`, `potions.rs`, `traps.rs`, `mapping.rs`,
    `sticks.rs`, `rings.rs`, `armor.rs`, `naming.rs` — hunger and eating,
    the numbers behind potions and scrolls (healing, strength, haste, the
    states a potion starts, uncursing and enchanting, and their messages),
    traps, sticks, rings and armor.
  - `rip.rs`, `score.rs` — the death and winner screens and the score file.
  - `savefile.rs` — the readers and writers of the values a saved game is
    made of (integers, booleans, characters, strings, markers, rooms, the
    screen), each proved to read back what it wrote, and the whole saved
    game built from them (globals, hero and pack, objects, monsters, map,
    rooms, corridors, tables, daemons, screen), with a proof that decoding
    what was encoded gives the game back.
  - `options.rs` — the game options and the option string.
  - `rnd.rs` — dice, on top of the `rand` crate.
- `tests/` — tests on concrete values.
- `app/` — a terminal front end (crossterm and ratatui) that browses
  generated levels and shows the score file and the death screen.
