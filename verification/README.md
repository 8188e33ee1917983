# hcor

The core data model and rules of Hackagotchi, a farming game: hacksteads
with tiles, plants and items; the game configuration (plants, items, their
skills, effects and recipes, and the older archetype configuration); the
checks that a configuration's names resolve; levels earned from xp; and the
decisions of a client's connection to the game server.

## Layout

- `src/` is the verified library. Every function there has a contract that
  Verus proves. Floating-point values of the configuration are held as their
  IEEE-754 bit patterns and only carried through.
  - `archetype/`: the archetype configuration, advancement sets and their
    sums, recipes, and the check that every archetype name resolves.
  - `config/`: levels from xp, evalputs, the game configuration, the
    lookups of names in a configuration as read from its files (`verify.rs`),
    the checking of every part of it (`checking.rs`, with the chances of each
    evalput judged by a check the caller hands in), and the texts of its
    errors (`report.rs`).
  - `hackstead/`: hacksteads, tiles, plants, items, timers, and lookups in them;
    a plant's buffs, and the spreading of the buffs plants lend their neighbors
    (`plant/book.rs`).
  - `possess/`, `item/`: possessions and items as stored.
  - `wormhole/`: the messages exchanged with the server and the connection's
    state machine (`connection.rs`): its phase, heartbeat clock, note queue,
    handler count and ask count, and what each event does to them.
  - `id.rs`, `user_id.rs`, `user_contact.rs`, `market.rs`: identifiers.
- `app/` is ordinary Rust around the library: random draws and floating-point
  game math, reading the YAML configuration files, the checks of an evalput's
  floating-point chances, the close matches suggested for unknown names (the
  search takes a floating-point threshold), and the wormhole client that runs
  the note handlers (`client.rs`).
- `tests/` runs the library on concrete values.
