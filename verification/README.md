# westiny

The game logic of a top-view western sandbox shooter, as a Verus-verified library, and the
game server that runs it.

- `src/` — the library, with a contract on each function that Verus proves:
  the registry of network clients (`client_registry`), the handling of the clients' messages
  (`messenger`), the introduction of new players (`introduction`), network IDs (`network_id`),
  behaviour trees (`behavior_tree`), the board (`board`), and smaller rules: damage (`health`),
  movement directions (`movement`), entity deletion (`entity_delete`), the client's state
  transitions (`client_flow`), configuration defaults, texture names, sounds and decimal text
  (`text`).

  Two limits of what the contracts can say come from trait objects. A behaviour tree node and
  a tile are held as `Box<dyn ..>`; Verus does not see through the coercion that such a box
  goes through when it is passed to a function, so a caller that boxes a concrete node or tile
  learns nothing from the contracts about that particular one. The behaviour of a tree node is
  stated over its abstract form (`NodeModel`), and a tile's texture is stated only for tiles
  whose impl states it (`Tile::known_texture`); a tile written outside Verus states none.
- `tests/` — tests of the library.
- `app/` — the server program: a bevy application that reads the network, hands plain values to
  the library and carries out what it decides, plus the floating-point helpers of the client.
