# affnumber

The decision logic of an overlay that shows the exact Legacy Select affinity
numbers (the pair's total and each parent's branch value), written in Verus
and proved against its contracts.

- `src/` — the verified library
  - `text.rs`: Unicode whitespace and control classes, `trim`, ASCII case
    mapping, and the trusted wrappers over `char::to_uppercase`,
    `char::to_lowercase` and `String::push`.
  - `config.rs`: hotkey names (`parse_vk`, `normalize_name`), default captions,
    the settings record, and the laws on canonical spellings.
  - `slots.rs`: which parent a branch value belongs to across calls whose
    parent order changes.
  - `affinity.rs`: the overlay state (`Affinity`) and its transitions on each
    game hook, hotkey poll and settings change, with the laws over them.
  - `dx_overlay.rs`, `api.rs`: overlay registration and the plugin version gate.
- `app/` — the Hachimi plugin around the library: host function table, game
  hooks, Windows keyboard queries, the settings file (serde) and the egui /
  Direct3D 11 drawing, including the floating-point badge layout.
- `tests/` — run-time tests of the library.
