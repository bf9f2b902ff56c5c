# arena_core

The rules of a wave-based arena game, written in Verus and proved against
their contracts.

- `src/` is the verified library: waves and enemy spawning (`wave`), the rune
  shop board and its drag and drop (`runes`), coins, rerolls and artifact
  sales (`economy`), the orb crafting flow (`orbs`), screen phases and
  transitions (`phases`), the skill-tree graph and its editor (`skill_graph`,
  `skill_editor`, `tree_export`), content checks (`validation`), and the text
  the interface shows (`names`, `stat_text`, `labels`, `widgets`, `text`).
  Randomness comes from `rand` through the trusted wrappers in `chance`.
- `tests/` runs the library on concrete values.
- `app/` is the unverified rim: reading and writing the RON content files and
  directory listings, and the floating-point geometry and timing that the
  library receives as whole numbers and flags.
