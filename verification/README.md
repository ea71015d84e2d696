# glyphfall_core

The game logic of Glyphfall, a small role-playing game of a town, a
many-floored dungeon, the road between them and conversations in which
words are remembered, written in Verus: every function states what it does
in `requires` / `ensures`, and Verus proves it.

## Layout

- `src/party/`: party members, their obedience (influence, personality,
  mental state), the protagonist's belongings and character creation.
- `src/battle.rs`: turn-based battles: orders, the turn's log of steps and
  their effects.
- `src/town/`: maps and tiles, field of view, movement and followers,
  commands on what stands in front, conversations, the shop and the inn,
  journeys on the road, and the procedural cave floors of the dungeon
  (`dungeon_gen.rs`: cellular caves, breadth-first distances, story rooms,
  decorations that never cut the floor apart).
- `src/event.rs`: sudden events on the road, drawn by weight, with one-shot and cooldown
  rules.
- `src/flow.rs`: the start-up screens (title, naming, origin, motive and
  partner selection, world generation).
- `src/play/`: what one key does in each mode of the game screen, and the
  texts of the screen's windows.
- `src/rng.rs`: the random draws, made with `rand`; the only trusted code
  besides `push_char` in `src/text.rs`.
- `tests/`: tests run against the compiled library.
- `app/`: a terminal front end: reads one key per line, draws the screens
  as text.
