# spaceman

The rules and bookkeeping of a small multiplayer space shooter (a server and
clients that talk over TCP), written as a Verus library with proved contracts,
plus the server program around it.

- `src/` — the library, verified by Verus:
  - `generational_index` — an allocator of slot handles tagged with
    generations, and an array keyed by them;
  - `wire` — the 4-byte big-endian size framing of every network message;
  - `components` — the integer and flag components, and how the input
    messages of one tick are merged;
  - `combat` — weapons, hits, deaths, disconnections, the end of a game, the
    lasso's decisions;
  - `roster` — the server's entity lists and the lobby's ready check;
  - `random` — drawing an element at random out of a list;
  - `controls`, `client_state`, `hud` — the client's key handling, screen
    changes, health belief, standings and heads-up choices;
  - `world` — defaults of the world description and mesh triangles.
- `app/` — the game server: sockets, JSON, physics (rapier) and the tick loop.
  It asks the library for the game's decisions and the entity lists; it keeps
  only the floating-point work (aiming, impulses, the lasso's rope lengths)
  and which slot-map components a player has, such as skipping the input of a
  dead player. The client's window, rendering and audio are not part of it.
- `tests/` — tests of the library on concrete values.
