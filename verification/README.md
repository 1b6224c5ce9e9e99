# chess_engine

A small chess engine and its two front ends, written as a verified library.

- `src/` is the library, verified with Verus:
  - `chess` — positions and moves as plain values;
  - `rules` — the chess rules, from the `shakmaty` crate, behind trusted items
    whose contracts name what each call returns;
  - `eval` — material, piece-square tables and the tapered king table;
  - `tt` — the direct-mapped transposition table;
  - `search` and `lmr` — iterative deepening, alpha-beta negamax with
    quiescence, move ordering, null-move pruning, late-move reductions;
  - `interface` — limits, progress reports, results, the shared search handle;
  - `play` — the game between a human and the engine, status lines, PGN,
    calendar dates;
  - `uci` — the UCI protocol as a state machine from commands to actions;
  - `tui`, `render`, `text` — what the terminal front end draws and how its
    pickers react to keys.
- `app/` is the program around it: terminal drawing with `crossterm`, the
  threads and channels of the UCI loop, and `main`.
- `tests/` exercises the library on concrete values.
- `extras/lmr_steps.py` prints the late-move-reduction schedule kept in
  `src/lmr.rs`.
