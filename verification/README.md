# delve

The core of Delve, a real-time ASCII ray-casting renderer and game for the terminal,
written in Verus with its behaviour stated in contracts and proved.

- `src/` — the verified library: integer matrix algebra with the dimensions in the
  type, the round-robin split of frame rows among render workers, the partitioned
  frame buffer and the stretches of a row that must be redrawn, key and movement-flag
  handling with each turn of the input loop, and the logger's filtering, target list,
  line format and flush decisions.
- `app/` — the program around it: terminal I/O (crossterm), threads, the log file,
  and all floating-point geometry (vectors, rotations, ray intersections, lighting).
- `tests/` — tests of the library.
