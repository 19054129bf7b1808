# turso_dst

Deterministic-simulation testing of the `turso_core` engine, with the deciding
part verified by Verus.

A run is a pure function of its seed: transactions of INSERT, UPDATE, DELETE and
SAVEPOINT over one table, a second reader connection, a background thread,
explicit checkpoints of every mode, integrity checks, power cuts and recovery.
An oracle knows which states the database may show, live and after a reopen;
everything else is reported as a violation under a stable label.

- `src/` is the library. It decides what is done next and what an answer means,
  and performs nothing itself: each activity is a state machine that asks for an
  action and is handed what came of it. Contracts say exactly what each turn is;
  public proof functions named `law_..` say what holds of all of them.
- `app/` is the program around it: the engine's I/O layer, statements,
  checkpoints, files, threads, and the simulator's hooks.
- `tests/` runs the library on concrete values, and whole runs and scenarios
  against an engine that keeps its promises.

Environment variables of the program:

- `TURSO_DST_SCENARIO=<name>` runs one focused scenario in place of a run;
  `TURSO_DST_SCENARIO_ONLY=<kind>:<k>` narrows a sweep to one placement.
- `TURSO_DST_VERBOSE` logs every statement, `TURSO_DST_TRACE=<filter>` turns the
  engine's tracing on.
- `TURSO_DST_NO_DIRSYNC` leaves the directory entries of a fresh database
  unsynced.
