# aionui_steward

The rules of the task steward: a personal assistant that keeps durable tasks, hands them to
primary sessions, waits for their leaders and reports what came of each run. Beside them stand
the rules for adopting sessions that other agents keep on disk, for the steward's private home,
and for asking an agent what it can do.

- `src/` is the library. Every function states in its contract what it returns, and Verus
  proves it. Public proof functions whose names begin with `law_` state what holds of several
  functions together or of a whole run.
- `tests/` runs the library on concrete values, with the real `serde_json`, `sha2` and `hex`.
- `app/` is ordinary Rust around it: routes, storage, processes, files and the tool server. It
  reads, lets the library decide, and writes.

What Verus takes on trust is the notation of JSON and its values (`src/json.rs`), the digest
and its digits (`src/isolation.rs`), and two functions of `std` on text (`src/text.rs`).

Paths are taken as Unix has them: `/` alone parts their components. A path with backslashes is
one name to the library, whatever the system makes of it. They are texts: a name that is no
Unicode reaches the library with its unreadable parts replaced.
