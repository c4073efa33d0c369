# shepherd

Shepherd runs tasks through workflows their owner wrote down: a type is an ordered list
of pipelines, a pipeline an ordered list of steps with its own retry rules, and a step is
a script that ends with one line of JSON. This crate is the engine of `shep`, verified
with [Verus](https://github.com/verus-lang/verus).

Everything the program decides is in the library and has a contract:

- `config`: what a configuration means, every problem it has, and that a valid one always
  leads somewhere.
- `engine`: where a task goes next, what a report or a signal does to it, which steps are
  run again after a crash, and what is written down about each change. That a task runs
  the steps of its plan in their order, and ends, is in `engine/itinerary.rs`; the other
  properties that span several operations are in `engine/laws.rs`.
- `db`: rows, statuses, checks, events and the schema's versions, and that what is
  written reads back.
- `supervisor`, `git`, `paths`: liveness, the poll loop's turns, commits, and where things
  live.
- `cmd`: what each subcommand says.
- `text`, `table`, `order`, `flat`, `json`: the vocabulary the rest is stated in.

`json` and `quote` in `text` are the only places where something is believed rather than
proved: they call `serde_json` and the standard library's `Debug` for strings, and say of
each call no more than their doc comments tell.

The program around the library is in `app`: it reads and writes the SQLite store, runs
scripts, reads the clock and the environment, and prints.
