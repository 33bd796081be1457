# workbench

A verified library behind a set of small programs: a key-value server and
its client, a shell with pipelines, a task list, a regular-expression
matcher, a toy blockchain, a rate-limited financial service, a trading
exchange's accounts, a wave-equation reader and a file walkthrough.

- `src/` is the library, written in Verus. Its functions are proved
  against contracts over mathematical models (`Seq`, `Map`, `int`).
  Calls into outside crates (sha2, hex, rand, chrono, bcrypt, regex,
  rust_decimal) go through small trusted wrappers whose doc comments say
  what is assumed of them.
- `tests/` runs the library on concrete values.
- `app/` is the program around it: sockets, files, databases, HTTP,
  terminal drawing and floating-point work. `app/main.rs` picks a program
  by its first argument.
