# aish_shell

The decisions of an interactive shell with a language model in it, written in Rust and proved with
Verus. The library takes plain values and gives plain values back: where an input goes, what has to be
screened before it reaches the shell process or the model, what the terminal shows while an answer
streams in, how a failed command is diagnosed and repaired, and how sessions, accounts, skills and
settings are kept.

- `src/` is the library. Every function states what it returns; laws that span several functions are
  the proof functions whose names begin with `law_`. What Verus takes on trust of other crates stands in
  `text.rs`, `width.rs`, `pattern.rs`, `json.rs` and `moment.rs`.
- `tests/` runs the library on concrete values.
- `app/` is ordinary Rust around the library: the terminal, threads, signals and files, over traits for
  the services that a program brings along.

Messages for the user are keys of a catalogue with named arguments; the catalogue itself is the
program's.
