# A simple command line argument parser

A very simple command line argument parser: it hands out a stream of options
and values and leaves the rest to the caller. The conventions it follows:
short options (`-q`), long options (`--verbose`), `--` to end the options,
`=` between an option and its value (`--option=value`, `-o=value`, the latter
can be switched off), unseparated short values (`-ovalue`), combined short
options (`-abc`) and values that may or may not be given (`optional_value`).

Layout:

- `src/model.rs` — the model: the parser's state as sequences of characters,
  and what `next`, `value` and `optional_value` do to it.
- `src/parser.rs` — `Parser`, whose operations are proved to follow the model.
- `src/error.rs` — `Arg`, `Error` and the error messages.
- `src/text.rs` — string helpers, and the two calls into std that are trusted
  (`String::push` and `Debug` formatting of a string).
- `src/laws.rs` — the command line conventions, proved over the model.
- `app/lib.rs` — reading the process's own arguments, and an error type with
  `Display` and `std::error::Error`.
