# errorstash

A library for collecting multiple related errors and reporting them together,
written in Verus: the behaviour of its functions is stated in their contracts
and proved. A few small functions are trusted rather than proved: the hand
written `Debug` implementations, which format through `std::fmt`, and the
run-time type tests through `std::any` that let a `StringError` keep a string
as it is and let a `StringStash` take apart the lists of its own kind. Each
carries a doc comment that says what is assumed of it.

Layout:

- `src/error_stash.rs`: the `ErrorStash` traits, `StashableResult` (`or_stash`,
  `or_fail` on `Result`) and `StashErrorsIter` (`stash_errors`, which stashes
  the errors of a vector of results at once, eagerly).
- `src/boxed_stash.rs`, `src/string_stash.rs`, `src/typed_stash.rs`: the three
  stash types.
- `src/error_list.rs`: the `ErrorList` wrapper error and its summary line.
- `src/summary_text.rs`: decimal rendering and the `{count}` placeholder.
- `src/laws.rs`: properties that span several functions.
- `tests/`: the test suite.
- `app/`: `Display` and `std::error::Error` counterparts of the library's error
  types, for use with `anyhow`, `eyre` and `Box<dyn Error>`.
