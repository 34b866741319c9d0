# ext_php_rs

The decision logic of a toolkit for writing PHP extensions in Rust, written in
Verus and proved against its contracts.

## Layout

- `src/` — the verified library.
  - `types/` — the PHP value (`Zval`) and its hash table with the entry API,
    PHP's integer, boolean and string coercions, the spelling of floats, the
    values and queue that carry calls between threads, and the conversions
    of `indexmap` sets of strings.
  - `args.rs`, `builders/` — function arguments, their parsing, and the
    builders of functions and enums.
  - `zend/` — engine-facing types: `zend_type` descriptors, expected types,
    object-handler decisions, observers, module globals, the cleanup stack
    that bailouts drain, `zend_extension` hook choices.
  - `describe/` — the description of a module and its PHP stub file.
  - `embed/`, `php_eval.rs`, `internal.rs` — what the embedding layer and
    module startup decide.
- `tests/` — tests of the library.
- `app/` — what the library leaves out: floating point, error types with
  `std::error::Error`, the bailout guard (raw ownership and `Drop`), and the
  process-wide call channel.

Floats are carried through the library as their IEEE-754 bit patterns;
anything that computes with them lives in `app/`.
