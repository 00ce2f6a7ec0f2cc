# macro_workshop

Verified building blocks for a family of procedural macros, and the macros
themselves as functions on `proc_macro2` token streams.

- `src/` is the library, verified with Verus:
  - `bits` — the `BitOpt` trait: reading and writing single bits and bit
    ranges of the primitive integers, with its laws.
  - `bitfield` — writing and reading a field of a given width at a bit offset
    of a byte buffer; the accessors `#[bitfield]` writes call these.
  - `specifier`, `bit_types`, `check` — member types of bit fields: the
    `Specifier` trait, the types `B1` to `B64`, storage integers, the
    power-of-two rule for enums, and the compile-time checks.
  - `tokens`, `seq_macro` — a token model and the `seq!` parser and expander.
  - `sorted` — the ordering checks of `#[sorted]` and `#[check]`.
  - `util`, `builder`, `custom_debug` — attribute queries and the plans of
    `#[derive(Builder)]` and `#[derive(CustomDebug)]`.
- `app/` reads and writes tokens with `syn`, `quote` and `darling`. It asks
  the library for the decisions it can make on plain values; what depends on
  the user's own types (the size of a bit-field struct, the range check of an
  enum's discriminants) is written out as code that the compiler evaluates.
- `tests/` runs the library on concrete values.
