# proto_forth

A small Forth workbench engine — data and return stacks, cell memory, a
dictionary of primitives and user words, a compiler from colon definitions to
an opcode IR, and an iterative VM — written in Verus. Every executable
function of the engine is proved to agree with a mathematical model of the
machine.

## Layout

- `src/text.rs` — text as `Vec<char>`: literals, equality, ASCII upper-casing,
  Unicode whitespace, trimming, joining, UTF-8 length.
- `src/number.rs` — rendering integers in a radix and reading literals back
  (`i32::from_str_radix` semantics), with the round-trip lemma.
- `src/order.rs` — code-point order on texts and sorting of distinct texts.
- `src/dict.rs` — the dictionary (each name at most once, viewed as a `Map`),
  the set of immediate words and the execution-token table.
- `src/types.rs` — primitive ids, ops, words, definitions in progress, frames,
  and their views.
- `src/model.rs`, `src/semantics.rs` — the abstract machine `MachineV` and the
  meaning of every primitive, op, token, pane and entry point.
- `src/machine/` — the executable `Machine`; each method's `ensures` equates
  its effect with the model.
- `src/logs.rs`, `src/laws.rs` — properties of the whole engine (append-only
  logs, read-after-write, stack identities, `/MOD` and `*/MOD` identities,
  printed numbers read back and their form, sorted word listing,
  tick/`EXECUTE`, case-insensitive tokens, splitting a text at a newline, `SEE`
  giving back a definition, flushed output lines, …).
- `tests/` — scenarios on the public API.
- `app/lib.rs` — the `wasm_bindgen` bindings for the browser shell.

## Notes on the model

- Arithmetic on cells wraps, as release builds of Rust integer arithmetic do.
  `*/MOD` is the scaled divide: it forms the product at double width, where it
  is exact, divides, and wraps the quotient to a cell.
- `BASE` is defined first and `LATEST` last, so on a fresh machine `LATEST`
  yields the execution token of `LATEST` itself.
- Each token gets a budget of `2^64 - 1` VM steps; a run that exhausts it stops
  and reports `VM: step limit reached`. No real program gets near it.
- The only trusted items are two wrappers of `std` functions:
  `char::from_u32` and collecting characters into a `String`.
