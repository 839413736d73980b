# mica

A small language toolchain whose core is verified with Verus: lexer, parser,
name resolution, type and effect checking, lowering to an SSA intermediate
form, analyses over that form, code emitters, and a capability-scoped task
runtime.

## Layout

- `src/syntax/` — tokens, lexer and parser, with the grammar stated as
  functions on characters and tokens.
- `src/semantics/` — name resolution (scopes, imports, capabilities bound by
  effect rows) and the checker.
- `src/lower.rs`, `src/ir/` — the high-level form, the SSA form with its type
  and effect tables, the lowering (each function's blocks, terminators and
  phis are stated by `lowers_to`), and purity analysis.
- `src/backend/` — text, LLVM-style and native emitters, and the parallel
  build planner.
- `src/runtime/` — task specifications, plans, capability providers and the
  scheduler, whose runs are stated as traces of events.
- `src/cli/`, `src/tooling.rs` — command-line reports and pipeline snapshots.
- `app/` — the command-line program (file and process I/O around the
  library), the SSA interpreter, whose values include floating point, and
  the JSON entry points for an embedding host.
- `tests/` — tests run against the compiled library.

Every public function of `src/` carries a contract that Verus proves; the few
trusted items (the clock and `String::push`) say in their doc comments what
they assume of the standard library.
