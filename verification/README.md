# Spider

Spider compiles WebAssembly, and a small Turing-machine language, into Lua.
The compiler works on a region-structured data flow graph: functions are
lifted into it, passes rewrite it, and a backend allocates Lua locals to its
values and prints the runtime library the program needs.

This crate is the verified core of the compiler. Every function in `src/` is
checked by Verus against its `requires` and `ensures`, and the files also hold
the spec functions and lemmas those contracts are stated in. Calls into
`hashbrown` and `wasmparser` are kept behind small trusted wrappers. Each one's
doc comment says what its contract claims of the outside code.

## Layout

- `graph/` — the data flow graph: nodes, links, ports and the builders that
  append nodes and pair region inputs with their outputs.
- `visitor/` — passes over the graph: constant isolation, moving
  loop-invariant ports out of loops, inserting and removing region
  identities, region scopes and producer lookup.
- `wasm/` — WebAssembly types and function keys, the locals a function
  body declares, the operand stack lowered
  to registers, and the code builder that emits register instructions and
  cuts them into basic blocks.
- `liveness/` — live sets and the per-block liveness of WebAssembly locals.
- `lifter/` — lifting basic blocks of register instructions into the graph.
- `turing_machine.rs` — lifting the Turing-machine language into the graph.
- `allocator/` — assigning Lua locals to graph values, function by
  function, with register names first and spill slots after.
- `builder/` — ordering a parallel assignment into plain assignments and
  swap cycles.
- `tree/` — the Lua tree's names, locals, expressions and statements, with
  the conversion of an integer expression into a boolean test.
- `lua/` — the Lua printer's state (name prefixes, exact names, indentation)
  and the text of names, locals, stack frames, function bodies and scoped
  closures, including the packing of a closure's dependencies into one
  table from 48 dependencies up, which keeps it under Lua's upvalue and
  local limits; the module frame, whose locals move into a table when they
  would pass Lua's 200 active locals; the statements that print around
  their expressions; and the layout of a match, dispatched by binary search
  and split into groups of at most 512 arms to keep LuaJIT's jumps short.
- `library/` — parsing the runtime library's sections and printing the
  sections a program needs in dependency order.
- `printer.rs`, `json.rs`, `cli.rs`, `runner.rs` — small printing helpers,
  the graph's JSON form, and the command line's choices.

`tests/` holds the tests. Nothing here reads files or talks to the network.
The command line and host runners that do so are not part of this crate.
