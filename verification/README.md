# flatbt

Resumable behavior trees whose definitions are plain data, verified with
Verus.

A tree is an immutable `Node`; what one running invocation remembers between
updates is a separate `NodeState`, held by a `BtState` or by a caller-owned
slot, so one definition serves any number of agents. An update says whether
the invocation ended and, while it runs, what the agent is doing. The
application's leaves, predicates, scores, random and weighted draws and
actions are named by number and answered by the context the tree runs over
(`BtContext`).

## Layout

- `src/node.rs`: results and entry modes.
- `src/context.rs`: the context trait, each callback with the spec function
  that describes it.
- `src/control.rs`: control policies (sequence, selector, repeat, retry,
  if/else, utility, random and weighted selection, shuffled sequence) and
  their decisions.
- `src/order.rs`: children visited in a computed order (by score, shuffled,
  weighted).
- `src/tree.rs`: node kinds, invocation state, constructors.
- `src/semantics.rs`: what one update of any node does, as spec functions.
- `src/runtime.rs`: the executable update, proved to compute exactly that;
  `BtState`, `update`, `update_slot`.
- `src/inspect.rs`: inspectors, path fingerprints and text descriptions.
- `src/names.rs`: names taken from type and function names.
- `src/laws.rs`: properties of every tree, state and context.
- `src/arena.rs`: the arena game's mix of enemy minds.
- `app/lib.rs`: the floating-point draw a context can answer weighted draws
  with, and names of Rust types and functions.
- `tests/`: scenarios run against the compiled library.
