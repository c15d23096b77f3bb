# casper_node

Parts of a proof-of-stake node, proved with Verus.

- `src/consensus/` holds the Highway protocol state (`highway`) and the eras with their consensus
  instances (`era`, `era_supervisor`).
- `src/linear_chain`, `src/linear_chain_sync`, `src/storage`, `src/block_proposer` and
  `src/block_validator` are components. Each is a state machine: it takes an event and returns
  effects.
- `src/auction`, `src/auction_state`, `src/upgrade` and `src/mappings` are the auction, what is told
  of it, protocol upgrades, and messages of the execution engine.
- `src/reactor` and `src/network` hand events to components and watch a network under load.
- The other modules are what these rest on: times, hashes, keys, large integers, maps and text.

What goes beyond one function is stated in the proof functions whose names begin with `law_`.

`app/` runs the components: it performs effects, measures, logs, and turns values into their
serialized forms. `tests/` runs the library on concrete values.
