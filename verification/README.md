# create_gadget

The step gadget of the CREATE and CREATE2 opcodes of an EVM circuit, verified with Verus.

- `src/create.rs` takes down what the gadget requires of a step; `src/rows.rs` says what that is.
- `src/assign.rs` takes down what the cells of the gadget are given from the record of a step.
- `src/laws.rs` states what holds of the two together: a creation that the machine has carried out
  and recorded meets every constraint, provided that its addresses and the place of its code amount
  to the same combined with the randomness and in base 256, and no other creation does. Where the
  randomness is 256 that is so of every creation.
- `src/expression.rs`, `src/constraint.rs` and `src/builder.rs` are the polynomials, the
  constraints and their record; `src/region.rs` is the record of the assignments.
- `src/witness.rs`, `src/word.rs` and `src/execution.rs` are what the machine has recorded.
- `src/hash.rs` has the one thing that is believed and not proved: that Keccak-256 depends on the
  bytes it is given alone.
- `app/` replays the records in a halo2 circuit.

What an expansion of the memory costs, the part of the circuit that expands it works out. The
record of the division names that part, and its cost is taken off before the gas is divided.
