# subtensor_registration

Registration of neurons on the networks of a chain, verified with Verus.

- `src/pallet.rs`: the storage, its model `State`, and the reads and writes on it
- `src/registration.rs`: registration by the system, by burning and by work
- `src/association.rs`: association and disassociation of hotkeys and coldkeys
- `src/work.rs`: seals, difficulty, and the search for work
- `src/pruning.rs`: which neuron leaves a full network
- `src/connection.rs`: what a network asks of hotkeys on the networks it is connected to
- `src/laws.rs`: what holds of the calls taken together
- `src/storage.rs`, `src/types.rs`: the keyed store and the plain types
- `src/primitives.rs`, `src/hashing.rs`, `src/crypto.rs`, `src/fixed.rs`: the calls into
  `sp_core`, `sp_io`, `sp_runtime` and `substrate_fixed`

Accounts are 32-byte keys and signatures are sr25519. What the runtime fixes for the pallet
(the range of balances and block numbers, the existential deposit, the hyperparameters of a
network that has set none) is in `Config`. A call that fails returns its error and leaves the
changes it had made by then, as each contract says; rolling them back is the dispatcher's part.
