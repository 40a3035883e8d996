//! Registration of neurons on the networks of a chain.
//!
//! A hotkey takes a slot of a network in one of three ways: the system registers it, its
//! coldkey burns the price of a registration, or someone offers work, the seal of a recent
//! block that meets the network's difficulty. On a full network the neuron with the lowest
//! pruning score makes room. Apart from registration, a coldkey can associate a hotkey with
//! itself and give it up again.
//!
//! [`pallet::Pallet`] holds everything that is kept between calls, and [`pallet::State`] is its
//! mathematical model. The calls stand in [`registration`] and [`association`], with
//! [`work`], [`pruning`] and [`connection`] for what they decide by; [`guarantees`] says
//! what each call answers and stores, and [`laws`] what holds of them together. What is computed by `sp_core`, `sp_io`, `sp_runtime` and
//! `substrate_fixed` stands behind the trusted functions of [`primitives`], [`hashing`],
//! [`crypto`] and [`fixed`].
pub mod association;
pub mod connection;
pub mod crypto;
pub mod fixed;
pub mod guarantees;
pub mod hashing;
pub mod laws;
pub mod pallet;
pub mod primitives;
pub mod pruning;
pub mod registration;
pub mod storage;
pub mod types;
pub mod work;
