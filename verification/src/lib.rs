//! The host side of a GPU proof-of-work miner, apart from the graphics API itself: which adapters
//! to use and how hard to drive each, what goes to and comes from the device's buffers, and how a
//! range of nonces is searched batch by batch.
//!
//! Nothing here talks to a device. A driver opens the devices, runs the batches and reports what
//! came of them; the types of this crate decide what it does next.

pub mod adapter;
pub mod arithmetic;
pub mod batch;
pub mod device_memory;
pub mod engine;
pub mod search;
pub mod selection;
pub mod selection_laws;
pub mod text;
pub mod tiers;
pub mod tuning;
pub mod tuning_laws;
pub mod uint512;
