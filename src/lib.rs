//! Host-side execution engine for a bytecode virtual machine: canonical
//! codec, storage keys, gas accounting, balances, effect commit and
//! on-chain configuration lookup.

pub mod access_path;
pub mod bank;
pub mod codec;
pub mod config;
pub mod dvm;
pub mod effects;
pub mod engine;
pub mod gas;
pub mod store;
pub mod types;
