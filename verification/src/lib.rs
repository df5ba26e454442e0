//! Wawona Relay: backend selection, guest machine policy, a jitless AArch64
//! core with its devices, and a validated register-IR interpreter.
pub mod bench;
pub mod integer;
pub mod optimize;
pub mod relay_core;
pub mod relay_oci;
pub mod relay_wasm;
pub mod runtime;
pub mod text;
pub mod vm;
pub mod wasi;
pub mod wasm;
