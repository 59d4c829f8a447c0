//! Execution sandboxes.
pub mod container;
pub mod pool;
pub mod qlean;
pub mod registry;
pub mod vm;
pub mod wasm;
pub mod worker;
