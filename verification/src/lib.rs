//! Edge-cloud orchestration: verified decisions, formats and state machines.
pub mod agent;
pub mod dump;
pub mod error;
pub mod ipc;
pub mod maps;
pub mod node;
pub mod orchestration;
pub mod outside;
pub mod paths;
pub mod p2p;
pub mod raft;
pub mod sandbox;
pub mod storage;
pub mod table;
pub mod text;
pub mod traits;
pub mod types;
