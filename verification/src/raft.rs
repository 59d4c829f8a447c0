//! The replicated cluster state and what consensus needs around it.
pub mod channel;
pub mod entry_form;
pub mod network;
pub mod node;
pub mod proposal;
pub mod state_machine;
pub mod storage;
