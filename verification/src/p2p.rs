//! The peer network: commands, events, framing and the swarm's decisions.
pub mod command;
pub mod discovery;
pub mod protocol;
pub mod swarm;
