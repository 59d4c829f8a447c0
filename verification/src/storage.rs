//! Content-addressed storage in the Git model.
pub mod diff;
pub mod hash_laws;
pub mod index;
pub mod objects;
pub mod reach;
pub mod store;
pub mod transport;
