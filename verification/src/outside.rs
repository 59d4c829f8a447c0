//! The calls into other crates, each with the contract it is used under.
pub mod base64_text;
pub mod clock;
pub mod debug_text;
pub mod digest;
pub mod identity;
pub mod json;
pub mod lru_cache;
pub mod lossy;
pub mod uuid_text;
pub mod zlib;
