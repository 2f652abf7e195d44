//! Storage and ancestry rules of a header-chain bridge module.
pub mod laws;
pub mod storage;
pub mod traits;
pub mod vec_map;
