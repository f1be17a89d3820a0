//! On-chain product catalog: deterministic storage-address derivation,
//! fixed-layout record schema, a storage allocator model, and the command
//! processor that keeps product, price-counter and price-entry records
//! mutually consistent.

pub mod codec;
pub mod error;
pub mod instruction;
pub mod laws;
pub mod slot;
pub mod derive;
pub mod processor;
pub mod state;
