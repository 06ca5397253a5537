//! Verified core of a content-addressed memory store.
//!
//! Chunks of text are stored with their embeddings ([`store`]), and for each
//! chunk a SHA-256 hash binds its content to its path and to the instant of
//! recording ([`hashing`], [`record`], [`verification`]). A search ranks
//! scored candidates, checks the best of them against their hashes and
//! attaches provenance and confidence to each result ([`ranking`],
//! [`retrieval`], [`provenance`], [`confidence`]). [`memory`] keeps chunks
//! and hashes in step, [`cache`] spares embedding a text twice,
//! [`provider`] holds what is decided around a call to an embedding
//! provider, and [`clock`] writes the instants that are recorded.
//!
//! Embeddings and scores are carried as the bit patterns of their
//! single-precision numbers. Reading files, talking to a provider and
//! persisting the tables are left to the caller.

pub mod cache;
pub mod clock;
pub mod confidence;
pub mod hashing;
pub mod hex;
pub mod json;
pub mod memory;
pub mod provenance;
pub mod provider;
pub mod ranking;
pub mod record;
pub mod retrieval;
pub mod stats;
pub mod store;
pub mod table;
pub mod text;
pub mod vector;
pub mod verification;
