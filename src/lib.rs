//! In-memory metadata engine of a replicated POSIX filesystem, with the
//! request framing, request classification, file-handle table and client
//! read-ahead cache that surround it.
pub mod types;
pub mod access;
pub mod name_map;
pub mod model;
pub mod invariants;
pub mod metadata;
pub mod laws;
pub mod pipeline;
pub mod client_cache;
pub mod frame;
pub mod checksum;
pub mod adapter;
