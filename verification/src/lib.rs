//! Verified core of the continuum transport log: stream identities, the
//! in-memory log backend, storage-key encodings, sequence allocation, SQL
//! helpers and the benchmark dimension catalogue.

pub mod assoc;
pub mod seq_alloc;
pub mod resources;
pub mod rows;
pub mod scylla;
pub mod sql;
pub mod surreal;
pub mod topic_read;
pub mod text;
pub mod tikv_keys;
pub mod tikv_raw;
pub mod types;
pub mod cli;
pub mod dimensions;
pub mod experiments;
pub mod harness;
pub mod matrix;
pub mod memory;
pub mod laws_memory;
