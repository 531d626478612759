//! Domain model and store logic of the orchestrator: entity types with their
//! lifecycle guards, the in-memory domain/operational store, the decision logic
//! of the file-tree and config stores, the surface-runtime state machines, and
//! the schema/migration planning.

pub mod entities;
pub mod clock;
pub mod config;
pub mod error;
pub mod health;
pub mod json;
pub mod memory;
pub mod paths;
pub mod rows;
pub mod runtime;
pub mod schema;
pub mod sort;
pub mod strmap;
pub mod text;
pub mod tree;
