//! A registry of typed links between named entities. Every link is checked
//! against the schema entry its type names before it is stored; links are
//! addressed by increasing identifiers, can be bound to names, and are
//! deleted by tombstone.

pub mod error;
pub mod msg;
pub mod names;
pub mod state;
pub mod execute;
pub mod query;
pub mod laws;
