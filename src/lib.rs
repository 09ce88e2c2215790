//! A mirror of a remote game-version catalog: the coercion of stored values
//! into JSON, the assembly of query result rows, the time-to-live gate on
//! refreshes, and the writes that replace the mirror wholesale.

pub mod codec;
pub mod error;
pub mod refresh;
pub mod row;
pub mod store;
mod vecs;
