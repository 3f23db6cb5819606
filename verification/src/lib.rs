//! Configuration and value storage for a node that runs a BFT consensus engine.

pub mod consensus;
pub mod height;
pub mod store;
pub mod text;

pub use height::Height;
pub use store::types::{ConsensusValue, ValueId};
