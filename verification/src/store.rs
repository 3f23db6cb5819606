//! The consensus value store: which values were proposed at each height and
//! round, and which value each height decided.

pub mod types;
pub mod model;
pub mod wrapper;
pub mod memory;
pub mod laws;

pub use memory::MemoryStore;
pub use model::StoreState;
pub use types::{
    BackendFailure, CommitCertificate, ConsensusValue, DecidedValue, ProposedValue, Round,
    StoreError, Table, ValueId,
};
pub use wrapper::{Store, StoreOps};
