//! Membership-weighted governance: a registry of weighted members, a store of
//! time-bounded proposals, and a quorum-and-majority resolution rule.
//!
//! `model` states what the organization is and what each operation does to
//! it; `dao` holds the executable state, proved to follow the model; `laws`
//! proves properties that hold across sequences of operations.

pub mod address;
pub mod dao;
pub mod error;
pub mod laws;
pub mod model;
pub mod resolution;
pub mod word;

pub use address::Address;
pub use dao::{Notification, DAO};
pub use error::DAOError;
pub use model::Status;
pub use resolution::resolve;
pub use word::Word;
