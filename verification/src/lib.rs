//! A verified token registry: uniquely identified assets, each with one
//! current owner and immutable metadata, with atomic mint and transfer
//! operations and a reverse index from owner to owned token identifiers.

pub mod index;
pub mod laws;
pub mod namespace;
pub mod registry;
pub mod store;
pub mod token;
