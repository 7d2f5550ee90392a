//! Shared-bookmark feed logic on top of an append-only, content-addressed
//! record store with a typed link graph.
//!
//! The crate models the store as an explicit value ([`store::Store`]) holding
//! immutable records and typed, timestamped edges.  On top of it stand:
//!
//! - the validation engine ([`validation`]): pure accept/reject decisions for
//!   every record and edge mutation;
//! - the update-chain resolver ([`resolve`]): the latest logical version of a
//!   record is the target of its newest update edge;
//! - the time-bucket indexer ([`time_index`]): a deterministic `(year, week)`
//!   bucket key for bounded, time-ordered retrieval;
//! - the membership graph operations and queries on [`store::Store`].

pub mod order;
pub mod resolve;
pub mod store;
pub mod time_index;
pub mod types;
pub mod validation;
