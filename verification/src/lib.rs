//! A multi-asset balance-and-permission ledger.
//!
//! The ledger tracks fungible token quantities per owner per token type,
//! enforces spend authorization through scoped and blanket approvals, and
//! atomically applies mint/transfer/burn batches while keeping per-type
//! supply and approval state consistent.

mod batch;
pub mod contract;
pub mod laws;
pub mod model;
pub mod store;
pub mod types;
