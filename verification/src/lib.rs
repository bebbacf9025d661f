//! Claim/contract lifecycle engine for merchandise insurance.
//!
//! Contracts are written against reusable contract types, claims are filed
//! against contracts and move through a role-gated status state machine, and
//! repair orders track the repair of non-theft claims.  The engine keeps the
//! denormalized back-reference indices (a contract's claim list, a user's
//! contract list) consistent with the entities that reference them.

use vstd::prelude::*;

pub mod credentials;
pub mod data;
pub mod insurance;
pub mod police;
pub mod repairs;
pub mod shop;
pub mod store;
pub mod text;

verus! {

/// The failures an engine operation can report.  All of them are recoverable
/// at the dispatch boundary: they describe the request, they never crash the
/// engine.
#[derive(Clone, Copy, Debug, PartialEq, Eq, Structural)]
pub enum ServiceError {
    /// Malformed or out-of-range request data.
    InvalidInput,
    /// A referenced entity is absent.
    NotFound,
    /// A duplicate identifier, or a voided contract.
    Conflict,
    /// Credential mismatch.
    Unauthorized,
    /// A status-machine rule was violated.
    InvalidTransition,
}

} // verus!
