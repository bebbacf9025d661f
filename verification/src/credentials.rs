//! Password hashing and credential verification.
//!
//! The engine never inspects a digest itself: hashing and checking are a
//! capability supplied by the bcrypt crate, reached through the two trusted
//! wrappers below.  Whether a password matches a digest is a pure function of
//! the two texts, named `accepts`; a freshly produced digest is promised to
//! accept the password it was made from, and nothing more.

use vstd::prelude::*;

verus! {

/// Whether bcrypt's check accepts `password` against `digest`: true exactly
/// when `digest` parses as a bcrypt hash and hashing `password` with its
/// cost and salt reproduces it.
pub uninterp spec fn accepts(password: Seq<char>, digest: Seq<char>) -> bool;

/// Relies on bcrypt::verify: deterministic in the password and the digest;
/// a digest that does not parse as a bcrypt hash is reported as a mismatch
/// rather than an error.
#[verifier::external_body]
pub(crate) fn verify_password(password: &String, digest: &String) -> (r: bool)
    ensures
        r == accepts(password@, digest@),
{
    bcrypt::verify(password.as_str(), digest.as_str()).unwrap_or(false)
}

/// Relies on bcrypt::hash with the crate's default cost: the salt is drawn
/// from the operating system, so no two calls need agree; every digest it
/// does return accepts the password it was made from.  It fails only when
/// the system's randomness source does.
#[verifier::external_body]
pub(crate) fn hash_password(password: &String) -> (r: Option<String>)
    ensures
        match r {
            Some(digest) => accepts(password@, digest@),
            None => true,
        },
{
    bcrypt::hash(password.as_str(), bcrypt::DEFAULT_COST).ok()
}

} // verus!
