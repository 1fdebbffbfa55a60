//! Error taxonomy of the redirect core.

use vstd::prelude::*;

verus! {

/// Errors of the store layer.
#[derive(Clone, Copy, PartialEq, Eq, Structural, Debug)]
pub enum StoreError {
    /// The token is already mapped; the existing mapping is untouched.
    Conflict,
}

/// Errors of `RedirectService::create`.
#[derive(Clone, Copy, PartialEq, Eq, Structural, Debug)]
pub enum CreateError {
    /// The supplied secret does not match the configured one.
    Unauthorized,
    /// The caller-supplied path is already mapped.
    PathTaken,
    /// Bounded regeneration ran out of attempts without finding a free token.
    TokenSpaceExhausted,
}

/// Errors of `RedirectService::resolve`.
#[derive(Clone, Copy, PartialEq, Eq, Structural, Debug)]
pub enum ResolveError {
    /// No mapping exists for the token; an expected, user-visible outcome.
    NotFound,
}

} // verus!
