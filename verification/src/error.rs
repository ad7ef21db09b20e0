//! Errors that the catalog's operations report.
use vstd::prelude::*;

verus! {

/// An error answered to an API request.
#[derive(Debug)]
pub enum AppError {
    /// The requested vinyl does not exist.
    NotFound,
    /// The request needs an authenticated user.
    Unauthorized,
    /// The request's input was rejected; the message says why.
    InvalidInput(String),
    /// The OIDC login flow failed; the message says where.
    Oidc(String),
    /// An internal failure; the message describes it.
    Internal(String),
}

} // verus!
