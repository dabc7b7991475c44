//! The closed set of errors of the short-link service, one variant per
//! failure kind, mapped to HTTP status codes only at the HTTP boundary.

use vstd::prelude::*;

verus! {

/// Everything a short-link operation can fail with.
#[derive(Clone, Copy, Debug, PartialEq, Eq, Structural)]
pub enum LinkError {
    /// Every attempt at drawing an unused short key collided.
    GenerationExhausted,
    /// Any persistence failure, connectivity included, or a key already claimed.
    StoreError,
    /// No link under the requested key, or statistics were requested
    /// without a token (deliberately indistinguishable from a missing link).
    NotFound,
    /// A token was supplied but does not match the stored one.
    Unauthorized,
}

impl LinkError {
    /// The HTTP status code each error surfaces as: generation and store
    /// failures are generic internal errors, the rest keep their own code.
    pub fn status_code(self) -> (code: u16)
        ensures
            code == self.status_code_spec(),
    {
        match self {
            LinkError::GenerationExhausted => 500,
            LinkError::StoreError => 500,
            LinkError::NotFound => 404,
            LinkError::Unauthorized => 401,
        }
    }

    pub open spec fn status_code_spec(self) -> u16 {
        match self {
            LinkError::GenerationExhausted => 500u16,
            LinkError::StoreError => 500u16,
            LinkError::NotFound => 404u16,
            LinkError::Unauthorized => 401u16,
        }
    }
}

/// The view of a result carrying a string: the characters, or the error.
pub open spec fn string_result_view(r: Result<String, LinkError>) -> Result<Seq<char>, LinkError> {
    match r {
        Ok(s) => Ok(s@),
        Err(e) => Err(e),
    }
}

} // verus!
