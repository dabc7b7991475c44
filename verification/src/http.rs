//! Types of the HTTP boundary that carry no I/O of their own: the catch-all
//! error of the landing-page routes and the liveness reply.

use vstd::prelude::*;

verus! {

/// The catch-all failure of the landing-page routes.
#[derive(Clone, Copy, Debug, PartialEq, Eq, Structural)]
pub enum AppError {
    InternalServerError,
}

impl AppError {
    /// The status code the error surfaces as.
    pub fn status_code(self) -> (code: u16)
        ensures
            code == 500,
    {
        match self {
            AppError::InternalServerError => 500,
        }
    }

    /// The message body the error surfaces with.
    pub fn message(self) -> (m: String)
        ensures
            m@ == "Internal server error"@,
    {
        String::from_str("Internal server error")
    }
}

/// The liveness reply of the ping route.
pub struct PongResponse {
    pub message: String,
}

impl PongResponse {
    /// The one value the ping route ever answers.
    pub fn pong() -> (r: PongResponse)
        ensures
            r.message@ == "pong"@,
    {
        PongResponse { message: String::from_str("pong") }
    }
}

} // verus!
