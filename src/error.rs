//! The errors that the engine and its callers report.
use vstd::prelude::*;

verus! {

/// An error that ends a request or a pipeline run.
#[derive(Debug, Clone, PartialEq, Eq)]
pub enum Error {
    InternalError,
    Unauthorized,
    /// An operand that the user supplied is wrong for its action: a regex, a CSS
    /// selector, a URL text or a macro name.
    InvalidInput(String),
    NotFound,
    Ratelimited,
}

/// The mathematical value of an error.
pub enum Fault {
    InternalError,
    Unauthorized,
    InvalidInput(Seq<char>),
    NotFound,
    Ratelimited,
}

impl View for Error {
    type V = Fault;

    open spec fn view(&self) -> Fault {
        match self {
            Error::InternalError => Fault::InternalError,
            Error::Unauthorized => Fault::Unauthorized,
            Error::InvalidInput(s) => Fault::InvalidInput(s@),
            Error::NotFound => Fault::NotFound,
            Error::Ratelimited => Fault::Ratelimited,
        }
    }
}

impl Error {
    /// The HTTP status under which the error is answered.
    pub fn status(&self) -> (r: u16)
        ensures
            r == match self {
                Error::InternalError => 500u16,
                Error::Unauthorized => 401u16,
                Error::InvalidInput(_) => 400u16,
                Error::NotFound => 404u16,
                Error::Ratelimited => 429u16,
            },
    {
        match self {
            Error::InternalError => 500,
            Error::Unauthorized => 401,
            Error::InvalidInput(_) => 400,
            Error::NotFound => 404,
            Error::Ratelimited => 429,
        }
    }
}

/// The answer to a request without valid credentials.
pub fn unauthorized() -> (r: Error)
    ensures
        r == Error::Unauthorized,
{
    Error::Unauthorized
}

/// The answer to a request that failed inside the service.
pub fn internal_server_error() -> (r: Error)
    ensures
        r == Error::InternalError,
{
    Error::InternalError
}

/// The answer to a request for something that does not exist.
pub fn not_found() -> (r: Error)
    ensures
        r == Error::NotFound,
{
    Error::NotFound
}

/// The answer to a request over the rate limit.
pub fn too_many_requests() -> (r: Error)
    ensures
        r == Error::Ratelimited,
{
    Error::Ratelimited
}

/// The error for an operand that the user supplied wrongly.
pub fn invalid_input(operand: &str) -> (r: Error)
    ensures
        r@ == Fault::InvalidInput(operand@),
{
    Error::InvalidInput(operand.to_owned())
}

} // verus!
