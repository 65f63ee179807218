//! The failures a request can end in, and the status and message that each
//! is reported with.

use crate::catalog::Catalog;
use vstd::prelude::*;

verus! {

/// Why a request was not answered.
#[derive(Debug, Clone, Copy, PartialEq, Eq, Structural)]
pub enum Error {
    /// The uploaded bytes are not an image in any supported format.
    Decode,
    /// The store of the quota counters could not be reached or failed.
    QuotaStore,
    /// The query against one catalog failed.
    Backend(Catalog),
    /// A lookup named neither an identifier nor a filename nor a URL.
    InvalidData,
    /// The API key is not known.
    ApiKey,
    /// The API key has used up its quota for the current window.
    RateLimit,
}

/// How a call to a backing store failed.
#[derive(Debug, Clone, Copy, PartialEq, Eq, Structural)]
pub enum StoreFailure {
    /// No connection to the store could be had.
    Pool,
    /// The store refused or failed the query, or returned a malformed row.
    Query,
}

/// What a request handler was refused with.
#[derive(Debug, Clone, Copy, PartialEq, Eq, Structural)]
pub enum Rejection {
    /// No route matches the request.
    NotFound,
    /// One of the failures of this library.
    Failed(Error),
    /// Anything else.
    Other,
}

/// The body of an error response.
#[derive(Debug, Clone, PartialEq, Eq)]
pub struct ErrorMessage {
    pub code: u16,
    pub message: String,
}

/// The HTTP status that a rejection is reported with. A failed store and
/// an upload that is no image are both reported as a server error.
pub open spec fn status_of(rejection: Rejection) -> u16 {
    match rejection {
        Rejection::NotFound => 404,
        Rejection::Failed(Error::InvalidData) => 400,
        Rejection::Failed(Error::ApiKey) => 401,
        Rejection::Failed(Error::RateLimit) => 429,
        Rejection::Failed(Error::QuotaStore) => 500,
        Rejection::Failed(Error::Backend(_)) => 500,
        Rejection::Failed(Error::Decode) => 500,
        Rejection::Other => 500,
    }
}

/// The text that a rejection is reported with.
pub open spec fn message_of(rejection: Rejection) -> Seq<char> {
    match rejection {
        Rejection::NotFound => "This page does not exist"@,
        Rejection::Failed(Error::InvalidData) => "Unable to operate on provided data"@,
        Rejection::Failed(Error::ApiKey) => "Invalid API key provided"@,
        Rejection::Failed(Error::RateLimit) => "Your API token is rate limited"@,
        Rejection::Failed(Error::QuotaStore) => "A database error occured"@,
        Rejection::Failed(Error::Backend(_)) => "A database error occured"@,
        Rejection::Failed(Error::Decode) => "An unknown error occured"@,
        Rejection::Other => "An unknown error occured"@,
    }
}

/// Hands on the connection that the pool gave. Every request checks its
/// quota first, so a request that gets no connection has failed at the
/// store of the quota counters.
pub fn connected<C>(pooled: Result<C, StoreFailure>) -> (r: Result<C, Error>)
    ensures
        match pooled {
            Ok(connection) => r == Ok::<C, Error>(connection),
            Err(_) => r == Err::<C, Error>(Error::QuotaStore),
        },
{
    match pooled {
        Ok(connection) => Ok(connection),
        Err(_) => Err(Error::QuotaStore),
    }
}

/// Computes the HTTP status that a rejection is reported with.
pub fn status_code(rejection: Rejection) -> (code: u16)
    ensures
        code == status_of(rejection),
        400 <= code < 600,
{
    match rejection {
        Rejection::NotFound => 404,
        Rejection::Failed(Error::InvalidData) => 400,
        Rejection::Failed(Error::ApiKey) => 401,
        Rejection::Failed(Error::RateLimit) => 429,
        Rejection::Failed(Error::QuotaStore) => 500,
        Rejection::Failed(Error::Backend(_)) => 500,
        Rejection::Failed(Error::Decode) => 500,
        Rejection::Other => 500,
    }
}

/// Computes the text that a rejection is reported with.
pub fn message(rejection: Rejection) -> (text: &'static str)
    ensures
        text@ == message_of(rejection),
{
    match rejection {
        Rejection::NotFound => "This page does not exist",
        Rejection::Failed(Error::InvalidData) => "Unable to operate on provided data",
        Rejection::Failed(Error::ApiKey) => "Invalid API key provided",
        Rejection::Failed(Error::RateLimit) => "Your API token is rate limited",
        Rejection::Failed(Error::QuotaStore) => "A database error occured",
        Rejection::Failed(Error::Backend(_)) => "A database error occured",
        Rejection::Failed(Error::Decode) => "An unknown error occured",
        Rejection::Other => "An unknown error occured",
    }
}

/// Turns a rejection into the body of the error response: the status as a
/// number, and the text.
pub fn handle_rejection(rejection: Rejection) -> (reply: ErrorMessage)
    ensures
        reply.code == status_of(rejection),
        reply.message@ == message_of(rejection),
{
    ErrorMessage { code: status_code(rejection), message: message(rejection).to_owned() }
}

} // verus!
