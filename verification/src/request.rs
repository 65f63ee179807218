//! What holds of every request, whatever the stores and the decoders
//! answer: the quota gate decides first, and each way in which a request
//! can fail has its own reply.

use crate::error::{status_of, Error, Rejection};
use crate::extract::{fingerprint_of, Undecodable};
use crate::lookup::{gated_criteria_of, Criteria, FileSearchOpts};
use crate::quota::{admission_of, authorization_of, OperationClass};
use crate::upload::{gated_image_of, BrokenForm, Part};
use vstd::prelude::*;

verus! {

/// A request that the quota gate refused does no work: its upload is not
/// looked at and its criteria are not chosen, and it is answered with the
/// error of the refusal.
pub proof fn lemma_refused_request_does_no_work(
    refusal: Error,
    form: Result<Vec<Part>, BrokenForm>,
    opts: FileSearchOpts,
)
    ensures
        gated_image_of(Err(refusal), form) == Err::<Vec<u8>, Error>(refusal),
        gated_criteria_of(Err(refusal), opts) == Err::<Criteria, Error>(refusal),
{
}

/// A request whose key the key store does not know is answered with 401,
/// whatever else it holds: a lookup that names no criterion too.
pub proof fn lemma_unknown_key_is_refused_first(
    class: OperationClass,
    form: Result<Vec<Part>, BrokenForm>,
    opts: FileSearchOpts,
)
    ensures
        authorization_of(Ok(None), class) == Err::<(i32, i16), Error>(Error::ApiKey),
        gated_image_of(Err(Error::ApiKey), form) == Err::<Vec<u8>, Error>(Error::ApiKey),
        gated_criteria_of(Err(Error::ApiKey), opts) == Err::<Criteria, Error>(
            Error::ApiKey,
        ),
        status_of(Rejection::Failed(Error::ApiKey)) == 401,
{
}

/// A request that brings the count of its window above the ceiling is
/// answered with 429, and neither is its upload looked at nor are its
/// criteria chosen. Under a ceiling of N that is the request after the N
/// admitted ones.
pub proof fn lemma_request_over_quota_is_refused(
    count: i16,
    limit: i16,
    form: Result<Vec<Part>, BrokenForm>,
    opts: FileSearchOpts,
)
    requires
        count > limit,
    ensures
        admission_of(Ok(count), limit) == Err::<i16, Error>(Error::RateLimit),
        gated_image_of(admission_of(Ok(count), limit), form) == Err::<Vec<u8>, Error>(
            Error::RateLimit,
        ),
        gated_criteria_of(admission_of(Ok(count), limit), opts) == Err::<Criteria, Error>(Error::RateLimit),
        status_of(Rejection::Failed(Error::RateLimit)) == 429,
{
}

/// An upload that did not decode has no fingerprint: the request ends in
/// the decode error, which is reported as a server error.
pub proof fn lemma_undecodable_upload_is_refused()
    ensures
        fingerprint_of(Err(Undecodable)) == Err::<u64, Error>(Error::Decode),
        status_of(Rejection::Failed(Error::Decode)) == 500,
{
}

/// An admitted lookup that names neither an identifier nor a filename nor
/// a URL is answered with 400.
pub proof fn lemma_lookup_without_criteria_is_refused(count: i16)
    ensures
        gated_criteria_of(Ok(count), FileSearchOpts { id: None, name: None, url: None }) == Err::<Criteria, Error>(Error::InvalidData),
        status_of(Rejection::Failed(Error::InvalidData)) == 400,
{
}

} // verus!
