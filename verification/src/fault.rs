//! What can go wrong in a call to one of the remote services, as a closed
//! classification made once where the call returns.

use vstd::prelude::*;

verus! {

/// The way a call to a remote service failed.
#[derive(Clone, Copy, Debug, PartialEq, Eq, Structural)]
pub enum ServiceFault {
    /// The request did not complete within its timeout.
    Timeout,
    /// The response could not be read as the expected document.
    MalformedResponse,
    /// The service refused the request because too many were sent.
    TooManyRequests,
    /// The service rejected the request as one it cannot process.
    BadRequest,
    /// The credential was not accepted.
    InvalidCredential,
    /// No credential was configured although the service requires one.
    MissingCredential,
    /// The service reported an internal error.
    ServerError,
    /// The service answered with a status the caller does not know.
    Status(u16),
    /// Any other failure of the transport.
    Transport,
}

/// Whether a failed metadata request may be sent again: only a timeout or
/// an unreadable response is worth another attempt.
pub open spec fn retryable(fault: ServiceFault) -> bool {
    fault is Timeout || fault is MalformedResponse
}

/// Whether a failed metadata request may be sent again.
pub fn is_retryable(fault: ServiceFault) -> (r: bool)
    ensures
        r == retryable(fault),
{
    match fault {
        ServiceFault::Timeout => true,
        ServiceFault::MalformedResponse => true,
        _ => false,
    }
}

/// Whether a metadata request that failed with `fault` is sent again, given
/// a count of what was spent on its chunk and the bound on that count: the
/// count is below the bound and the fault is worth another attempt.
pub open spec fn retry_allowed(fault: ServiceFault, attempts: u32, max_retries: u32) -> bool {
    attempts < max_retries && retryable(fault)
}

/// Decides whether a failed metadata request is sent again.
///
/// A request is retried exactly when `attempts` is below `max_retries` and
/// the fault is a timeout or an unreadable response.
pub fn should_retry(fault: ServiceFault, attempts: u32, max_retries: u32) -> (r: bool)
    ensures
        r == retry_allowed(fault, attempts, max_retries),
{
    if attempts >= max_retries {
        return false;
    }
    is_retryable(fault)
}

/// Whether an upload failure means that the credential may not publish
/// under the target owner, so that another attempt cannot succeed.
pub open spec fn cannot_publish(fault: ServiceFault) -> bool {
    fault is BadRequest
}

/// Whether an upload failure means that the credential may not publish
/// under the target owner.
pub fn is_cannot_publish(fault: ServiceFault) -> (r: bool)
    ensures
        r == cannot_publish(fault),
{
    match fault {
        ServiceFault::BadRequest => true,
        _ => false,
    }
}

} // verus!
