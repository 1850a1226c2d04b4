//! Classification of API call outcomes into RETRIABLE and FATAL failures.
//!
//! A RETRIABLE failure is fully absorbed by the retry engine; a FATAL
//! failure propagates to the caller immediately.

use vstd::prelude::*;

verus! {

/// Everything that can go wrong during one attempt of an API call,
/// already lifted out of the transport library into plain data.
#[derive(Debug, Clone, PartialEq, Eq)]
pub enum ApiFailure {
    /// A non-2xx HTTP status observed on the response.
    Status(u16),
    /// The transport timed out.
    Timeout,
    /// The connection was reset by the peer.
    ConnectionReset,
    /// An API-level error payload whose message mentions abuse detection;
    /// treated like an HTTP 429 throttle.
    AbuseDetected,
    /// An API-level error payload with any other message.
    ApiMessage { status: u16, message: String },
    /// A GraphQL response that carried errors, or a bare message, and no
    /// data.
    GraphFailed { message: String },
    /// A response body that could not be decoded as expected.
    Malformed { detail: String },
    /// A GraphQL response with neither data, errors nor a message.
    EmptyResponse,
    /// The batched GraphQL query reported a rate-limit cost above the
    /// expected bound; continuing would silently burn quota.
    CostTooHigh { cost: u16 },
    /// Any other transport-level failure.
    Transport { detail: String },
}

/// Outcome of classifying a failure.
#[derive(Debug, Clone, Copy, PartialEq, Eq, Structural)]
pub enum ErrorClass {
    Retriable,
    Fatal,
}

/// The classification rules: transient server errors (500, 502, 503, 504),
/// transport timeouts, connection resets and abuse-detection throttles are
/// RETRIABLE; everything else is FATAL.
pub open spec fn spec_retriable(f: ApiFailure) -> bool {
    match f {
        ApiFailure::Status(s) => s == 500 || s == 502 || s == 503 || s == 504,
        ApiFailure::Timeout => true,
        ApiFailure::ConnectionReset => true,
        ApiFailure::AbuseDetected => true,
        _ => false,
    }
}

/// Decide whether a failed attempt may be retried.
pub fn classify(f: &ApiFailure) -> (c: ErrorClass)
    ensures
        c == ErrorClass::Retriable <==> spec_retriable(*f),
{
    match f {
        ApiFailure::Status(s) => {
            if *s == 500 || *s == 502 || *s == 503 || *s == 504 {
                ErrorClass::Retriable
            } else {
                ErrorClass::Fatal
            }
        },
        ApiFailure::Timeout => ErrorClass::Retriable,
        ApiFailure::ConnectionReset => ErrorClass::Retriable,
        ApiFailure::AbuseDetected => ErrorClass::Retriable,
        _ => ErrorClass::Fatal,
    }
}

} // verus!
