use vstd::prelude::*;

verus! {

/// The closed set of failures the client pipeline can produce.
///
/// Every stage of a call (request build, transport, response handling,
/// decoding) reports through one of these variants; nothing is swallowed.
#[derive(Debug)]
pub enum ApiClientError {
    /// Transport-level failure (connection, DNS, TLS, timeout). Never retried.
    Network(String),
    /// Reserved: a bare unexpected status, not produced by the pipeline.
    HttpStatus(u16),
    /// The body was received but could not be parsed as a JSON document.
    JsonParse(String),
    /// A parsed JSON value did not fit the expected shape (carries the field
    /// path of the first mismatch), or an outgoing body could not be encoded.
    DeserializeError(String),
    /// HTTP 429; the only kind that triggers the retry loop.
    RateLimit(String),
    /// Any other non-success HTTP status, with the raw body for inspection.
    ApiError { status: u16, body: String },
    /// Catch-all for invariant violations; should not occur in normal operation.
    Unexpected(String),
    /// The retry budget for rate-limited attempts was exhausted.
    MaxRetriesReached,
}

impl ApiClientError {
    /// Only a rate-limit outcome may trigger a retry.
    pub fn is_rate_limit(&self) -> (r: bool)
        ensures
            r == (self is RateLimit),
    {
        matches!(self, ApiClientError::RateLimit(_))
    }
}

} // verus!
