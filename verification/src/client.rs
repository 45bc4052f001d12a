//! The rules of the platform's HTTP exchanges: the response envelope, the
//! authorization headers, and what to do after each reply (re-login on 401,
//! wait and retry on 429, exponential backoff on 5xx and network errors).

use crate::error::TianyanError;
use crate::text::{concat, i64_text, int_text, parse_unsigned, parse_unsigned_text};
use vstd::prelude::*;

verus! {

/// Maximum number of retries for transient (5xx / network) errors.
pub const MAX_RETRIES: u32 = 2;

/// Base delay for exponential backoff, in seconds.
pub const BASE_RETRY_DELAY_SECS: u64 = 1;

/// Seconds to wait after a 429 reply that names no usable `Retry-After`.
pub const DEFAULT_RETRY_AFTER_SECS: u64 = 5;

/// Standard response envelope used by all Tianyan platform APIs.
pub struct ApiResponse<T> {
    pub code: i64,
    /// Some endpoints use `message`, others use `msg`.
    pub message: Option<String>,
    pub data: Option<T>,
}

/// What [`ApiResponse::into_data`] gives for an envelope.
pub open spec fn envelope_result<T>(
    code: i64,
    message: Option<Seq<char>>,
    data: Option<T>,
    r: Result<T, TianyanError>,
) -> bool {
    if code != 0 {
        r matches Err(TianyanError::Api { code: c, message: m }) && c == code && m@ == (
        match message {
            Some(text) => text,
            None => "API error code "@ + int_text(code as int),
        })
    } else {
        match data {
            Some(d) => r == Ok::<T, TianyanError>(d),
            None => r matches Err(TianyanError::Api { code: c, message: m }) && c == code && m@
                == "response 'data' field is null"@,
        }
    }
}

impl<T> ApiResponse<T> {
    /// Unwrap the `data` field, turning a non-zero `code` into [`TianyanError::Api`].
    pub fn into_data(self) -> (r: Result<T, TianyanError>)
        ensures
            envelope_result(self.code, crate::text::opt_text(self.message), self.data, r),
    {
        if self.code != 0 {
            let message = match self.message {
                Some(m) => m,
                None => concat("API error code ", i64_text(self.code).as_str()),
            };
            return Err(TianyanError::Api { code: self.code, message });
        }
        match self.data {
            Some(d) => Ok(d),
            None => Err(
                TianyanError::Api {
                    code: self.code,
                    message: String::from_str("response 'data' field is null"),
                },
            ),
        }
    }
}

/// The `Authorization` header value for `token`: `Bearer <token>`.
pub fn bearer_value(token: &str) -> (v: String)
    ensures
        v@ == "Bearer "@ + token@,
{
    concat("Bearer ", token)
}

/// The seconds to wait that a `Retry-After` header asks for: its value when
/// it is an unsigned decimal number, otherwise [`DEFAULT_RETRY_AFTER_SECS`].
pub open spec fn retry_after_wait(header: Option<Seq<char>>) -> int {
    match header {
        Some(h) => match parse_unsigned(h, u64::MAX as int) {
            Some(v) => v,
            None => DEFAULT_RETRY_AFTER_SECS as int,
        },
        None => DEFAULT_RETRY_AFTER_SECS as int,
    }
}

/// Seconds to wait after a 429 reply carrying the header value `header`.
pub fn retry_after_secs(header: Option<&str>) -> (secs: u64)
    ensures
        secs == retry_after_wait(
            match header {
                Some(h) => Some(h@),
                None => None,
            },
        ),
{
    match header {
        Some(h) => match parse_unsigned_text(h, u64::MAX) {
            Some(v) => v,
            None => DEFAULT_RETRY_AFTER_SECS,
        },
        None => DEFAULT_RETRY_AFTER_SECS,
    }
}

/// `2^n`.
pub open spec fn pow2(n: nat) -> nat
    decreases n,
{
    if n == 0 {
        1
    } else {
        2 * pow2((n - 1) as nat)
    }
}

/// The backoff delay, in seconds, after failed attempt number `attempt`
/// (counting from zero): `BASE_RETRY_DELAY_SECS * 2^attempt`.
pub fn backoff_secs(attempt: u32) -> (secs: u64)
    requires
        attempt < MAX_RETRIES,
    ensures
        secs == BASE_RETRY_DELAY_SECS * pow2(attempt as nat),
{
    assert(pow2(0) == 1);
    assert(pow2(1) == 2);
    if attempt == 0 {
        BASE_RETRY_DELAY_SECS
    } else {
        BASE_RETRY_DELAY_SECS * 2
    }
}

/// What came back from one attempt to send a request.
#[derive(Debug, Clone)]
pub enum Reply {
    /// The request never got an HTTP reply (the transport error's text).
    NetworkError(String),
    /// HTTP 401.
    Unauthorized,
    /// HTTP 429, with the `Retry-After` header's text when it has one.
    TooManyRequests { retry_after: Option<String> },
    /// An HTTP 5xx status: its code and its display text (e.g. `500 Internal Server Error`).
    ServerError { status: u16, status_text: String },
    /// Any other status: the body is to be decoded.
    Other,
}

/// What to do after an attempt.
#[derive(Debug, Clone)]
pub enum RetryStep {
    /// Decode the reply's body; that ends the exchange.
    Deliver,
    /// Log in again, resend once with the new token, and decode that reply.
    RefreshAndResend,
    /// Sleep `wait_secs`; then send again when `resend`, else fail with `error`.
    Again { wait_secs: u64, error: TianyanError, resend: bool },
}

/// The step that follows `reply` to attempt number `attempt`.
pub open spec fn retry_rule(attempt: u32, reply: Reply, step: RetryStep) -> bool {
    let backoff = if attempt < MAX_RETRIES {
        BASE_RETRY_DELAY_SECS * pow2(attempt as nat)
    } else {
        0
    };
    match reply {
        Reply::NetworkError(m) => {
            &&& step matches RetryStep::Again { wait_secs, error, resend }
            &&& wait_secs == backoff
            &&& resend == (attempt < MAX_RETRIES)
            &&& error matches TianyanError::Http(e)
            &&& e@ == m@
        },
        Reply::Unauthorized => step matches RetryStep::RefreshAndResend,
        Reply::TooManyRequests { retry_after } => {
            &&& step matches RetryStep::Again { wait_secs, error, resend }
            &&& wait_secs == retry_after_wait(crate::text::opt_text(retry_after))
            &&& resend == (attempt < MAX_RETRIES)
            &&& error matches TianyanError::Api { code, message }
            &&& code == 429
            &&& message@ == "rate limited"@
        },
        Reply::ServerError { status, status_text } => {
            &&& step matches RetryStep::Again { wait_secs, error, resend }
            &&& wait_secs == backoff
            &&& resend == (attempt < MAX_RETRIES)
            &&& error matches TianyanError::Api { code, message }
            &&& code == status as i64
            &&& message@ == "server error "@ + status_text@
        },
        Reply::Other => step matches RetryStep::Deliver,
    }
}

/// Decide what follows `reply` to attempt number `attempt` (counting from zero).
///
/// Attempts are numbered `0..=MAX_RETRIES`; a further send is only ever asked
/// for while `attempt < MAX_RETRIES`.
pub fn retry_step(attempt: u32, reply: &Reply) -> (step: RetryStep)
    requires
        attempt <= MAX_RETRIES,
    ensures
        retry_rule(attempt, *reply, step),
        reply is NetworkError || reply is TooManyRequests || reply is ServerError ==> (step matches
            RetryStep::Again { resend, .. } && resend == (attempt < MAX_RETRIES)),
        reply is Unauthorized ==> step is RefreshAndResend,
        reply is Other ==> step is Deliver,
{
    let resend = attempt < MAX_RETRIES;
    match reply {
        Reply::NetworkError(m) => {
            let wait_secs = if resend {
                backoff_secs(attempt)
            } else {
                0
            };
            RetryStep::Again { wait_secs, error: TianyanError::Http(m.clone()), resend }
        },
        Reply::Unauthorized => RetryStep::RefreshAndResend,
        Reply::TooManyRequests { retry_after } => {
            let wait_secs = match retry_after {
                Some(h) => retry_after_secs(Some(h.as_str())),
                None => retry_after_secs(None),
            };
            RetryStep::Again {
                wait_secs,
                error: TianyanError::Api { code: 429, message: String::from_str("rate limited") },
                resend,
            }
        },
        Reply::ServerError { status, status_text } => {
            let wait_secs = if resend {
                backoff_secs(attempt)
            } else {
                0
            };
            RetryStep::Again {
                wait_secs,
                error: TianyanError::Api {
                    code: *status as i64,
                    message: concat("server error ", status_text.as_str()),
                },
                resend,
            }
        },
        Reply::Other => RetryStep::Deliver,
    }
}

/// A request is sent at most `MAX_RETRIES + 1` times before the 401 path:
/// whatever the reply to the last numbered attempt, no further numbered
/// attempt is asked for.
pub proof fn retries_are_bounded(reply: Reply, step: RetryStep)
    requires
        retry_rule(MAX_RETRIES, reply, step),
    ensures
        step matches RetryStep::Again { resend, .. } ==> !resend,
{
}

/// Backoff doubles from one attempt to the next: after a transient failure
/// of attempt `a + 1` the wait is twice the wait after attempt `a`.
pub proof fn backoff_doubles(a: u32, r1: Reply, s1: RetryStep, r2: Reply, s2: RetryStep)
    requires
        a + 1 < MAX_RETRIES,
        r1 is NetworkError || r1 is ServerError,
        r2 is NetworkError || r2 is ServerError,
        retry_rule(a, r1, s1),
        retry_rule((a + 1) as u32, r2, s2),
    ensures
        s2->wait_secs == 2 * s1->wait_secs,
{
}

/// Every transient failure (a network error, a 429 or a 5xx) before the last
/// numbered attempt is followed by a resend, and one at the last attempt is
/// not; a 401 leads to a fresh login and one resend, and any other reply is
/// delivered.
pub proof fn transient_failures_are_retried(attempt: u32, reply: Reply, step: RetryStep)
    requires
        attempt <= MAX_RETRIES,
        retry_rule(attempt, reply, step),
    ensures
        reply is NetworkError || reply is TooManyRequests || reply is ServerError ==> (step matches
            RetryStep::Again { resend, .. } && resend == (attempt < MAX_RETRIES)),
        reply is Unauthorized ==> step is RefreshAndResend,
        reply is Other ==> step is Deliver,
{
}

/// A request is sent at most three times on transient failures, waiting
/// one second after the first failure and two after the second; a 429 waits
/// the seconds its `Retry-After` header gives when that is a number, and
/// five seconds otherwise, and fails with `Api { 429, "rate limited" }` once
/// no resend is left.
pub proof fn retry_waits_are_as_documented(attempt: u32, reply: Reply, step: RetryStep)
    requires
        attempt <= MAX_RETRIES,
        retry_rule(attempt, reply, step),
    ensures
        MAX_RETRIES == 2,
        (reply is NetworkError || reply is ServerError) && attempt == 0 ==> step->wait_secs == 1,
        (reply is NetworkError || reply is ServerError) && attempt == 1 ==> step->wait_secs == 2,
        reply matches Reply::TooManyRequests { retry_after } ==> match retry_after {
            Some(h) => match parse_unsigned(h@, u64::MAX as int) {
                Some(v) => step->wait_secs == v,
                None => step->wait_secs == 5,
            },
            None => step->wait_secs == 5,
        },
        reply is TooManyRequests ==> (step matches RetryStep::Again { error, .. } && error matches
            TianyanError::Api { code, message } && code == 429 && message@ == "rate limited"@),
{
    assert(pow2(0) == 1);
    assert(pow2(1) == 2);
}

} // verus!
