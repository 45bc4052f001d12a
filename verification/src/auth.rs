//! Credentials and the rules around them: token lifetime, what the login
//! endpoint is sent, how its answer becomes credentials, and what happens to
//! stored credentials whose token has expired.
//!
//! The platform does not publish a token lifetime; a token is treated as
//! expired [`TOKEN_VALID_SECS`] seconds (3 hours) after it was obtained.

use crate::error::TianyanError;
use crate::text::{concat, i64_text, int_text};
use vstd::prelude::*;

verus! {

/// Conservative token lifetime in seconds (3 hours).
pub const TOKEN_VALID_SECS: i64 = 3 * 60 * 60;

/// Persisted authentication credentials for the Tianyan platform.
#[derive(Debug, Clone)]
pub struct Credentials {
    /// The user's permanent API key (openId), used to obtain new access tokens.
    pub api_key: String,
    /// The current Bearer access token returned by the login endpoint.
    pub access_token: String,
    /// Unix timestamp (seconds) when `access_token` was obtained.
    pub token_obtained_at: i64,
}

/// A token obtained at `obtained` has expired by the time `now`.
pub open spec fn token_expired_at(obtained: i64, now: i64) -> bool {
    now - obtained >= TOKEN_VALID_SECS
}

/// The clock reading `is_token_expired` uses: whole seconds since the Unix
/// epoch, `0` when the clock is before the epoch, as `u64 as i64` casts it.
pub open spec fn clock_seconds(reading: Option<u64>) -> i64 {
    match reading {
        Some(secs) => secs as i64,
        None => 0,
    }
}

/// The system clock's time, as std holds it.
#[verifier::external_type_specification]
#[verifier::external_body]
pub struct ExSystemTime(std::time::SystemTime);

/// `SystemTime::now`: the system clock's current reading.
///
/// The reading depends on the clock, so nothing is claimed of it.
#[verifier::external_body]
fn clock_now() -> (t: std::time::SystemTime) {
    std::time::SystemTime::now()
}

/// `SystemTime::duration_since(UNIX_EPOCH)`: how long after the Unix epoch
/// `t` lies, `None` when it lies before the epoch.
///
/// Nothing is claimed of the duration: it comes from a clock reading.
#[verifier::external_body]
fn since_unix_epoch(t: &std::time::SystemTime) -> (d: Option<std::time::Duration>) {
    t.duration_since(std::time::UNIX_EPOCH).ok()
}

/// `Duration::as_secs`: the whole seconds of a duration.
///
/// Nothing is claimed of it: the durations handed in come from the clock.
#[verifier::external_body]
fn whole_seconds(d: &std::time::Duration) -> (secs: u64) {
    d.as_secs()
}

/// Whole seconds since the Unix epoch on the system clock, `None` when the
/// clock is set before the epoch.
fn seconds_since_epoch() -> (secs: Option<u64>) {
    let now = clock_now();
    match since_unix_epoch(&now) {
        Some(d) => Some(whole_seconds(&d)),
        None => None,
    }
}

impl Credentials {
    /// Whether the token has exceeded [`TOKEN_VALID_SECS`] at the Unix time `now`.
    pub fn is_token_expired_at(&self, now: i64) -> (r: bool)
        ensures
            r == token_expired_at(self.token_obtained_at, now),
    {
        (now as i128) - (self.token_obtained_at as i128) >= TOKEN_VALID_SECS as i128
    }

    /// Returns `true` if the cached access token has exceeded [`TOKEN_VALID_SECS`]
    /// at the current time.
    pub fn is_token_expired(&self) -> (r: bool)
        ensures
            exists|reading: Option<u64>|
                r == token_expired_at(self.token_obtained_at, #[trigger] clock_seconds(reading)),
    {
        let reading = seconds_since_epoch();
        let now: i64 = match reading {
            Some(secs) => secs as i64,
            None => 0,
        };
        let r = self.is_token_expired_at(now);
        assert(r == token_expired_at(self.token_obtained_at, clock_seconds(reading)));
        r
    }
}

/// Once a token has expired it stays expired: expiry at `t1` implies expiry
/// at every later time `t2`.
pub proof fn token_expiry_is_permanent(c: Credentials, t1: i64, t2: i64)
    requires
        token_expired_at(c.token_obtained_at, t1),
        t1 <= t2,
    ensures
        token_expired_at(c.token_obtained_at, t2),
{
}

/// A token is still valid for the whole of the [`TOKEN_VALID_SECS`] seconds
/// after it was obtained, and expired from then on.
pub proof fn token_lifetime_is_three_hours(c: Credentials, now: i64)
    ensures
        token_expired_at(c.token_obtained_at, now) <==> now >= c.token_obtained_at + 10800,
{
}

// ── Login ────────────────────────────────────────────────────────────────────

/// One `name=value` field of the login form.
#[derive(Debug, Clone)]
pub struct FormField {
    pub name: String,
    pub value: String,
}

/// The form sent to the login endpoint for `api_key`.
pub open spec fn login_form_spec(api_key: Seq<char>, form: Seq<FormField>) -> bool {
    &&& form.len() == 3
    &&& form[0].name@ == "grant_type"@ && form[0].value@ == "openId"@
    &&& form[1].name@ == "openId"@ && form[1].value@ == api_key
    &&& form[2].name@ == "account_type"@ && form[2].value@ == "member"@
}

/// The form fields of the login request: the `openId` grant for `api_key`,
/// as a member account.
pub fn login_form(api_key: &str) -> (form: Vec<FormField>)
    ensures
        login_form_spec(api_key@, form@),
{
    let mut form: Vec<FormField> = Vec::new();
    form.push(
        FormField { name: String::from_str("grant_type"), value: String::from_str("openId") },
    );
    form.push(FormField { name: String::from_str("openId"), value: String::from_str(api_key) });
    form.push(
        FormField { name: String::from_str("account_type"), value: String::from_str("member") },
    );
    form
}

/// What the login endpoint answered: its business `code`, its optional
/// `message`, and the access token when its `data` section is present.
pub open spec fn login_result(
    api_key: Seq<char>,
    code: i64,
    message: Option<Seq<char>>,
    token: Option<Seq<char>>,
    now: i64,
    r: Result<Credentials, TianyanError>,
) -> bool {
    if code != 0 {
        r matches Err(TianyanError::Auth(m)) && m@ == (match message {
            Some(text) => text,
            None => "login failed with code "@ + int_text(code as int),
        })
    } else if token is None {
        r matches Err(TianyanError::Auth(m)) && m@ == "login response missing 'data' field"@
    } else {
        r matches Ok(c) && c.api_key@ == api_key && c.access_token@ == token->0
            && c.token_obtained_at == now
    }
}

/// Turn the login endpoint's answer into credentials obtained at `now`.
pub fn credentials_from_login(
    api_key: &str,
    code: i64,
    message: Option<String>,
    access_token: Option<String>,
    now: i64,
) -> (r: Result<Credentials, TianyanError>)
    ensures
        login_result(
            api_key@,
            code,
            crate::text::opt_text(message),
            crate::text::opt_text(access_token),
            now,
            r,
        ),
{
    if code != 0 {
        let m = match message {
            Some(text) => text,
            None => concat("login failed with code ", i64_text(code).as_str()),
        };
        return Err(TianyanError::Auth(m));
    }
    match access_token {
        None => Err(TianyanError::Auth(String::from_str("login response missing 'data' field"))),
        Some(token) => Ok(
            Credentials {
                api_key: String::from_str(api_key),
                access_token: token,
                token_obtained_at: now,
            },
        ),
    }
}

/// What is done with stored credentials before use: `Ok(true)` when they
/// must be replaced by a fresh login, `Ok(false)` when they can be used as
/// they are, and an `Auth` error when the token has expired and automatic
/// re-login is switched off.
pub open spec fn stored_credentials_decision(
    expired: bool,
    auto_refresh: bool,
    r: Result<bool, TianyanError>,
) -> bool {
    if !expired {
        r == Ok::<bool, TianyanError>(false)
    } else if auto_refresh {
        r == Ok::<bool, TianyanError>(true)
    } else {
        r matches Err(TianyanError::Auth(m)) && m@
            == "access token has expired; set auto_refresh=true or call login() again"@
    }
}

/// Decide whether stored credentials need a fresh login.
pub fn stored_credentials_plan(expired: bool, auto_refresh: bool) -> (r: Result<
    bool,
    TianyanError,
>)
    ensures
        stored_credentials_decision(expired, auto_refresh, r),
{
    if expired {
        if !auto_refresh {
            return Err(
                TianyanError::Auth(
                    String::from_str(
                        "access token has expired; set auto_refresh=true or call login() again",
                    ),
                ),
            );
        }
        Ok(true)
    } else {
        Ok(false)
    }
}

} // verus!
