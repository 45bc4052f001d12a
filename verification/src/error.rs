//! The errors that talking to the Tianyan platform can end in, and the text
//! each one is shown as.

use crate::text::{concat, i64_text, int_text};
use vstd::prelude::*;

verus! {

/// All errors that can occur when interacting with the Tianyan cloud platform.
///
/// Errors raised by the transport, the file system or the JSON decoder are
/// carried as the text they display as.
#[derive(Debug, Clone)]
pub enum TianyanError {
    /// An HTTP-level transport error.
    Http(String),
    /// The server returned a non-zero business error code.
    Api { code: i64, message: String },
    /// Authentication or credential-related failure.
    Auth(String),
    /// File system I/O error (reading/writing credential files, etc.).
    Io(String),
    /// JSON serialization/deserialization error.
    Json(String),
    /// A polling or wait operation exceeded the allowed duration
    /// (`secs` whole seconds and `nanos` nanoseconds).
    Timeout { secs: u64, nanos: u32 },
    /// The requested device name was not found in the platform's device list.
    DeviceNotFound(String),
    /// The caller supplied invalid parameters (e.g. empty circuit list, zero shots).
    InvalidInput(String),
    /// Failed to convert a circuit object into a QCIS string for submission.
    CircuitConversion(String),
}

/// How `Debug` writes a `std::time::Duration` of `secs` seconds and `nanos`
/// nanoseconds (for instance `1.5s` or `250ms`).
pub uninterp spec fn duration_debug_text(secs: u64, nanos: u32) -> Seq<char>;

/// `format!("{:?}", Duration::new(secs, nanos))`.
///
/// Claims only that the text is the one `Debug` gives for this duration;
/// `nanos` below one second keeps `Duration::new` from carrying into `secs`.
#[verifier::external_body]
fn duration_debug(secs: u64, nanos: u32) -> (s: String)
    requires
        nanos < 1_000_000_000,
    ensures
        s@ == duration_debug_text(secs, nanos),
{
    format!("{:?}", std::time::Duration::new(secs, nanos))
}

/// The text an error is displayed as.
pub open spec fn error_text(e: TianyanError) -> Seq<char> {
    match e {
        TianyanError::Http(m) => "HTTP request failed: "@ + m@,
        TianyanError::Api { code, message } => "API error (code="@ + int_text(code as int) + "): "@
            + message@,
        TianyanError::Auth(m) => "Authentication failed: "@ + m@,
        TianyanError::Io(m) => "IO error: "@ + m@,
        TianyanError::Json(m) => "JSON error: "@ + m@,
        TianyanError::Timeout { secs, nanos } => "Operation timed out after "@
            + duration_debug_text(secs, nanos),
        TianyanError::DeviceNotFound(name) => "Device not found: '"@ + name@ + "'"@,
        TianyanError::InvalidInput(m) => "Invalid input: "@ + m@,
        TianyanError::CircuitConversion(m) => "Circuit-to-QCIS conversion error: "@ + m@,
    }
}

/// A timeout holds fewer than a billion nanoseconds on top of its seconds.
pub open spec fn error_wf(e: TianyanError) -> bool {
    e matches TianyanError::Timeout { nanos, .. } ==> nanos < 1_000_000_000
}

impl TianyanError {
    /// The human-readable description of this error.
    pub fn message(&self) -> (s: String)
        requires
            error_wf(*self),
        ensures
            s@ == error_text(*self),
    {
        match self {
            TianyanError::Http(m) => concat("HTTP request failed: ", m.as_str()),
            TianyanError::Api { code, message } => {
                let head = concat("API error (code=", i64_text(*code).as_str());
                let mid = concat(head.as_str(), "): ");
                let s = concat(mid.as_str(), message.as_str());
                assert(s@ =~= "API error (code="@ + int_text(*code as int) + "): "@ + message@);
                s
            },
            TianyanError::Auth(m) => concat("Authentication failed: ", m.as_str()),
            TianyanError::Io(m) => concat("IO error: ", m.as_str()),
            TianyanError::Json(m) => concat("JSON error: ", m.as_str()),
            TianyanError::Timeout { secs, nanos } => concat(
                "Operation timed out after ",
                duration_debug(*secs, *nanos).as_str(),
            ),
            TianyanError::DeviceNotFound(name) => {
                let head = concat("Device not found: '", name.as_str());
                concat(head.as_str(), "'")
            },
            TianyanError::InvalidInput(m) => concat("Invalid input: ", m.as_str()),
            TianyanError::CircuitConversion(m) => concat(
                "Circuit-to-QCIS conversion error: ",
                m.as_str(),
            ),
        }
    }
}

} // verus!
