use cqlib_tianyan::client::{
    bearer_value, retry_after_secs, retry_step, ApiResponse, Reply, RetryStep, MAX_RETRIES,
};
use cqlib_tianyan::error::TianyanError;
use cqlib_tianyan::ffi::{
    check_circuit_array, circuit_argument_name, clear_last_error, invalid_utf8_message,
    null_argument_message, set_last_error,
};
use cqlib_tianyan::text::{i64_text, parse_unsigned_text, split_text, trim_text};

#[test]
fn envelope_with_zero_code_yields_data() {
    let r = ApiResponse { code: 0, message: None, data: Some(5) };
    assert_eq!(r.into_data().unwrap(), 5);
}

#[test]
fn envelope_errors() {
    let r: ApiResponse<u8> = ApiResponse { code: 3, message: Some("nope".to_string()), data: Some(1) };
    match r.into_data() {
        Err(TianyanError::Api { code, message }) => {
            assert_eq!(code, 3);
            assert_eq!(message, "nope");
        }
        other => panic!("unexpected {:?}", other),
    }
    let r: ApiResponse<u8> = ApiResponse { code: -2, message: None, data: None };
    match r.into_data() {
        Err(TianyanError::Api { message, .. }) => assert_eq!(message, "API error code -2"),
        other => panic!("unexpected {:?}", other),
    }
    let r: ApiResponse<u8> = ApiResponse { code: 0, message: None, data: None };
    match r.into_data() {
        Err(TianyanError::Api { code, message }) => {
            assert_eq!(code, 0);
            assert_eq!(message, "response 'data' field is null");
        }
        other => panic!("unexpected {:?}", other),
    }
}

#[test]
fn retry_steps() {
    assert!(matches!(retry_step(0, &Reply::Other), RetryStep::Deliver));
    assert!(matches!(retry_step(1, &Reply::Unauthorized), RetryStep::RefreshAndResend));
    match retry_step(0, &Reply::NetworkError("boom".to_string())) {
        RetryStep::Again { wait_secs, error: TianyanError::Http(m), resend } => {
            assert_eq!((wait_secs, m.as_str(), resend), (1, "boom", true))
        }
        other => panic!("unexpected {:?}", other),
    }
    match retry_step(1, &Reply::ServerError { status: 503, status_text: "503 Service Unavailable".to_string() }) {
        RetryStep::Again { wait_secs, error: TianyanError::Api { code, message }, resend } => {
            assert_eq!(wait_secs, 2);
            assert_eq!(code, 503);
            assert_eq!(message, "server error 503 Service Unavailable");
            assert!(resend);
        }
        other => panic!("unexpected {:?}", other),
    }
    match retry_step(MAX_RETRIES, &Reply::ServerError { status: 500, status_text: "500".to_string() }) {
        RetryStep::Again { wait_secs, resend, .. } => assert_eq!((wait_secs, resend), (0, false)),
        other => panic!("unexpected {:?}", other),
    }
    match retry_step(MAX_RETRIES, &Reply::TooManyRequests { retry_after: Some("7".to_string()) }) {
        RetryStep::Again { wait_secs, error: TianyanError::Api { code, message }, resend } => {
            assert_eq!((wait_secs, code, message.as_str(), resend), (7, 429, "rate limited", false))
        }
        other => panic!("unexpected {:?}", other),
    }
}

#[test]
fn retry_after_header_parsing() {
    assert_eq!(retry_after_secs(None), 5);
    assert_eq!(retry_after_secs(Some("12")), 12);
    assert_eq!(retry_after_secs(Some("+3")), 3);
    assert_eq!(retry_after_secs(Some("soon")), 5);
    assert_eq!(retry_after_secs(Some("")), 5);
    assert_eq!(retry_after_secs(Some("18446744073709551616")), 5);
}

#[test]
fn bearer_header() {
    assert_eq!(bearer_value("abc"), "Bearer abc");
}

#[test]
fn error_messages() {
    assert_eq!(
        TianyanError::Api { code: 12, message: "x".to_string() }.message(),
        "API error (code=12): x"
    );
    assert_eq!(
        TianyanError::DeviceNotFound("dev".to_string()).message(),
        "Device not found: 'dev'"
    );
    assert_eq!(
        TianyanError::Timeout { secs: 2, nanos: 0 }.message(),
        format!("Operation timed out after {:?}", std::time::Duration::from_secs(2))
    );
    assert_eq!(TianyanError::InvalidInput("bad".to_string()).message(), "Invalid input: bad");
}

#[test]
fn decimal_text() {
    assert_eq!(i64_text(0), "0");
    assert_eq!(i64_text(-45), "-45");
    assert_eq!(i64_text(i64::MIN), i64::MIN.to_string());
    assert_eq!(i64_text(i64::MAX), i64::MAX.to_string());
    assert_eq!(parse_unsigned_text("255", 255), Some(255));
    assert_eq!(parse_unsigned_text("256", 255), None);
    assert_eq!(parse_unsigned_text("+", 255), None);
}

#[test]
fn trim_and_split_match_std() {
    for s in ["", " a ", "\u{3000}x\u{2029}", "a,b,,c,", ","] {
        assert_eq!(trim_text(s), s.trim());
        let parts: Vec<String> = s.split(',').map(|p| p.to_string()).collect();
        assert_eq!(split_text(s, ','), parts);
    }
}

#[test]
fn last_error_slot() {
    let mut slot: Option<String> = None;
    set_last_error(&mut slot, "oops".to_string());
    assert_eq!(slot.as_deref(), Some("oops"));
    clear_last_error(&mut slot);
    assert!(slot.is_none());
}

#[test]
fn c_argument_messages() {
    assert_eq!(null_argument_message("task"), "task must not be NULL");
    assert_eq!(invalid_utf8_message("name"), "name is not valid UTF-8");
    assert_eq!(circuit_argument_name(3), "circuits[3]");
    assert!(check_circuit_array(true, 0).is_ok());
    assert!(check_circuit_array(false, 2).is_ok());
    assert_eq!(
        check_circuit_array(true, 1).unwrap_err(),
        "circuits must not be NULL when n_circuits > 0"
    );
}
