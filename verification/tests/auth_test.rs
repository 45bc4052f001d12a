use cqlib_tianyan::auth::{
    credentials_from_login, login_form, stored_credentials_plan, Credentials, TOKEN_VALID_SECS,
};
use cqlib_tianyan::error::TianyanError;
use std::time::{SystemTime, UNIX_EPOCH};

fn fresh_creds() -> Credentials {
    let now = SystemTime::now()
        .duration_since(UNIX_EPOCH)
        .unwrap()
        .as_secs() as i64;
    Credentials {
        api_key: "test-key".to_string(),
        access_token: "tok-abc".to_string(),
        token_obtained_at: now,
    }
}

#[test]
fn fresh_token_is_not_expired() {
    assert!(!fresh_creds().is_token_expired());
}

#[test]
fn old_token_is_expired() {
    let mut c = fresh_creds();
    c.token_obtained_at -= TOKEN_VALID_SECS + 1;
    assert!(c.is_token_expired());
}

#[test]
fn empty_api_key_creates_valid_credentials_struct() {
    let c = Credentials {
        api_key: String::new(),
        access_token: "tok".to_string(),
        token_obtained_at: 0,
    };
    // An empty key is structurally valid (server will reject it)
    assert!(c.is_token_expired()); // epoch-0 is always expired
}

#[test]
fn token_expires_exactly_three_hours_after_it_was_obtained() {
    let c = Credentials {
        api_key: "k".to_string(),
        access_token: "t".to_string(),
        token_obtained_at: 1_000,
    };
    assert_eq!(TOKEN_VALID_SECS, 10_800);
    assert!(!c.is_token_expired_at(1_000));
    assert!(!c.is_token_expired_at(1_000 + 10_799));
    assert!(c.is_token_expired_at(1_000 + 10_800));
    assert!(c.is_token_expired_at(i64::MAX));
    assert!(!c.is_token_expired_at(i64::MIN));
}

#[test]
fn token_expiry_does_not_overflow_at_extremes() {
    let c = Credentials {
        api_key: "k".to_string(),
        access_token: "t".to_string(),
        token_obtained_at: i64::MIN,
    };
    assert!(c.is_token_expired_at(i64::MAX));
    let d = Credentials { token_obtained_at: i64::MAX, ..c };
    assert!(!d.is_token_expired_at(i64::MIN));
}

#[test]
fn login_form_carries_the_api_key() {
    let form = login_form("my-key");
    let pairs: Vec<(String, String)> = form.into_iter().map(|f| (f.name, f.value)).collect();
    assert_eq!(
        pairs,
        vec![
            ("grant_type".to_string(), "openId".to_string()),
            ("openId".to_string(), "my-key".to_string()),
            ("account_type".to_string(), "member".to_string()),
        ]
    );
}

#[test]
fn successful_login_yields_credentials() {
    let c = credentials_from_login("key", 0, None, Some("token-1".to_string()), 42).unwrap();
    assert_eq!(c.api_key, "key");
    assert_eq!(c.access_token, "token-1");
    assert_eq!(c.token_obtained_at, 42);
}

#[test]
fn failed_login_reports_message_or_code() {
    match credentials_from_login("key", 7, Some("bad key".to_string()), None, 0) {
        Err(TianyanError::Auth(m)) => assert_eq!(m, "bad key"),
        other => panic!("unexpected {:?}", other),
    }
    match credentials_from_login("key", -3, None, Some("t".to_string()), 0) {
        Err(TianyanError::Auth(m)) => assert_eq!(m, "login failed with code -3"),
        other => panic!("unexpected {:?}", other),
    }
    match credentials_from_login("key", 0, None, None, 0) {
        Err(TianyanError::Auth(m)) => assert_eq!(m, "login response missing 'data' field"),
        other => panic!("unexpected {:?}", other),
    }
}

#[test]
fn stored_credentials_plan_follows_expiry_and_auto_refresh() {
    assert!(matches!(stored_credentials_plan(false, false), Ok(false)));
    assert!(matches!(stored_credentials_plan(false, true), Ok(false)));
    assert!(matches!(stored_credentials_plan(true, true), Ok(true)));
    match stored_credentials_plan(true, false) {
        Err(TianyanError::Auth(m)) => assert_eq!(
            m,
            "access token has expired; set auto_refresh=true or call login() again"
        ),
        other => panic!("unexpected {:?}", other),
    }
}
