use cqlib_tianyan::config::{
    credentials_path_under, join_path, platform_path_style, PathStyle, TianyanConfig,
    DEVICE_LIST_PATH, DOWNLOAD_CONFIG_PATH, LOGIN_PATH, QUERY_RESULT_PATH, SUBMIT_PATH,
};
use std::path::Path;

#[test]
fn default_config_has_correct_domain() {
    let cfg = TianyanConfig::default();
    assert_eq!(cfg.domain, "qc.zdxlz.com");
    assert_eq!(cfg.scheme, "https");
    assert_eq!(cfg.base_url(), "https://qc.zdxlz.com");
}

#[test]
fn custom_config_overrides_domain() {
    let cfg = TianyanConfig::custom("test.example.com");
    assert_eq!(cfg.domain, "test.example.com");
    assert_eq!(cfg.base_url(), "https://test.example.com");
}

#[test]
fn credentials_path_is_non_empty() {
    let cfg = TianyanConfig::default();
    assert!(!cfg.credentials_path.is_empty());
    assert_eq!(
        Path::new(&cfg.credentials_path).file_name().and_then(|n| n.to_str()),
        Some("credentials.json")
    );
}

#[test]
fn api_path_constants_start_with_slash() {
    assert!(DEVICE_LIST_PATH.starts_with('/'));
    assert!(SUBMIT_PATH.starts_with('/'));
    assert!(QUERY_RESULT_PATH.starts_with('/'));
    assert!(LOGIN_PATH.starts_with('/'));
    assert!(DOWNLOAD_CONFIG_PATH.starts_with('/'));
}

#[test]
fn credentials_path_contains_tianyan_dir() {
    let cfg = TianyanConfig::default();
    let path_str = cfg.credentials_path.clone();
    assert!(
        path_str.contains("tianyan"),
        "credentials path should contain 'tianyan': {}",
        path_str
    );
}

#[test]
fn credentials_path_is_under_the_home_directory() {
    assert_eq!(
        credentials_path_under(PathStyle::Unix, Some("/home/user".to_string())),
        "/home/user/.cqlib/tianyan/credentials.json"
    );
    assert_eq!(
        credentials_path_under(PathStyle::Unix, Some("/home/user/".to_string())),
        "/home/user/.cqlib/tianyan/credentials.json"
    );
    assert_eq!(credentials_path_under(PathStyle::Unix, None), "./.cqlib/tianyan/credentials.json");
}

#[test]
fn join_path_inserts_one_separator() {
    assert_eq!(join_path(PathStyle::Unix, "", "a"), "a");
    assert_eq!(join_path(PathStyle::Unix, "/", "a"), "/a");
    assert_eq!(join_path(PathStyle::Unix, "x", "a"), "x/a");
    assert_eq!(join_path(PathStyle::Unix, "x\\", "a"), "x\\/a");
    assert_eq!(join_path(PathStyle::Windows, "x", "a"), "x\\a");
    assert_eq!(join_path(PathStyle::Windows, "x\\", "a"), "x\\a");
    assert_eq!(join_path(PathStyle::Windows, "x/", "a"), "x/a");
    // A bare drive takes the component without a separator, as `PathBuf` does.
    assert_eq!(join_path(PathStyle::Windows, "C:", "cqlib"), "C:cqlib");
    assert_eq!(join_path(PathStyle::Windows, "z:", "a"), "z:a");
    assert_eq!(join_path(PathStyle::Windows, "1:", "a"), "1:\\a");
    assert_eq!(join_path(PathStyle::Windows, "C:x", "a"), "C:x\\a");
    assert_eq!(join_path(PathStyle::Unix, "C:", "a"), "C:/a");
}

#[test]
fn windows_credentials_live_under_the_configuration_directory() {
    assert_eq!(
        credentials_path_under(
            PathStyle::Windows,
            Some("C:\\Users\\u\\AppData\\Roaming".to_string())
        ),
        "C:\\Users\\u\\AppData\\Roaming\\cqlib\\tianyan\\credentials.json"
    );
    assert_eq!(
        credentials_path_under(PathStyle::Windows, None),
        ".\\cqlib\\tianyan\\credentials.json"
    );
}

#[test]
fn the_path_style_follows_the_platform() {
    let expected =
        if std::path::MAIN_SEPARATOR == '\\' { PathStyle::Windows } else { PathStyle::Unix };
    assert_eq!(platform_path_style(), expected);
}

#[test]
fn builders_change_only_their_setting() {
    let base = TianyanConfig::custom("d.example");
    let cfg = base
        .clone()
        .with_save_credentials(false)
        .with_auto_refresh(false)
        .with_credentials_path("/tmp/creds.json");
    assert_eq!(cfg.domain, "d.example");
    assert_eq!(cfg.scheme, "https");
    assert!(!cfg.save_credentials);
    assert!(!cfg.auto_refresh);
    assert_eq!(cfg.credentials_path, "/tmp/creds.json");
    assert!(base.save_credentials && base.auto_refresh);
}

#[test]
fn options_fill_in_defaults() {
    let cfg = TianyanConfig::from_options(None, None, None, None);
    assert_eq!(cfg.base_url(), "https://qc.zdxlz.com");
    assert!(cfg.save_credentials && cfg.auto_refresh);
    let cfg = TianyanConfig::from_options(Some("my-domain.com"), Some(false), Some(true), Some("/x.json"));
    assert_eq!(cfg.base_url(), "https://my-domain.com");
    assert!(!cfg.save_credentials);
    assert!(cfg.auto_refresh);
    assert_eq!(cfg.credentials_path, "/x.json");
}
