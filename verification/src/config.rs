//! Configuration for the Tianyan quantum cloud platform.
//!
//! [`TianyanConfig`] holds the base URL and the local path used to store
//! authentication credentials.  [`TianyanConfig::default`] points to the
//! official production environment (`https://qc.zdxlz.com`).

use crate::text::{concat, opt_text, push_char};
use vstd::prelude::*;

verus! {

/// Login / token acquisition endpoint.
pub const LOGIN_PATH: &'static str = "/qccp-auth/oauth2/sdk/opnId";

/// Device (quantum computer) list endpoint.
pub const DEVICE_LIST_PATH: &'static str = "/qccp-quantum/sdk/quantumComputer/list";

/// Batch circuit submission endpoint (max 50 circuits per call).
pub const SUBMIT_PATH: &'static str = "/qccp-quantum/sdk/experiment/submit";

/// Result query endpoint.
pub const QUERY_RESULT_PATH: &'static str = "/qccp-quantum/sdk/experiment/result/find";

/// Device calibration configuration download endpoint (append `/{machine}`).
pub const DOWNLOAD_CONFIG_PATH: &'static str = "/qccp-quantum/sdk/experiment/download/config";

/// Runtime configuration for the Tianyan platform client.
#[derive(Debug, Clone)]
pub struct TianyanConfig {
    /// URL scheme, almost always `"https"`.
    pub scheme: String,
    /// Hostname of the platform, e.g. `"qc.zdxlz.com"`.
    pub domain: String,
    /// Local path of the JSON credentials file
    /// (by default `~/.cqlib/tianyan/credentials.json`).
    pub credentials_path: String,
    /// Whether to persist credentials after a login or token refresh.
    pub save_credentials: bool,
    /// Whether to re-login automatically when the stored token has expired.
    pub auto_refresh: bool,
}

/// How the platform writes paths: `Unix` separates components with `/`;
/// `Windows` writes `\` and also takes `/` as a separator.
#[derive(Debug, Clone, Copy, PartialEq, Eq, Structural)]
pub enum PathStyle {
    Unix,
    Windows,
}

/// The separator a path style writes.
pub open spec fn separator(style: PathStyle) -> char {
    match style {
        PathStyle::Unix => '/',
        PathStyle::Windows => '\\',
    }
}

/// Whether `c` separates path components in `style`.
pub open spec fn is_separator(style: PathStyle, c: char) -> bool {
    c == '/' || (style == PathStyle::Windows && c == '\\')
}

/// Whether `base` is a bare Windows drive such as `C:`: an ASCII letter and
/// a colon, with nothing after them.
pub open spec fn is_bare_drive(style: PathStyle, base: Seq<char>) -> bool {
    &&& style == PathStyle::Windows
    &&& base.len() == 2
    &&& (('a' <= base[0] && base[0] <= 'z') || ('A' <= base[0] && base[0] <= 'Z'))
    &&& base[1] == ':'
}

/// `base` followed by the relative component `comp`, with the style's
/// separator between them unless `base` is empty, already ends in a
/// separator, or is a bare Windows drive (as `PathBuf::join` does for a
/// relative component without `.` or `..`).
pub open spec fn path_join(style: PathStyle, base: Seq<char>, comp: Seq<char>) -> Seq<char> {
    if base.len() == 0 || is_separator(style, base.last()) || is_bare_drive(style, base) {
        base + comp
    } else {
        base.push(separator(style)) + comp
    }
}

/// The credentials file under a base directory (or under `.` when there is
/// none): `<home>/.cqlib/tianyan/credentials.json` in the Unix layout, where
/// the base is the home directory, and `<config>\cqlib\tianyan\credentials.json`
/// in the Windows layout, where the base is the roaming configuration
/// directory.
pub open spec fn credentials_file_under(style: PathStyle, base: Option<Seq<char>>) -> Seq<char> {
    let b = match base {
        Some(h) => h,
        None => "."@,
    };
    let first = match style {
        PathStyle::Unix => ".cqlib"@,
        PathStyle::Windows => "cqlib"@,
    };
    path_join(style, path_join(style, path_join(style, b, first), "tianyan"@), "credentials.json"@)
}

/// The production configuration, with the credentials file under `base`.
pub open spec fn default_config_under(
    style: PathStyle,
    base: Option<Seq<char>>,
    c: TianyanConfig,
) -> bool {
    &&& c.scheme@ == "https"@
    &&& c.domain@ == "qc.zdxlz.com"@
    &&& c.credentials_path@ == credentials_file_under(style, base)
    &&& c.save_credentials
    &&& c.auto_refresh
}

/// `std::path::MAIN_SEPARATOR`: the separator of path components on the
/// platform this runs on, which std documents as `/` on Unix and `\` on
/// Windows.  Claimed: it is one of these two.
#[verifier::external_body]
fn main_separator() -> (c: char)
    ensures
        c == '/' || c == '\\',
{
    std::path::MAIN_SEPARATOR
}

/// The path style of the platform this runs on.
pub fn platform_path_style() -> (style: PathStyle) {
    if main_separator() == '\\' {
        PathStyle::Windows
    } else {
        PathStyle::Unix
    }
}

/// The current user's home directory (`dirs::home_dir`), as text.
///
/// It depends on the environment, so nothing is claimed of it.
#[verifier::external_body]
fn home_directory() -> (home: Option<String>) {
    dirs::home_dir().map(|p| p.to_string_lossy().into_owned())
}

/// The current user's configuration directory (`dirs::config_dir`; the
/// roaming application data folder on Windows), as text.
///
/// It depends on the environment, so nothing is claimed of it.
#[verifier::external_body]
fn config_directory() -> (dir: Option<String>) {
    dirs::config_dir().map(|p| p.to_string_lossy().into_owned())
}

/// Join the relative component `comp` onto `base`.
pub fn join_path(style: PathStyle, base: &str, comp: &str) -> (p: String)
    ensures
        p@ == path_join(style, base@, comp@),
{
    let mut b = String::from_str(base);
    let n = base.unicode_len();
    if n > 0 {
        let last = base.get_char(n - 1);
        let ends_in_separator = last == '/' || (style == PathStyle::Windows && last == '\\');
        let bare_drive = if style == PathStyle::Windows && n == 2 {
            let d = base.get_char(0);
            (('a' <= d && d <= 'z') || ('A' <= d && d <= 'Z')) && last == ':'
        } else {
            false
        };
        if !ends_in_separator && !bare_drive {
            match style {
                PathStyle::Unix => push_char(&mut b, '/'),
                PathStyle::Windows => push_char(&mut b, '\\'),
            }
        }
    }
    b.append(comp);
    b
}

/// The credentials file path in `style` for a given base directory.
pub fn credentials_path_under(style: PathStyle, base: Option<String>) -> (p: String)
    ensures
        p@ == credentials_file_under(style, opt_text(base)),
{
    let b = match base {
        Some(h) => h,
        None => String::from_str("."),
    };
    let first = match style {
        PathStyle::Unix => ".cqlib",
        PathStyle::Windows => "cqlib",
    };
    let a = join_path(style, b.as_str(), first);
    let c = join_path(style, a.as_str(), "tianyan");
    join_path(style, c.as_str(), "credentials.json")
}

impl TianyanConfig {
    /// The production configuration with its credentials file in `style`
    /// under `base`.
    pub fn production_under(style: PathStyle, base: Option<String>) -> (c: Self)
        ensures
            default_config_under(style, opt_text(base), c),
    {
        TianyanConfig {
            scheme: String::from_str("https"),
            domain: String::from_str("qc.zdxlz.com"),
            credentials_path: credentials_path_under(style, base),
            save_credentials: true,
            auto_refresh: true,
        }
    }

    /// A config pointing to a custom domain (same credentials path as the default).
    pub fn custom(domain: &str) -> (c: Self)
        ensures
            exists|style: PathStyle, base: Option<Seq<char>>|
                c.credentials_path@ == credentials_file_under(style, base),
            c.domain@ == domain@,
            c.scheme@ == "https"@,
            c.save_credentials,
            c.auto_refresh,
    {
        let base = Self::default();
        TianyanConfig { domain: String::from_str(domain), ..base }
    }

    /// Set whether credentials are saved to disk after login/refresh (default: `true`).
    pub fn with_save_credentials(self, save: bool) -> (c: Self)
        ensures
            c == (TianyanConfig { save_credentials: save, ..self }),
    {
        TianyanConfig { save_credentials: save, ..self }
    }

    /// Set whether an expired token triggers an automatic re-login (default: `true`).
    pub fn with_auto_refresh(self, auto_refresh: bool) -> (c: Self)
        ensures
            c == (TianyanConfig { auto_refresh: auto_refresh, ..self }),
    {
        TianyanConfig { auto_refresh: auto_refresh, ..self }
    }

    /// Override the credentials file path.
    pub fn with_credentials_path(self, path: &str) -> (c: Self)
        ensures
            c.credentials_path@ == path@,
            c.scheme == self.scheme,
            c.domain == self.domain,
            c.save_credentials == self.save_credentials,
            c.auto_refresh == self.auto_refresh,
    {
        TianyanConfig { credentials_path: String::from_str(path), ..self }
    }

    /// A configuration from optional settings, as the C and Python
    /// interfaces take them: the default (or a custom domain), then each
    /// setting that is given.
    pub fn from_options(
        domain: Option<&str>,
        save_credentials: Option<bool>,
        auto_refresh: Option<bool>,
        credentials_path: Option<&str>,
    ) -> (c: Self)
        ensures
            c.scheme@ == "https"@,
            c.domain@ == (match domain {
                Some(d) => d@,
                None => "qc.zdxlz.com"@,
            }),
            c.save_credentials == (match save_credentials {
                Some(v) => v,
                None => true,
            }),
            c.auto_refresh == (match auto_refresh {
                Some(v) => v,
                None => true,
            }),
            match credentials_path {
                Some(p) => c.credentials_path@ == p@,
                None => exists|style: PathStyle, base: Option<Seq<char>>|
                    c.credentials_path@ == credentials_file_under(style, base),
            },
    {
        let mut c = match domain {
            Some(d) => Self::custom(d),
            None => Self::default(),
        };
        if let Some(v) = save_credentials {
            c = c.with_save_credentials(v);
        }
        if let Some(v) = auto_refresh {
            c = c.with_auto_refresh(v);
        }
        if let Some(p) = credentials_path {
            c = c.with_credentials_path(p);
        }
        c
    }

    /// The full base URL, e.g. `"https://qc.zdxlz.com"`.
    pub fn base_url(&self) -> (url: String)
        ensures
            url@ == self.scheme@ + "://"@ + self.domain@,
    {
        let head = concat(self.scheme.as_str(), "://");
        concat(head.as_str(), self.domain.as_str())
    }
}

impl Default for TianyanConfig {
    /// The production configuration: `https://qc.zdxlz.com`, credentials
    /// saved under the home directory (under the roaming configuration
    /// directory on Windows), automatic re-login on expiry.
    fn default() -> (c: Self)
        ensures
            exists|style: PathStyle, base: Option<Seq<char>>| default_config_under(style, base, c),
    {
        let style = platform_path_style();
        let base = match style {
            PathStyle::Unix => home_directory(),
            PathStyle::Windows => config_directory(),
        };
        let ghost b = opt_text(base);
        let c = Self::production_under(style, base);
        assert(default_config_under(style, b, c));
        c
    }
}

} // verus!
