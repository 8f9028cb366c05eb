use vstd::prelude::*;

use crate::text::{chars_of, contains_chars, seq_contains};

verus! {

/// Settings of the backend API.
#[derive(Debug)]
pub struct ApiConfig {
    pub default_api_url: String,
    pub config_file_url: String,
    pub cursor_user_id: String,
    /// Endpoints that need no authentication.
    pub public_endpoints: Vec<String>,
    /// Request timeout, in seconds.
    pub request_timeout: u64,
    pub verify_ssl: bool,
}

/// Default install locations of the target, per operating system.
#[derive(Debug)]
pub struct PathConfig {
    pub windows: WindowsPaths,
    pub macos: MacOSPaths,
    pub linux: LinuxPaths,
}

#[derive(Debug)]
pub struct WindowsPaths {
    pub cursor_exe: String,
    pub cursor_updater: String,
}

#[derive(Debug)]
pub struct MacOSPaths {
    pub cursor_app: String,
    pub cursor_resources: String,
    pub cursor_updater: String,
}

#[derive(Debug)]
pub struct LinuxPaths {
    pub cursor_exe: String,
    pub cursor_resources: String,
    pub cursor_updater: String,
}

/// Keys under which this tool keeps its own settings.
#[derive(Debug)]
pub struct DbKeyConfig {
    pub inbound_config_key: String,
    pub current_inbound_key: String,
    pub cursor_main_js_path_key: String,
    pub token_key: String,
    pub lang_key: String,
    pub dashboard_refresh_interval_key: String,
    pub account_limit_check_interval_key: String,
    pub account_usage_threshold_key: String,
}

#[derive(Debug)]
pub struct TimeoutConfig {
    /// Latency probe timeout, in milliseconds.
    pub ping_timeout_ms: u64,
    /// Request timeout, in seconds.
    pub request_timeout_secs: u64,
}

/// The tool's configuration, built once at startup and passed to what needs it.
#[derive(Debug)]
pub struct AppConfig {
    pub api: ApiConfig,
    pub paths: PathConfig,
    pub db_keys: DbKeyConfig,
    pub timeouts: TimeoutConfig,
}

/// The logical names that `get_db_key` knows.
pub open spec fn is_db_key_name(name: Seq<char>) -> bool {
    name == "dashboard_refresh_interval"@ || name == "account_limit_check_interval"@ || name
        == "account_usage_threshold"@ || name == "inbound_config"@ || name == "current_inbound"@
        || name == "cursor_main_js_path"@ || name == "token"@ || name == "lang"@
}

pub open spec fn db_key_for(c: DbKeyConfig, name: Seq<char>) -> Seq<char> {
    if name == "dashboard_refresh_interval"@ {
        c.dashboard_refresh_interval_key@
    } else if name == "account_limit_check_interval"@ {
        c.account_limit_check_interval_key@
    } else if name == "account_usage_threshold"@ {
        c.account_usage_threshold_key@
    } else if name == "inbound_config"@ {
        c.inbound_config_key@
    } else if name == "current_inbound"@ {
        c.current_inbound_key@
    } else if name == "cursor_main_js_path"@ {
        c.cursor_main_js_path_key@
    } else if name == "token"@ {
        c.token_key@
    } else {
        c.lang_key@
    }
}

/// A URL needs no authentication when it is on the target vendor's domain or names one of the
/// public endpoints.
pub open spec fn public_url(c: ApiConfig, url: Seq<char>) -> bool {
    seq_contains(url, "cursor.com"@) || exists|i: int|
        0 <= i < c.public_endpoints@.len() && seq_contains(url, #[trigger] c.public_endpoints@[i]@)
}

fn s(text: &str) -> (r: String)
    ensures
        r@ == text@,
{
    String::from_str(text)
}

fn same_name(a: &Vec<char>, b: &str) -> (r: bool)
    ensures
        r == (a@ == b@),
{
    let bv = chars_of(b);
    assert(bv@ == b@);
    if a.len() != bv.len() {
        assert(a@.len() != b@.len());
        return false;
    }
    let mut i: usize = 0;
    while i < a.len()
        invariant
            a.len() == bv.len(),
            bv@ == b@,
            i <= a.len(),
            forall|k: int| 0 <= k < i ==> a@[k] == bv@[k],
        decreases a.len() - i,
    {
        if a[i] != bv[i] {
            assert(a@[i as int] != bv@[i as int]);
            return false;
        }
        i = i + 1;
    }
    assert(a@ =~= bv@);
    true
}

impl AppConfig {
    /// The built-in configuration.
    pub fn default_config() -> (r: AppConfig)
        ensures
            r.api.request_timeout == 10,
            !r.api.verify_ssl,
            r.api.public_endpoints@.len() == 10,
            r.timeouts.ping_timeout_ms == 5000,
            r.timeouts.request_timeout_secs == 10,
            r.api.default_api_url@ == "http://127.0.0.1:9501"@,
            r.db_keys.token_key@ == "user.info.token"@,
            r.db_keys.lang_key@ == "user.info.lang"@,
            r.db_keys.cursor_main_js_path_key@ == "system.cursor.path.mainJs"@,
    {
        AppConfig {
            api: ApiConfig {
                default_api_url: s("http://127.0.0.1:9501"),
                config_file_url: s("https://cursorpool.oss-cn-guangzhou.aliyuncs.com/config.json"),
                cursor_user_id: s("user_01000000000000000000000000"),
                public_endpoints: vec![
                    s("/login"),
                    s("/register"),
                    s("/emailRegister"),
                    s("/checkUser"),
                    s("/register/sendEmailCode"),
                    s("/emailResetPassword"),
                    s("/version"),
                    s("/public/info"),
                    s("/disclaimer"),
                    s("/api/usage"),
                ],
                request_timeout: 10,
                verify_ssl: false,
            },
            paths: PathConfig {
                windows: WindowsPaths {
                    cursor_exe: s("%LOCALAPPDATA%\\Programs\\cursor\\Cursor.exe"),
                    cursor_updater: s("%LOCALAPPDATA%\\cursor-updater"),
                },
                macos: MacOSPaths {
                    cursor_app: s("/Applications/Cursor.app/Contents/MacOS/Cursor"),
                    cursor_resources: s("/Applications/Cursor.app/Contents/Resources/app/out/main.js"),
                    cursor_updater: s("~/Library/Application Support/cursor-updater"),
                },
                linux: LinuxPaths {
                    cursor_exe: s("/usr/bin/cursor"),
                    cursor_resources: s("/usr/lib/cursor/resources/app/out/main.js"),
                    cursor_updater: s("~/.config/cursor-updater"),
                },
            },
            db_keys: DbKeyConfig {
                inbound_config_key: s("system.inbound.config"),
                current_inbound_key: s("system.inbound.current"),
                cursor_main_js_path_key: s("system.cursor.path.mainJs"),
                token_key: s("user.info.token"),
                lang_key: s("user.info.lang"),
                dashboard_refresh_interval_key: s("system.scheduler.dashboard_refresh_interval"),
                account_limit_check_interval_key: s("system.scheduler.account_limit_check_interval"),
                account_usage_threshold_key: s("system.scheduler.account_usage_threshold"),
            },
            timeouts: TimeoutConfig { ping_timeout_ms: 5000, request_timeout_secs: 10 },
        }
    }
}

/// Prepares the configuration; nothing can fail.
pub fn init_config() -> (r: Result<(), String>)
    ensures
        r is Ok,
{
    Ok(())
}

pub fn get_default_api_url(config: &AppConfig) -> (r: String)
    ensures
        r@ == config.api.default_api_url@,
{
    config.api.default_api_url.clone()
}

pub fn get_config_file_url(config: &AppConfig) -> (r: String)
    ensures
        r@ == config.api.config_file_url@,
{
    config.api.config_file_url.clone()
}

/// The request timeout, in seconds.
pub fn get_request_timeout(config: &AppConfig) -> (r: u64)
    ensures
        r == config.timeouts.request_timeout_secs,
{
    config.timeouts.request_timeout_secs
}

/// The latency probe timeout, in milliseconds.
pub fn get_ping_timeout(config: &AppConfig) -> (r: u64)
    ensures
        r == config.timeouts.ping_timeout_ms,
{
    config.timeouts.ping_timeout_ms
}

pub fn get_verify_ssl(config: &AppConfig) -> (r: bool)
    ensures
        r == config.api.verify_ssl,
{
    config.api.verify_ssl
}

/// Whether a URL needs no authentication.
pub fn is_public_endpoint(config: &AppConfig, url: &str) -> (r: bool)
    ensures
        r == public_url(config.api, url@),
{
    let u = chars_of(url);
    if contains_chars(&u, &chars_of("cursor.com")) {
        return true;
    }
    let eps = &config.api.public_endpoints;
    let mut i: usize = 0;
    while i < eps.len()
        invariant
            i <= eps.len(),
            eps@ == config.api.public_endpoints@,
            u@ == url@,
            !seq_contains(url@, "cursor.com"@),
            forall|k: int| 0 <= k < i ==> !seq_contains(url@, #[trigger] eps@[k]@),
        decreases eps.len() - i,
    {
        let e = chars_of(eps[i].as_str());
        if contains_chars(&u, &e) {
            assert(e@ == eps@[i as int]@);
            assert(seq_contains(url@, eps@[i as int]@));
            return true;
        }
        i = i + 1;
    }
    false
}

/// Whether a URL needs authentication.
pub fn is_auth_required_url(config: &AppConfig, url: &str) -> (r: bool)
    ensures
        r == !public_url(config.api, url@),
{
    !is_public_endpoint(config, url)
}

/// The settings key for a logical name.
pub fn get_db_key(config: &AppConfig, key_name: &str) -> (r: String)
    requires
        is_db_key_name(key_name@),
    ensures
        r@ == db_key_for(config.db_keys, key_name@),
{
    let n = chars_of(key_name);
    let k = &config.db_keys;
    if same_name(&n, "dashboard_refresh_interval") {
        k.dashboard_refresh_interval_key.clone()
    } else if same_name(&n, "account_limit_check_interval") {
        k.account_limit_check_interval_key.clone()
    } else if same_name(&n, "account_usage_threshold") {
        k.account_usage_threshold_key.clone()
    } else if same_name(&n, "inbound_config") {
        k.inbound_config_key.clone()
    } else if same_name(&n, "current_inbound") {
        k.current_inbound_key.clone()
    } else if same_name(&n, "cursor_main_js_path") {
        k.cursor_main_js_path_key.clone()
    } else if same_name(&n, "token") {
        k.token_key.clone()
    } else {
        k.lang_key.clone()
    }
}

} // verus!
