use cursor_pool::config::{
    get_config_file_url, get_db_key, get_default_api_url, get_ping_timeout, get_request_timeout,
    get_verify_ssl, init_config, is_auth_required_url, is_public_endpoint, AppConfig,
};
use cursor_pool::paths::{is_main_js_path, main_js_under, AppPaths, EnvDirs};
use cursor_pool::process::Platform;
use cursor_pool::version::CursorVersion;

#[test]
fn defaults() {
    let c = AppConfig::default_config();
    assert!(init_config().is_ok());
    assert_eq!(get_default_api_url(&c), "http://127.0.0.1:9501");
    assert_eq!(get_config_file_url(&c), "https://cursorpool.oss-cn-guangzhou.aliyuncs.com/config.json");
    assert_eq!(get_request_timeout(&c), 10);
    assert_eq!(get_ping_timeout(&c), 5000);
    assert!(!get_verify_ssl(&c));
}

#[test]
fn public_endpoints() {
    let c = AppConfig::default_config();
    assert!(is_public_endpoint(&c, "http://h/login"));
    assert!(is_public_endpoint(&c, "https://api2.cursor.com/x"));
    assert!(!is_public_endpoint(&c, "http://h/user/info"));
    assert!(is_auth_required_url(&c, "http://h/user/info"));
    assert!(!is_auth_required_url(&c, "http://h/version"));
}

#[test]
fn db_keys() {
    let c = AppConfig::default_config();
    assert_eq!(get_db_key(&c, "token"), "user.info.token");
    assert_eq!(get_db_key(&c, "lang"), "user.info.lang");
    assert_eq!(get_db_key(&c, "cursor_main_js_path"), "system.cursor.path.mainJs");
    assert_eq!(get_db_key(&c, "current_inbound"), "system.inbound.current");
}

#[test]
fn version_from_notes() {
    assert_eq!(CursorVersion::extract_version_from_notes("Cursor v0.45.11 notes"), Some("0.45.11".to_string()));
    assert_eq!(CursorVersion::extract_version_from_notes("Version 1.2 released"), Some("1.2".to_string()));
    assert_eq!(CursorVersion::extract_version_from_notes("see v2.0"), Some("2.0".to_string()));
    assert_eq!(CursorVersion::extract_version_from_notes("Cursor vX, v3"), None);
    assert_eq!(CursorVersion::extract_version_from_notes("nothing"), None);
    assert_eq!(CursorVersion::get_version(Some("9.9".to_string()), Some("v1")), "9.9");
    assert_eq!(CursorVersion::get_version(None, Some("v1.5")), "1.5");
    assert_eq!(CursorVersion::get_version(None, None), "Unknown");
}

#[test]
fn paths_per_platform() {
    let env = EnvDirs { home: Some("/home/u".to_string()), app_data: None, local_app_data: None };
    let p = AppPaths::new(Platform::Linux, &env, "/m.js".to_string()).unwrap();
    assert_eq!(p.storage, "/home/u/.config/Cursor/User/globalStorage/storage.json");
    assert_eq!(p.db, "/home/u/.config/Cursor/User/globalStorage/state.vscdb");
    assert_eq!(p.auth, "/home/u/.config/Cursor/User/globalStorage/cursor.auth.json");
    assert_eq!(p.cursor_updater, "/home/u/.config/cursor-updater");
    assert!(AppPaths::new(Platform::Windows, &env, "x".to_string()).is_err());
    let win = EnvDirs {
        home: None,
        app_data: Some("C:\\Users\\u\\AppData\\Roaming\\".to_string()),
        local_app_data: Some("C:\\L".to_string()),
    };
    let w = AppPaths::new(Platform::Windows, &win, "x".to_string()).unwrap();
    assert_eq!(w.storage, "C:\\Users\\u\\AppData\\Roaming\\Cursor\\User\\globalStorage\\storage.json");
    assert_eq!(w.cursor_exe, "C:\\L\\Programs\\cursor\\Cursor.exe");
    assert_eq!(
        AppPaths::default_main_js(Platform::Windows, &win).unwrap(),
        "C:\\L\\Programs\\cursor\\resources\\app\\out\\main.js"
    );
}

#[test]
fn main_js_location_shape() {
    assert!(is_main_js_path("/opt/cursor/resources/app/out/main.js", '/'));
    assert!(is_main_js_path("resources/app/out/main.js", '/'));
    assert!(!is_main_js_path("/opt/cursor/xresources/app/out/main.js", '/'));
    assert!(!is_main_js_path("/opt/cursor/resources/app/main.js", '/'));
    assert!(is_main_js_path("C:\\c\\resources\\app\\out\\main.js", '\\'));
    assert_eq!(main_js_under(&"/opt/cursor".to_string(), '/'), "/opt/cursor/resources/app/out/main.js");
    assert_eq!(main_js_under(&"/opt/cursor/".to_string(), '/'), "/opt/cursor/resources/app/out/main.js");
}
