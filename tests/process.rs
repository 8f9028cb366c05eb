use cursor_pool::process::{check_quiescence, is_windows, KillAction, Platform, ProcessManager, Quiescence};

#[test]
fn test_process_test_pattern_matching() {
    let manager = ProcessManager::new();

    assert!(manager.match_pattern("cursor", "cursor"));
    assert!(manager.match_pattern("cursor.exe", "*cursor*"));
    assert!(manager.match_pattern("cursor process", "*cursor*"));
    assert!(manager.match_pattern("cursor.exe", "cursor*"));
    assert!(!manager.match_pattern("other process", "*cursor*"));
}

#[test]
fn process_test_pattern_matching() {
    let manager = ProcessManager::new();

    assert!(manager.match_pattern("cursor", "cursor"));
    assert!(manager.match_pattern("cursor.exe", "*cursor*"));
    assert!(manager.match_pattern("cursor process", "*cursor*"));
    assert!(manager.match_pattern("cursor.exe", "cursor*"));
    assert!(!manager.match_pattern("other process", "*cursor*"));
}

#[test]
fn suffix_pattern_matches_line_end() {
    let manager = ProcessManager::new();
    assert!(manager.match_pattern("my-cursor", "*cursor"));
    assert!(!manager.match_pattern("cursor-x", "*cursor"));
    assert!(!manager.match_pattern("cursor.exe", "cursor"));
}

#[test]
fn linux_listing_yields_target_pids() {
    let pm = ProcessManager::for_platform(Platform::Linux);
    let listing = "  PID TTY          TIME CMD\n 1234 ?        00:00:01 cursor\n 2222 ?        00:00:00 bash\n 3333 ?        00:00:00 cursor-pool\n 4444 ?        00:00:02 Cursor --type=gpu\n";
    let pids = pm.parse_process_list(listing);
    assert_eq!(pids, vec!["1234".to_string(), "4444".to_string()]);
    assert!(pm.is_cursor_running(listing));
}

#[test]
fn windows_listing_yields_second_field() {
    let pm = ProcessManager::for_platform(Platform::Windows);
    let listing = "\"Cursor.exe\",\"5120\",\"Console\",\"1\",\"120,000 K\"\r\n\"explorer.exe\",\"77\",\"Console\",\"1\",\"9 K\"\r\n";
    let pids = pm.parse_process_list(listing);
    assert_eq!(pids, vec!["5120".to_string()]);
    assert_eq!(pm.extract_pid("\"a\",\"\"\"42\"\"\""), Some("42".to_string()));
    assert_eq!(pm.extract_pid("no comma here"), None);
}

#[test]
fn empty_listing_has_no_target() {
    let pm = ProcessManager::for_platform(Platform::MacOs);
    assert!(!pm.is_cursor_running(""));
    assert!(pm.parse_process_list("   \n\n").is_empty());
}

#[test]
fn unknown_platform_finds_no_pid() {
    let pm = ProcessManager::new();
    assert!(!pm.is_cursor_running("1 cursor\n"));
}

#[test]
fn own_instances_are_counted() {
    let pm = ProcessManager::for_platform(Platform::Linux);
    let one = "10 cursor-pool\n11 bash\n";
    let two = "10 cursor-pool\n12 Cursor-Pool --flag\n";
    assert_eq!(pm.parse_cursor_pool_processes(two), vec!["10".to_string(), "12".to_string()]);
    assert!(!pm.is_other_cursor_pool_running(one));
    assert!(pm.is_other_cursor_pool_running(two));
}

#[test]
fn kill_rounds_are_bounded() {
    let pm = ProcessManager::for_platform(Platform::Linux);
    let running = "77 cursor\n";
    match pm.next_kill_action(0, running) {
        KillAction::Kill(p) => assert_eq!(p, vec!["77".to_string()]),
        other => panic!("unexpected {:?}", other),
    }
    assert!(matches!(pm.next_kill_action(1, running), KillAction::Kill(_)));
    assert!(matches!(pm.next_kill_action(2, running), KillAction::GiveUp));
    assert!(matches!(pm.next_kill_action(2, "1 bash\n"), KillAction::Done));
}

#[test]
fn quiescence_rules() {
    assert_eq!(check_quiescence(false, false), Quiescence::Proceed);
    assert_eq!(check_quiescence(true, false), Quiescence::Proceed);
    assert_eq!(check_quiescence(true, true), Quiescence::Terminate);
    assert_eq!(check_quiescence(false, true), Quiescence::Refuse);
}

#[test]
fn platform_names() {
    assert_eq!(Platform::from_os_name("windows"), Platform::Windows);
    assert_eq!(Platform::from_os_name("macos"), Platform::MacOs);
    assert_eq!(Platform::from_os_name("linux"), Platform::Linux);
    assert_eq!(Platform::from_os_name("freebsd"), Platform::Other);
    assert!(is_windows(Platform::Windows));
    assert!(!is_windows(Platform::Linux));
}
