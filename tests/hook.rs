use cursor_pool::hook::{FingerprintEntry, FingerprintTable, Hook, HookError, PatchFiles, PatchStatus};

const ORIGINAL: &str = "function a(){}\nclass S{async getMachineId() { return this.x.y?? this.storage.machineId }\nasync getMacMachineId() { return this.x.y?? this.storage.macMachineId }}\n//# sourceMappingURL=abc\n";

const PATCHED: &str = "function a(){}\nclass S{async getMachineId() { return this.storage.machineId }\nasync getMacMachineId() { return this.storage.macMachineId }}\n//# sourceMappingURL=abc\n";

fn md5_hex(s: &str) -> String {
    format!("{:x}", md5::compute(s.as_bytes()))
}

#[test]
fn patch_rewrites_both_accessors() {
    let mut files = PatchFiles { main_js: ORIGINAL.to_string(), backup: None };
    let table = FingerprintTable::builtin();
    assert!(Hook::update_main_js_content(&mut files, &table).is_ok());
    assert_eq!(files.main_js, PATCHED);
    assert_eq!(files.backup.as_deref(), Some(ORIGINAL));
    assert_eq!(Hook::is_hook(&files.main_js).unwrap(), true);
    assert_eq!(Hook::is_hook(ORIGINAL).unwrap(), false);
}

#[test]
fn second_patch_keeps_backup() {
    let mut files = PatchFiles { main_js: ORIGINAL.to_string(), backup: None };
    let table = FingerprintTable::builtin();
    Hook::update_main_js_content(&mut files, &table).unwrap();
    let first_backup = files.backup.clone();
    let second = Hook::update_main_js_content(&mut files, &table);
    assert!(second.is_err());
    assert_eq!(files.backup, first_backup);
    assert_eq!(files.backup.as_deref(), Some(ORIGINAL));
    assert_eq!(files.main_js, PATCHED);
}

#[test]
fn restore_gives_back_original_bytes() {
    let mut files = PatchFiles { main_js: ORIGINAL.to_string(), backup: None };
    let table = FingerprintTable::builtin();
    Hook::update_main_js_content(&mut files, &table).unwrap();
    assert!(Hook::restore_from_backup(&mut files).is_ok());
    assert_eq!(files.main_js, ORIGINAL);
    assert!(files.backup.is_none());
    match Hook::restore_from_backup(&mut files) {
        Err(HookError::BackupMissing) => {}
        other => panic!("unexpected {:?}", other),
    }
    assert_eq!(files.main_js, ORIGINAL);
}

#[test]
fn fingerprint_ignores_volatile_trailer() {
    let base = "line one\nline two";
    let content = format!("{}\nvolatile trailer 93jf82", base);
    let mut table = FingerprintTable::builtin();
    table.add_entry(md5_hex(base), vec!["0.45.1".to_string()]);
    assert_eq!(Hook::fingerprint(&content, &table), Some(0));
    let two_lines = format!("{}\nx\ny", base);
    assert_eq!(Hook::fingerprint(&two_lines, &table), Some(0));
    let three_lines = format!("{}\nx\ny\nz", base);
    assert_eq!(Hook::fingerprint(&three_lines, &table), None);
    assert_eq!(Hook::status(&content, &table).unwrap(), PatchStatus::Patched);
}

#[test]
fn unknown_build_without_accessors_is_unsupported() {
    let mut table = FingerprintTable::builtin();
    table.add_entry("0123".to_string(), vec!["0.44.0".to_string(), "0.44.1".to_string()]);
    let mut files = PatchFiles { main_js: "nothing to see\n".to_string(), backup: None };
    assert_eq!(Hook::status(&files.main_js, &table).unwrap(), PatchStatus::Unsupported);
    match Hook::update_main_js_content(&mut files, &table) {
        Err(HookError::Unsupported(v)) => assert_eq!(v, vec!["0.44.0".to_string(), "0.44.1".to_string()]),
        other => panic!("unexpected {:?}", other),
    }
    assert_eq!(files.main_js, "nothing to see\n");
    let msg = HookError::Unsupported(vec!["0.44.0".to_string()]).message();
    assert!(msg.contains("0.44.0"));
}

#[test]
fn unknown_build_with_accessors_is_patchable() {
    let table = FingerprintTable::builtin();
    assert_eq!(Hook::status(ORIGINAL, &table).unwrap(), PatchStatus::Unpatched);
}

#[test]
fn exact_digest_with_zero_trim() {
    let mut table = FingerprintTable::builtin();
    table.add_entry(md5_hex(ORIGINAL), vec!["1.0".to_string()]);
    assert_eq!(Hook::fingerprint(ORIGINAL, &table), Some(0));
    assert_eq!(md5_hex(""), "d41d8cd98f00b204e9800998ecf8427e");
}

#[test]
fn fetched_entries_take_precedence() {
    let mut local = FingerprintTable::builtin();
    local.add_entry(md5_hex("abc"), vec!["local".to_string()]);
    let remote = vec![FingerprintEntry { hash: md5_hex("abc"), versions: vec!["remote".to_string()] }];
    let merged = local.merged_with(remote);
    assert_eq!(merged.entries.len(), 2);
    let i = merged.lookup(&md5_hex("abc")).unwrap();
    assert_eq!(merged.entries[i].versions, vec!["remote".to_string()]);
    assert_eq!(merged.known_versions(), vec!["remote".to_string(), "local".to_string()]);
    assert_eq!(merged.lookup(&"ffff".to_string()), None);
}

#[test]
fn classify_table() {
    assert_eq!(Hook::classify(1, 2, false), PatchStatus::Unpatched);
    assert_eq!(Hook::classify(0, 0, false), PatchStatus::Unsupported);
    assert_eq!(Hook::classify(0, 0, true), PatchStatus::Patched);
    assert_eq!(Hook::classify(1, 0, false), PatchStatus::Patched);
}

#[test]
fn missing_target_message_has_prefix() {
    let e = HookError::MainJsNotFound("no file".to_string());
    assert_eq!(e.message(), "MAIN_JS_NOT_FOUND:no file");
    assert_eq!(HookError::Other("x".to_string()).message(), "x");
}

#[test]
fn one_accessor_missing_is_refused_without_writing() {
    let only_one = "class S{async getMachineId() { return this.x.y?? this.storage.machineId }}\n";
    let mut files = PatchFiles { main_js: only_one.to_string(), backup: None };
    let table = FingerprintTable::builtin();
    assert_eq!(Hook::status(only_one, &table).unwrap(), PatchStatus::Patched);
    match Hook::update_main_js_content(&mut files, &table) {
        Err(HookError::NoAccessor) => {}
        other => panic!("unexpected {:?}", other),
    }
    assert_eq!(files.main_js, only_one);
    assert_eq!(files.backup.as_deref(), Some(only_one));
    assert_eq!(HookError::BackupMissing.message(), "backup file does not exist");
}
