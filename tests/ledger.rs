use cursor_pool::ledger::{
    clear_history_accounts, normalize_token, remove_history_account, save_cursor_token_to_history,
    save_history_account, save_history_record, save_history_records, sort_by_recency, HistoryAccount,
    HistoryRecord,
};
use cursor_pool::rotation::{begin_account_switch, finish_account_switch, CurrentAccount};

fn account(email: &str, last_used: i64) -> HistoryAccount {
    HistoryAccount {
        email: email.to_string(),
        token: format!("t-{}", email),
        machine_code: "m".to_string(),
        gpt4_count: 0,
        gpt35_count: 0,
        last_used,
        gpt4_max_usage: None,
        gpt35_max_usage: None,
    }
}

fn record(id: i64) -> HistoryRecord {
    HistoryRecord {
        id,
        record_type: "switch".to_string(),
        detail: String::new(),
        timestamp: String::new(),
        operator: String::new(),
    }
}

#[test]
fn token_prefix_is_stripped() {
    assert_eq!(normalize_token("user_01%3A%3Aabc.def"), "abc.def");
    assert_eq!(normalize_token("plain"), "plain");
    assert_eq!(normalize_token("a%3A%3Ab%3A%3Ac"), "b");
    assert_eq!(normalize_token("x%3A%3A"), "");
}

#[test]
fn same_account_twice_leaves_one_record() {
    let mut ledger: Vec<HistoryAccount> = Vec::new();
    let email = "a@x.io".to_string();
    save_cursor_token_to_history(&mut ledger, &email, &"u%3A%3Atok1".to_string(), &"m1".to_string(), 100);
    save_cursor_token_to_history(&mut ledger, &email, &"tok2".to_string(), &"m1".to_string(), 200);
    assert_eq!(ledger.len(), 1);
    assert_eq!(ledger[0].token, "tok2");
    assert_eq!(ledger[0].last_used, 200);
}

#[test]
fn switch_back_and_forth_keeps_two_records() {
    let mut ledger: Vec<HistoryAccount> = Vec::new();
    let a = "a@x.io".to_string();
    let b = "b@x.io".to_string();
    // The target is signed in as A; switch to B.
    let current = CurrentAccount { email: a.clone(), token: "A1".to_string(), machine_id: "dev".to_string() };
    let writes = begin_account_switch(&mut ledger, &current, &b, &"B1".to_string(), 1);
    assert_eq!(writes.len(), 5);
    assert_eq!(writes[1], ("cursor.accessToken".to_string(), "B1".to_string()));
    finish_account_switch(&mut ledger, &b, &"B1".to_string(), &"dev".to_string(), 2);
    assert_eq!(ledger.len(), 2);
    assert!(ledger.iter().any(|r| r.email == a && r.token == "A1"));
    assert!(ledger.iter().any(|r| r.email == b && r.token == "B1"));
    // Now signed in as B; switch back to A with a new token.
    let current = CurrentAccount { email: b.clone(), token: "B1".to_string(), machine_id: "dev".to_string() };
    begin_account_switch(&mut ledger, &current, &a, &"A2".to_string(), 3);
    finish_account_switch(&mut ledger, &a, &"A2".to_string(), &"dev".to_string(), 4);
    assert_eq!(ledger.len(), 2);
    let ra = ledger.iter().find(|r| r.email == a).unwrap();
    assert_eq!(ra.token, "A2");
    assert_eq!(ra.last_used, 4);
}

#[test]
fn unknown_outgoing_account_is_not_saved() {
    let mut ledger: Vec<HistoryAccount> = Vec::new();
    let current = CurrentAccount { email: String::new(), token: "t".to_string(), machine_id: "d".to_string() };
    begin_account_switch(&mut ledger, &current, &"n@x.io".to_string(), &"t".to_string(), 1);
    assert!(ledger.is_empty());
}

#[test]
fn replace_in_place_and_cap() {
    let mut ledger: Vec<HistoryAccount> = Vec::new();
    for i in 0..10 {
        save_history_account(&mut ledger, account(&format!("u{}", i), i));
    }
    assert_eq!(ledger.len(), 10);
    let mut updated = account("u3", 50);
    updated.token = "new".to_string();
    save_history_account(&mut ledger, updated);
    assert_eq!(ledger.len(), 10);
    assert_eq!(ledger[3].token, "new");
    save_history_account(&mut ledger, account("u10", 20));
    assert_eq!(ledger.len(), 10);
    assert_eq!(ledger[0].email, "u3");
    assert_eq!(ledger[1].email, "u10");
    assert!(ledger.iter().all(|r| r.email != "u0"));
    assert!(ledger.windows(2).all(|w| w[0].last_used >= w[1].last_used));
}

#[test]
fn sort_is_stable_and_descending() {
    let mut v = vec![account("a", 1), account("b", 3), account("c", 1), account("d", 2)];
    sort_by_recency(&mut v);
    let order: Vec<&str> = v.iter().map(|r| r.email.as_str()).collect();
    assert_eq!(order, vec!["b", "d", "a", "c"]);
}

#[test]
fn remove_and_clear() {
    let mut v = vec![account("a", 1), account("b", 2), account("a", 3)];
    remove_history_account(&mut v, &"a".to_string());
    assert_eq!(v.len(), 1);
    assert_eq!(v[0].email, "b");
    clear_history_accounts(&mut v);
    assert!(v.is_empty());
}

#[test]
fn audit_history_is_capped() {
    let mut h: Vec<HistoryRecord> = Vec::new();
    for i in 0..1000 {
        save_history_record(&mut h, record(i));
    }
    assert_eq!(h.len(), 1000);
    assert_eq!(h[0].id, 999);
    save_history_record(&mut h, record(1000));
    assert_eq!(h.len(), 1000);
    assert_eq!(h[0].id, 1000);
    assert_eq!(h[999].id, 1);
    save_history_records(&mut h, vec![record(2000), record(2001)]);
    assert_eq!(h.len(), 1000);
    assert_eq!(h[0].id, 2000);
    assert_eq!(h[1].id, 2001);
    assert_eq!(h[2].id, 1000);
}

#[test]
fn empty_batch_leaves_history_alone() {
    let mut h: Vec<HistoryRecord> = (0..3).map(record).collect();
    save_history_records(&mut h, Vec::new());
    assert_eq!(h.len(), 3);
    assert_eq!(h[0].id, 0);
}
