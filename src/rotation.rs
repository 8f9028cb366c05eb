use vstd::prelude::*;

use crate::identity::{fresh_telemetry, generate_new_ids, identity_pairs, is_uuid_text, pair_views, DeviceIdentity};
use crate::ledger::{
    account_updates, normalize_token, normalized_token, record_incoming_account,
    remember_outgoing_account, HistoryAccount,
};
use crate::store::{json_object_members, merge_texts, opt_text, render_json, starting_store, JsonStore, StoreError};

verus! {

/// The credentials written by a reset.
#[derive(Debug)]
pub struct AuthInfo {
    pub email: String,
    pub token: String,
}

/// What a full reset writes: the JSON store, the credentials file, and the relational store.
#[derive(Debug)]
pub struct ResetPlan {
    pub identity: DeviceIdentity,
    pub storage_json: String,
    pub auth_json: String,
    pub db_updates: Vec<(String, String)>,
}

/// The account found in the target's relational store before a switch; empty when unknown.
#[derive(Debug)]
pub struct CurrentAccount {
    pub email: String,
    pub token: String,
    pub machine_id: String,
}

/// Why a rotation or a switch stopped.
#[derive(Debug)]
pub enum RotationError {
    /// The target is running and stopping it was not asked for.
    TargetRunning,
    /// The target could not be stopped.
    Terminate(String),
    /// The JSON store could not be read or planned.
    Store(StoreError),
    /// A file could not be read or written.
    Io(String),
    /// The JSON store was written but the relational store was not.
    Inconsistency(String),
}

/// The outcome of writing both stores: the JSON store first, and the relational store only
/// after it (None when that store does not exist and was skipped).
pub fn dual_write_outcome(json: Result<(), String>, db: Option<Result<(), String>>) -> (r: Result<(), RotationError>)
    ensures
        json matches Err(m) ==> (r matches Err(RotationError::Io(e)) && e == m),
        json is Ok ==> (db matches Some(Err(m)) ==> (r matches Err(RotationError::Inconsistency(e)) && e == m)),
        json is Ok && !(db matches Some(Err(_))) ==> r is Ok,
{
    match json {
        Err(e) => Err(RotationError::Io(e)),
        Ok(()) => match db {
            Some(Err(e)) => Err(RotationError::Inconsistency(e)),
            _ => Ok(()),
        },
    }
}

impl RotationError {
    /// The message shown to the user.
    pub fn message(&self) -> (r: String)
        ensures
            self is TargetRunning ==> r@ == "the target application is running; close it first"@,
            self matches RotationError::Terminate(m) ==> r@ == "could not fully terminate the target application: "@ + m@,
            self matches RotationError::Store(StoreError::Parse(m)) ==> r@ == "cannot parse storage.json: "@ + m@,
            self matches RotationError::Store(StoreError::NotAnObject) ==> r@ == "storage.json is not a JSON object"@,
            self matches RotationError::Io(m) ==> r@ == m@,
            self matches RotationError::Inconsistency(m) ==> r@ == "storage.json was updated but the database was not: "@ + m@,
    {
        match self {
            RotationError::TargetRunning => String::from_str("the target application is running; close it first"),
            RotationError::Terminate(m) => {
                let mut s = String::from_str("could not fully terminate the target application: ");
                s.append(m.as_str());
                s
            },
            RotationError::Store(StoreError::Parse(m)) => {
                let mut s = String::from_str("cannot parse storage.json: ");
                s.append(m.as_str());
                s
            },
            RotationError::Store(StoreError::NotAnObject) => String::from_str("storage.json is not a JSON object"),
            RotationError::Io(m) => m.clone(),
            RotationError::Inconsistency(m) => {
                let mut s = String::from_str("storage.json was updated but the database was not: ");
                s.append(m.as_str());
                s
            },
        }
    }
}

/// The relational store writes of a reset: the identity, then the credentials.
pub open spec fn reset_pairs(ids: DeviceIdentity, email: Seq<char>, token: Seq<char>) -> Seq<(Seq<char>, Seq<char>)> {
    identity_pairs(ids) + seq![
        ("cursorAuth/refreshToken"@, token),
        ("cursorAuth/accessToken"@, token),
        ("cursorAuth/cachedEmail"@, email),
        ("cursor.email"@, email),
        ("cursor.accessToken"@, token),
    ]
}

/// Plans a full reset: a fresh identity written into the JSON store (None when the file does
/// not exist), the credentials file, and the relational store writes for both.
pub fn perform_reset(storage: Option<&str>, auth: AuthInfo) -> (r: Result<ResetPlan, StoreError>)
    ensures
        starting_store(opt_text(storage)) matches Some(s) ==> (r matches Ok(p) && p.storage_json@ == render_json(
            merge_texts(s, identity_pairs(p.identity)),
        ) && p.auth_json@ == render_json(
            merge_texts(Seq::empty(), seq![("email"@, auth.email@), ("access_token"@, auth.token@)]),
        )),
        storage matches Some(t) ==> (json_object_members(t@) is None ==> r matches Err(StoreError::Parse(_))),
        storage matches Some(t) ==> (json_object_members(t@) == Some(Option::<Seq<(Seq<char>, Seq<char>)>>::None)
            ==> r matches Err(StoreError::NotAnObject)),
        r matches Ok(p) ==> pair_views(p.db_updates@) == reset_pairs(p.identity, auth.email@, auth.token@)
            && is_uuid_text(p.identity.dev_device_id@) && fresh_telemetry(p.identity),
{
    let ids = generate_new_ids();
    let mut store = match storage {
        Some(text) => match JsonStore::parse(text) {
            Ok(s) => s,
            Err(e) => return Err(e),
        },
        None => JsonStore::new(),
    };
    store.apply(ids.storage_entries());
    let storage_json = store.render();
    let mut auth_store = JsonStore::new();
    let auth_pairs = vec![
        (String::from_str("email"), auth.email.clone()),
        (String::from_str("access_token"), auth.token.clone()),
    ];
    assert(pair_views(auth_pairs@) =~= seq![("email"@, auth.email@), ("access_token"@, auth.token@)]);
    auth_store.apply(auth_pairs);
    let auth_json = auth_store.render();
    let mut db_updates = ids.storage_entries();
    let ghost first = db_updates@;
    let mut creds = vec![
        (String::from_str("cursorAuth/refreshToken"), auth.token.clone()),
        (String::from_str("cursorAuth/accessToken"), auth.token.clone()),
        (String::from_str("cursorAuth/cachedEmail"), auth.email.clone()),
        (String::from_str("cursor.email"), auth.email.clone()),
        (String::from_str("cursor.accessToken"), auth.token.clone()),
    ];
    let ghost second = creds@;
    db_updates.append(&mut creds);
    assert(pair_views(first + second) =~= pair_views(first) + pair_views(second));
    assert(pair_views(db_updates@) =~= reset_pairs(ids, auth.email@, auth.token@));
    Ok(ResetPlan { identity: ids, storage_json, auth_json, db_updates })
}

/// Starts an account switch: the account being left is saved to the ledger when it is known
/// and not there yet; returns the relational store writes for the new account.
pub fn begin_account_switch(
    accounts: &mut Vec<HistoryAccount>,
    current: &CurrentAccount,
    email: &String,
    token: &String,
    now: i64,
) -> (r: Vec<(String, String)>)
    ensures
        pair_views(r@) == seq![
            ("cursor.email"@, email@),
            ("cursor.accessToken"@, normalized_token(token@)),
            ("cursorAuth/refreshToken"@, normalized_token(token@)),
            ("cursorAuth/accessToken"@, normalized_token(token@)),
            ("cursorAuth/cachedEmail"@, email@),
        ],
        ({
            let known = current.email@.len() > 0 && current.token@.len() > 0 && current.machine_id@.len() > 0;
            let fresh = crate::ledger::email_index(old(accounts)@, current.email@) is None;
            &&& !(known && fresh) ==> final(accounts)@ == old(accounts)@
            &&& known && fresh ==> final(accounts)@.drop_last() == crate::ledger::without_email(
                old(accounts)@,
                current.email@,
            ) && crate::ledger::fresh_record(
                final(accounts)@.last(),
                current.email@,
                normalized_token(current.token@),
                current.machine_id@,
                now,
            )
        }),
{
    remember_outgoing_account(accounts, &current.email, &current.token, &current.machine_id, now);
    account_updates(email, token)
}

/// Finishes an account switch: the new account is appended with the bare token and the device id
/// read back from the relational store; a known account gets the bare token and the time in its
/// first record, in place, every other record unchanged.
pub fn finish_account_switch(
    accounts: &mut Vec<HistoryAccount>,
    email: &String,
    token: &String,
    machine_id: &String,
    now: i64,
)
    ensures
        crate::ledger::email_index(old(accounts)@, email@) is None ==> final(accounts)@.len() > 0
            && final(accounts)@.drop_last() == old(accounts)@ && crate::ledger::fresh_record(
            final(accounts)@.last(),
            email@,
            normalized_token(token@),
            machine_id@,
            now,
        ),
        crate::ledger::email_index(old(accounts)@, email@) matches Some(i) ==> {
            &&& final(accounts)@.len() == old(accounts)@.len()
            &&& forall|k: int| 0 <= k < old(accounts)@.len() && k != i ==> final(accounts)@[k] == old(accounts)@[k]
            &&& final(accounts)@[i].email == old(accounts)@[i].email
            &&& final(accounts)@[i].token@ == normalized_token(token@)
            &&& final(accounts)@[i].last_used == now
            &&& final(accounts)@[i].machine_code == old(accounts)@[i].machine_code
            &&& final(accounts)@[i].gpt4_count == old(accounts)@[i].gpt4_count
            &&& final(accounts)@[i].gpt35_count == old(accounts)@[i].gpt35_count
            &&& final(accounts)@[i].gpt4_max_usage == old(accounts)@[i].gpt4_max_usage
            &&& final(accounts)@[i].gpt35_max_usage == old(accounts)@[i].gpt35_max_usage
        },
{
    let processed = normalize_token(token.as_str());
    record_incoming_account(accounts, email, &processed, machine_id, now);
}

} // verus!
