use vstd::prelude::*;

use crate::text::{chars_of, find_chars, find_first, slice_chars, string_of};

verus! {

/// The separator that a user-id prefix of a token ends with.
pub const TOKEN_SEPARATOR: &'static str = "%3A%3A";

/// The most account records the ledger keeps when capped.
pub const MAX_HISTORY_ACCOUNTS: usize = 10;

/// The most audit records kept.
pub const MAX_HISTORY_RECORDS: usize = 1000;

/// One audit entry of the operation history.
#[derive(Debug)]
pub struct HistoryRecord {
    pub id: i64,
    pub record_type: String,
    pub detail: String,
    pub timestamp: String,
    pub operator: String,
}

/// One account of the rotation ledger.
#[derive(Debug)]
pub struct HistoryAccount {
    pub email: String,
    pub token: String,
    pub machine_code: String,
    pub gpt4_count: i32,
    pub gpt35_count: i32,
    pub last_used: i64,
    pub gpt4_max_usage: Option<i32>,
    pub gpt35_max_usage: Option<i32>,
}

/// The bare token: a token holding the separator keeps the part after its first separator, up
/// to the next one; any other token stays as it is.
pub open spec fn normalized_token(t: Seq<char>) -> Seq<char> {
    match find_first(t, TOKEN_SEPARATOR@) {
        Some(i) => {
            let rest = t.subrange(i + TOKEN_SEPARATOR@.len(), t.len() as int);
            match find_first(rest, TOKEN_SEPARATOR@) {
                Some(j) => rest.subrange(0, j),
                None => rest,
            }
        },
        None => t,
    }
}

/// The ledger without the records of `email`, order kept.
pub open spec fn without_email(s: Seq<HistoryAccount>, email: Seq<char>) -> Seq<HistoryAccount>
    decreases s.len(),
{
    if s.len() == 0 {
        s
    } else if s.last().email@ == email {
        without_email(s.drop_last(), email)
    } else {
        without_email(s.drop_last(), email).push(s.last())
    }
}

/// How many records of `email` the ledger holds.
pub open spec fn email_count(s: Seq<HistoryAccount>, email: Seq<char>) -> nat
    decreases s.len(),
{
    if s.len() == 0 {
        0
    } else {
        email_count(s.drop_last(), email) + if s.last().email@ == email {
            1nat
        } else {
            0nat
        }
    }
}

pub open spec fn has_email(s: Seq<HistoryAccount>, email: Seq<char>) -> bool {
    exists|i: int| 0 <= i < s.len() && #[trigger] s[i].email@ == email
}

/// The position of the first record of `email`.
pub open spec fn email_index(s: Seq<HistoryAccount>, email: Seq<char>) -> Option<int>
    decreases s.len(),
{
    if s.len() == 0 {
        None
    } else {
        match email_index(s.drop_last(), email) {
            Some(i) => Some(i),
            None => if s.last().email@ == email {
                Some(s.len() - 1)
            } else {
                None
            },
        }
    }
}

/// A record of `email` with `token`, `machine_code` and `now`, and no usage yet.
pub open spec fn fresh_record(a: HistoryAccount, email: Seq<char>, token: Seq<char>, machine_code: Seq<char>, now: i64) -> bool {
    &&& a.email@ == email
    &&& a.token@ == token
    &&& a.machine_code@ == machine_code
    &&& a.gpt4_count == 0
    &&& a.gpt35_count == 0
    &&& a.last_used == now
    &&& a.gpt4_max_usage is None
    &&& a.gpt35_max_usage is None
}

/// Ordered from the most recently used to the least.
pub open spec fn by_recency(s: Seq<HistoryAccount>) -> bool {
    forall|i: int, j: int| 0 <= i < j < s.len() ==> s[i].last_used >= s[j].last_used
}

/// The ledger with `a` written: the first record of the same email is replaced in place, or
/// `a` goes last.
pub open spec fn replaced_or_pushed(s: Seq<HistoryAccount>, a: HistoryAccount) -> Seq<HistoryAccount> {
    match email_index(s, a.email@) {
        Some(i) => s.update(i, a),
        None => s.push(a),
    }
}

/// The token with any user-id prefix removed.
pub fn normalize_token(token: &str) -> (r: String)
    ensures
        r@ == normalized_token(token@),
{
    let t = chars_of(token);
    let sep = chars_of(TOKEN_SEPARATOR);
    match find_chars(&t, &sep) {
        Some(i) => {
            assert(crate::text::occurs_at(t@, sep@, i as int));
            let total = t.len();
            assert(i + sep@.len() <= total);
            let start = i + sep.len();
            let rest = slice_chars(&t, start, total);
            match find_chars(&rest, &sep) {
                Some(j) => string_of(&slice_chars(&rest, 0, j)),
                None => string_of(&rest),
            }
        },
        None => string_of(&t),
    }
}

/// Whether the ledger holds a record of `email`.
pub fn has_account(accounts: &Vec<HistoryAccount>, email: &String) -> (r: bool)
    ensures
        r == (email_index(accounts@, email@) is Some),
{
    match find_account(accounts, email) {
        Some(i) => true,
        None => false,
    }
}

/// The position of the first record of `email`.
pub fn find_account(accounts: &Vec<HistoryAccount>, email: &String) -> (r: Option<usize>)
    ensures
        r matches Some(i) ==> email_index(accounts@, email@) == Some(i as int),
        r matches Some(i) ==> i < accounts@.len() && accounts@[i as int].email@ == email@,
        r is None ==> email_index(accounts@, email@) is None,
{
    let mut i: usize = 0;
    while i < accounts.len()
        invariant
            i <= accounts.len(),
            email_index(accounts@.take(i as int), email@) is None,
        decreases accounts.len() - i,
    {
        assert(accounts@.take(i + 1).drop_last() =~= accounts@.take(i as int));
        if accounts[i].email == *email {
            proof {
                lemma_email_index_grow(accounts@, email@, i as int + 1, i as int);
            }
            return Some(i);
        }
        i = i + 1;
    }
    assert(accounts@.take(i as int) =~= accounts@);
    None
}

proof fn lemma_email_index_grow(s: Seq<HistoryAccount>, email: Seq<char>, k: int, i: int)
    requires
        0 < k <= s.len(),
        email_index(s.take(k), email) == Some(i),
    ensures
        email_index(s, email) == Some(i),
    decreases s.len() - k,
{
    if k < s.len() {
        assert(s.take(k + 1).drop_last() =~= s.take(k));
        lemma_email_index_grow(s, email, k + 1, i);
    } else {
        assert(s.take(k) =~= s);
    }
}

proof fn lemma_without_email_count(s: Seq<HistoryAccount>, email: Seq<char>)
    ensures
        email_count(without_email(s, email), email) == 0,
    decreases s.len(),
{
    if s.len() > 0 {
        lemma_without_email_count(s.drop_last(), email);
        let w = without_email(s.drop_last(), email);
        if s.last().email@ != email {
            assert(w.push(s.last()).drop_last() =~= w);
        }
    }
}

/// Removes every record of `email`, keeping the order of the others.
pub fn remove_history_account(accounts: &mut Vec<HistoryAccount>, email: &String)
    ensures
        final(accounts)@ == without_email(old(accounts)@, email@),
{
    let mut kept: Vec<HistoryAccount> = Vec::new();
    let ghost all = old(accounts)@;
    let ghost mut seen: Seq<HistoryAccount> = Seq::empty();
    while accounts.len() > 0
        invariant
            all == seen + accounts@,
            kept@ == without_email(seen, email@),
        decreases accounts.len(),
    {
        let ghost before = accounts@;
        let a = accounts.remove(0);
        assert(before =~= seq![a] + accounts@);
        let ghost prev = seen;
        proof {
            seen = seen.push(a);
        }
        assert(seen.drop_last() =~= prev);
        if a.email != *email {
            kept.push(a);
        }
        assert(all =~= seen + accounts@);
    }
    assert(seen =~= all);
    *accounts = kept;
}

/// Empties the ledger.
pub fn clear_history_accounts(accounts: &mut Vec<HistoryAccount>)
    ensures
        final(accounts)@.len() == 0,
{
    accounts.clear();
}

/// Records a token for `email`, stamped `now`: earlier records of the email are dropped, and
/// the new record, with the bare token and no usage, goes last.
pub fn save_cursor_token_to_history(
    accounts: &mut Vec<HistoryAccount>,
    email: &String,
    token: &String,
    machine_id: &String,
    now: i64,
)
    ensures
        final(accounts)@.len() == without_email(old(accounts)@, email@).len() + 1,
        final(accounts)@.drop_last() == without_email(old(accounts)@, email@),
        fresh_record(final(accounts)@.last(), email@, normalized_token(token@), machine_id@, now),
{
    let processed = normalize_token(token.as_str());
    remove_history_account(accounts, email);
    accounts.push(
        HistoryAccount {
            email: email.clone(),
            token: processed,
            machine_code: machine_id.clone(),
            gpt4_count: 0,
            gpt35_count: 0,
            last_used: now,
            gpt4_max_usage: None,
            gpt35_max_usage: None,
        },
    );
    assert(accounts@.drop_last() =~= without_email(old(accounts)@, email@));
}

/// Saving two tokens for one account, one after the other, leaves exactly one record of it:
/// the later one, with its token and time.
pub proof fn lemma_upsert_dedup(
    s0: Seq<HistoryAccount>,
    s1: Seq<HistoryAccount>,
    s2: Seq<HistoryAccount>,
    email: Seq<char>,
    token: Seq<char>,
    machine_code: Seq<char>,
    now: i64,
)
    requires
        s1.len() > 0,
        s1.drop_last() == without_email(s0, email),
        s1.last().email@ == email,
        s2.len() > 0,
        s2.drop_last() == without_email(s1, email),
        fresh_record(s2.last(), email, normalized_token(token), machine_code, now),
    ensures
        email_count(s2, email) == 1,
        email_index(s2, email) == Some(s2.len() - 1),
        s2.last().token@ == normalized_token(token),
        s2.last().last_used == now,
        s0.len() == 0 ==> s2.len() == 1,
{
    lemma_without_email_count(s1, email);
    lemma_without_email_none(s1, email);
    assert(s2.drop_last() =~= without_email(s1, email));
    if s0.len() == 0 {
        assert(without_email(s0, email) == s0);
        assert(s1.drop_last().len() == 0);
        assert(s1 =~= seq![s1.last()]);
        assert(s1.drop_last() =~= Seq::<HistoryAccount>::empty());
        assert(without_email(s1, email) == without_email(s1.drop_last(), email));
    }
}

proof fn lemma_without_email_none(s: Seq<HistoryAccount>, email: Seq<char>)
    ensures
        email_index(without_email(s, email), email) is None,
    decreases s.len(),
{
    if s.len() > 0 {
        lemma_without_email_none(s.drop_last(), email);
        let w = without_email(s.drop_last(), email);
        if s.last().email@ != email {
            assert(w.push(s.last()).drop_last() =~= w);
        }
    }
}

/// Writes `account`: the first record of the same email is replaced in place, else it goes
/// last; then, past the cap, the most recently used records are kept, newest first.
pub fn save_history_account(accounts: &mut Vec<HistoryAccount>, account: HistoryAccount)
    ensures
        ({
            let w = replaced_or_pushed(old(accounts)@, account);
            &&& w.len() <= MAX_HISTORY_ACCOUNTS ==> final(accounts)@ == w
            &&& w.len() > MAX_HISTORY_ACCOUNTS ==> {
                &&& final(accounts)@.len() == MAX_HISTORY_ACCOUNTS
                &&& by_recency(final(accounts)@)
                &&& exists|sorted: Seq<HistoryAccount>|
                    sorted.to_multiset() == w.to_multiset() && by_recency(sorted) && final(accounts)@
                        == #[trigger] sorted.take(MAX_HISTORY_ACCOUNTS as int)
            }
        }),
{
    match find_account(accounts, &account.email) {
        Some(i) => {
            accounts.set(i, account);
        },
        None => {
            accounts.push(account);
        },
    }
    if accounts.len() > MAX_HISTORY_ACCOUNTS {
        sort_by_recency(accounts);
        let ghost sorted = accounts@;
        accounts.truncate(MAX_HISTORY_ACCOUNTS);
        assert(accounts@ =~= sorted.take(MAX_HISTORY_ACCOUNTS as int));
    }
}

/// Sorts the records from the most recently used to the least; records used at the same time
/// keep their order.
pub fn sort_by_recency(accounts: &mut Vec<HistoryAccount>)
    ensures
        final(accounts)@.to_multiset() == old(accounts)@.to_multiset(),
        final(accounts)@.len() == old(accounts)@.len(),
        by_recency(final(accounts)@),
{
    broadcast use vstd::seq_lib::group_to_multiset_ensures;

    let ghost all = old(accounts)@;
    let ghost mut seen: Seq<HistoryAccount> = Seq::empty();
    let mut out: Vec<HistoryAccount> = Vec::new();
    while accounts.len() > 0
        invariant
            all == seen + accounts@,
            out@.to_multiset() == seen.to_multiset(),
            out@.len() == seen.len(),
            by_recency(out@),
        decreases accounts.len(),
    {
        let ghost before = accounts@;
        let a = accounts.remove(0);
        assert(before =~= seq![a] + accounts@);
        let ghost prev = seen;
        proof {
            seen = seen.push(a);
        }
        let mut j: usize = 0;
        while j < out.len() && out[j].last_used >= a.last_used
            invariant
                j <= out.len(),
                forall|k: int| 0 <= k < j ==> out@[k].last_used >= a.last_used,
            decreases out.len() - j,
        {
            j = j + 1;
        }
        let ghost o = out@;
        proof {
            vstd::seq_lib::to_multiset_insert(o, j as int, a);
            vstd::seq_lib::to_multiset_build(prev, a);
        }
        out.insert(j, a);
        assert forall|x: int, y: int| 0 <= x < y < out@.len() implies out@[x].last_used >= out@[y].last_used by {
            if x < j && y == j {
            } else if x == j && y > j {
                assert(out@[y] == o[y - 1]);
                if j < o.len() {
                    assert(o[j as int].last_used < a.last_used);
                    assert(o[j as int].last_used >= o[y - 1].last_used || y - 1 == j);
                }
            } else if x < j && y > j {
                assert(out@[y] == o[y - 1]);
            } else if x > j {
                assert(out@[x] == o[x - 1]);
                assert(out@[y] == o[y - 1]);
            }
        }
        assert(all =~= seen + accounts@);
    }
    assert(seen =~= all);
    *accounts = out;
}

/// Saves the account that is being left, when it is known and not in the ledger yet.
pub fn remember_outgoing_account(
    accounts: &mut Vec<HistoryAccount>,
    current_email: &String,
    current_token: &String,
    machine_id: &String,
    now: i64,
) -> (saved: bool)
    ensures
        saved == (current_email@.len() > 0 && current_token@.len() > 0 && machine_id@.len() > 0
            && email_index(old(accounts)@, current_email@) is None),
        saved ==> final(accounts)@.drop_last() == without_email(old(accounts)@, current_email@)
            && fresh_record(final(accounts)@.last(), current_email@, normalized_token(current_token@), machine_id@, now),
        !saved ==> final(accounts)@ == old(accounts)@,
{
    let known = current_email.as_str().unicode_len() > 0 && current_token.as_str().unicode_len() > 0
        && machine_id.as_str().unicode_len() > 0;
    if known && !has_account(accounts, current_email) {
        save_cursor_token_to_history(accounts, current_email, current_token, machine_id, now);
        true
    } else {
        false
    }
}

/// Records the account switched to, with its bare token: a new account is appended; a known one
/// gets the token and time in its first record, in place, all else kept.
pub fn record_incoming_account(
    accounts: &mut Vec<HistoryAccount>,
    email: &String,
    processed_token: &String,
    machine_id: &String,
    now: i64,
)
    ensures
        email_index(old(accounts)@, email@) is None ==> final(accounts)@.len() > 0
            && final(accounts)@.drop_last() == old(accounts)@ && fresh_record(
            final(accounts)@.last(),
            email@,
            processed_token@,
            machine_id@,
            now,
        ),
        email_index(old(accounts)@, email@) matches Some(i) ==> {
            &&& final(accounts)@.len() == old(accounts)@.len()
            &&& forall|k: int| 0 <= k < old(accounts)@.len() && k != i ==> final(accounts)@[k] == old(accounts)@[k]
            &&& final(accounts)@[i].email == old(accounts)@[i].email
            &&& final(accounts)@[i].token@ == processed_token@
            &&& final(accounts)@[i].last_used == now
            &&& final(accounts)@[i].machine_code == old(accounts)@[i].machine_code
            &&& final(accounts)@[i].gpt4_count == old(accounts)@[i].gpt4_count
            &&& final(accounts)@[i].gpt35_count == old(accounts)@[i].gpt35_count
            &&& final(accounts)@[i].gpt4_max_usage == old(accounts)@[i].gpt4_max_usage
            &&& final(accounts)@[i].gpt35_max_usage == old(accounts)@[i].gpt35_max_usage
        },
{
    match find_account(accounts, email) {
        Some(i) => {
            let old_account = accounts.remove(i);
            let updated = HistoryAccount {
                email: old_account.email,
                token: processed_token.clone(),
                machine_code: old_account.machine_code,
                gpt4_count: old_account.gpt4_count,
                gpt35_count: old_account.gpt35_count,
                last_used: now,
                gpt4_max_usage: old_account.gpt4_max_usage,
                gpt35_max_usage: old_account.gpt35_max_usage,
            };
            accounts.insert(i, updated);
            assert forall|k: int| 0 <= k < old(accounts)@.len() && k != i implies accounts@[k] == old(accounts)@[k] by {
            }
        },
        None => {
            accounts.push(
                HistoryAccount {
                    email: email.clone(),
                    token: processed_token.clone(),
                    machine_code: machine_id.clone(),
                    gpt4_count: 0,
                    gpt35_count: 0,
                    last_used: now,
                    gpt4_max_usage: None,
                    gpt35_max_usage: None,
                },
            );
            assert(accounts@.drop_last() =~= old(accounts)@);
        },
    }
}

/// The target's relational store writes for an account switch: the email and the bare token
/// under the five account keys.
pub fn account_updates(email: &String, token: &String) -> (r: Vec<(String, String)>)
    ensures
        crate::identity::pair_views(r@) == seq![
            ("cursor.email"@, email@),
            ("cursor.accessToken"@, normalized_token(token@)),
            ("cursorAuth/refreshToken"@, normalized_token(token@)),
            ("cursorAuth/accessToken"@, normalized_token(token@)),
            ("cursorAuth/cachedEmail"@, email@),
        ],
{
    let t = normalize_token(token.as_str());
    let r = vec![
        (String::from_str("cursor.email"), email.clone()),
        (String::from_str("cursor.accessToken"), t.clone()),
        (String::from_str("cursorAuth/refreshToken"), t.clone()),
        (String::from_str("cursorAuth/accessToken"), t.clone()),
        (String::from_str("cursorAuth/cachedEmail"), email.clone()),
    ];
    assert(crate::identity::pair_views(r@) =~= seq![
        ("cursor.email"@, email@),
        ("cursor.accessToken"@, normalized_token(token@)),
        ("cursorAuth/refreshToken"@, normalized_token(token@)),
        ("cursorAuth/accessToken"@, normalized_token(token@)),
        ("cursorAuth/cachedEmail"@, email@),
    ]);
    r
}

/// The first records, up to the cap.
pub open spec fn keep_newest(s: Seq<HistoryRecord>) -> Seq<HistoryRecord> {
    if s.len() > MAX_HISTORY_RECORDS {
        s.take(MAX_HISTORY_RECORDS as int)
    } else {
        s
    }
}

/// Puts `record` first and keeps at most the newest records up to the cap.
pub fn save_history_record(history: &mut Vec<HistoryRecord>, record: HistoryRecord)
    ensures
        final(history)@ == keep_newest(seq![record] + old(history)@),
{
    history.insert(0, record);
    assert(history@ =~= seq![record] + old(history)@);
    let ghost full = history@;
    history.truncate(MAX_HISTORY_RECORDS);
    assert(history@ =~= keep_newest(full));
}

/// Puts `records` first, in their order, and keeps at most the newest records up to the cap.
pub fn save_history_records(history: &mut Vec<HistoryRecord>, records: Vec<HistoryRecord>)
    ensures
        records@.len() == 0 ==> final(history)@ == old(history)@,
        records@.len() > 0 ==> final(history)@ == keep_newest(records@ + old(history)@),
{
    if records.len() == 0 {
        return;
    }
    let mut merged = records;
    let ghost r0 = merged@;
    let mut rest: Vec<HistoryRecord> = Vec::new();
    std::mem::swap(&mut rest, history);
    merged.append(&mut rest);
    let ghost full = merged@;
    assert(full =~= r0 + old(history)@);
    merged.truncate(MAX_HISTORY_RECORDS);
    *history = merged;
    assert(history@ =~= keep_newest(full));
}

} // verus!
