use vstd::prelude::*;

use crate::identity::{identity_pairs, pair_views, DeviceIdentity};

verus! {

#[verifier::external_type_specification]
#[verifier::external_body]
pub struct ExJsonError(serde_json::Error);

/// A value of the JSON store: a string this engine wrote, or the compact JSON text of a value
/// read from the file, carried through untouched.
#[derive(Debug)]
pub enum StoreValue {
    Text(String),
    Raw(String),
}

/// One key of the JSON store and its value.
#[derive(Debug)]
pub struct StoreEntry {
    pub key: String,
    pub value: StoreValue,
}

/// The target's JSON configuration object, member by member.
#[derive(Debug)]
pub struct JsonStore {
    pub entries: Vec<StoreEntry>,
}

/// Why a rotation of the stores could not be planned.
#[derive(Debug, PartialEq, Eq)]
pub enum StoreError {
    /// The JSON store is not valid JSON.
    Parse(String),
    /// The JSON store holds valid JSON that is not an object.
    NotAnObject,
}

/// The statements that write one relational store key.
#[derive(Debug)]
pub enum SqlStep {
    /// `UPDATE ItemTable SET value = ?1 WHERE key = ?2`
    Update { key: String, value: String },
    /// `INSERT INTO ItemTable (key, value) VALUES (?1, ?2)`
    Insert { key: String, value: String },
}

/// Writes a list of keys to the relational store, one statement at a time: an update first,
/// and an insert only when the update touched no row.
#[derive(Debug)]
pub struct DbUpsert {
    pub updates: Vec<(String, String)>,
    pub next: usize,
    pub inserting: bool,
}

/// What a rotation writes: the new JSON store text, and the relational store updates.
#[derive(Debug)]
pub struct RotationPlan {
    pub storage_json: String,
    pub db_updates: Vec<(String, String)>,
}

/// A store value as the contracts see it.
pub enum ValueView {
    Text(Seq<char>),
    Raw(Seq<char>),
}

/// The members of a JSON object read from `text`, each with the compact JSON text of its value:
/// None when `text` is not JSON, Some(None) when it is JSON but not an object.
pub uninterp spec fn json_object_members(text: Seq<char>) -> Option<Option<Seq<(Seq<char>, Seq<char>)>>>;

/// A string as a JSON string literal, quoted and escaped.
pub uninterp spec fn json_string_of(s: Seq<char>) -> Seq<char>;

pub open spec fn entry_view(e: StoreEntry) -> (Seq<char>, ValueView) {
    (e.key@, match e.value {
        StoreValue::Text(t) => ValueView::Text(t@),
        StoreValue::Raw(t) => ValueView::Raw(t@),
    })
}

pub open spec fn store_view(es: Seq<StoreEntry>) -> Seq<(Seq<char>, ValueView)> {
    es.map_values(|e: StoreEntry| entry_view(e))
}

/// The members read from a file, their values carried as JSON text.
pub open spec fn raw_members(m: Seq<(Seq<char>, Seq<char>)>) -> Seq<(Seq<char>, ValueView)> {
    m.map_values(|p: (Seq<char>, Seq<char>)| (p.0, ValueView::Raw(p.1)))
}

pub open spec fn has_key_at(s: Seq<(Seq<char>, ValueView)>, k: Seq<char>, i: int) -> bool {
    0 <= i < s.len() && s[i].0 == k
}

pub open spec fn keys_unique(s: Seq<(Seq<char>, ValueView)>) -> bool {
    forall|i: int, j: int| 0 <= i < s.len() && 0 <= j < s.len() && i != j ==> s[i].0 != s[j].0
}

pub open spec fn has_key(s: Seq<(Seq<char>, ValueView)>, k: Seq<char>) -> bool {
    exists|i: int| has_key_at(s, k, i)
}

pub open spec fn key_index(s: Seq<(Seq<char>, ValueView)>, k: Seq<char>) -> int {
    choose|i: int| has_key_at(s, k, i)
}

/// The value stored under `k`.
pub open spec fn value_at(s: Seq<(Seq<char>, ValueView)>, k: Seq<char>) -> Option<ValueView> {
    if has_key(s, k) {
        Some(s[key_index(s, k)].1)
    } else {
        None
    }
}

/// The string stored under `k`, when the store holds one this engine wrote.
pub open spec fn text_at(s: Seq<(Seq<char>, ValueView)>, k: Seq<char>) -> Option<Seq<char>> {
    match value_at(s, k) {
        Some(ValueView::Text(t)) => Some(t),
        _ => None,
    }
}

/// The store with `e` written: an existing key keeps its place and takes the new value, a new
/// key goes last.
pub open spec fn upsert(s: Seq<(Seq<char>, ValueView)>, e: (Seq<char>, ValueView)) -> Seq<(Seq<char>, ValueView)> {
    if has_key(s, e.0) {
        s.update(key_index(s, e.0), e)
    } else {
        s.push(e)
    }
}

/// The store with each pair written in turn as a string value.
pub open spec fn merge_texts(s: Seq<(Seq<char>, ValueView)>, pairs: Seq<(Seq<char>, Seq<char>)>) -> Seq<(Seq<char>, ValueView)>
    decreases pairs.len(),
{
    if pairs.len() == 0 {
        s
    } else {
        upsert(merge_texts(s, pairs.drop_last()), (pairs.last().0, ValueView::Text(pairs.last().1)))
    }
}

pub open spec fn value_json(v: ValueView) -> Seq<char> {
    match v {
        ValueView::Text(t) => json_string_of(t),
        ValueView::Raw(t) => t,
    }
}

pub open spec fn member_json(m: (Seq<char>, ValueView)) -> Seq<char> {
    "  "@ + json_string_of(m.0) + ": "@ + value_json(m.1)
}

pub open spec fn members_json(s: Seq<(Seq<char>, ValueView)>) -> Seq<char>
    decreases s.len(),
{
    if s.len() == 0 {
        Seq::empty()
    } else if s.len() == 1 {
        member_json(s[0])
    } else {
        members_json(s.drop_last()) + ",\n"@ + member_json(s.last())
    }
}

/// The store's text: one member per line, indented by two spaces, in the store's order.
pub open spec fn render_json(s: Seq<(Seq<char>, ValueView)>) -> Seq<char> {
    if s.len() == 0 {
        "{}"@
    } else {
        "{\n"@ + members_json(s) + "\n}"@
    }
}

/// The JSON store a rotation starts from: empty when the file does not exist, its members when
/// it holds an object, None when it cannot be used.
pub open spec fn starting_store(storage: Option<Seq<char>>) -> Option<Seq<(Seq<char>, ValueView)>> {
    match storage {
        None => Some(Seq::empty()),
        Some(t) => match json_object_members(t) {
            Some(Some(m)) => Some(raw_members(m)),
            _ => None,
        },
    }
}

/// The relational store as a map from key to value, after each pair is written in turn.
pub open spec fn table_after(t: Map<Seq<char>, Seq<char>>, plan: Seq<(Seq<char>, Seq<char>)>) -> Map<Seq<char>, Seq<char>>
    decreases plan.len(),
{
    if plan.len() == 0 {
        t
    } else {
        table_after(t, plan.drop_last()).insert(plan.last().0, plan.last().1)
    }
}

/// The relational store key for a logical key name; other names are keys already.
pub open spec fn canonical_key(logical: Seq<char>) -> Seq<char> {
    if logical == "device_id"@ {
        "telemetry.devDeviceId"@
    } else if logical == "mac_id"@ {
        "telemetry.macMachineId"@
    } else if logical == "machineId"@ {
        "telemetry.machineId"@
    } else if logical == "sqm_id"@ {
        "telemetry.sqmId"@
    } else {
        logical
    }
}

pub open spec fn canonical_pairs(updates: Seq<(Seq<char>, Seq<char>)>) -> Seq<(Seq<char>, Seq<char>)> {
    updates.map_values(|p: (Seq<char>, Seq<char>)| (canonical_key(p.0), p.1))
}

proof fn lemma_key_index(s: Seq<(Seq<char>, ValueView)>, k: Seq<char>, i: int)
    requires
        keys_unique(s),
        has_key_at(s, k, i),
    ensures
        has_key(s, k),
        key_index(s, k) == i,
{
    assert(has_key_at(s, k, i));
    let j = key_index(s, k);
    assert(has_key_at(s, k, j));
}

proof fn lemma_upsert_unique(s: Seq<(Seq<char>, ValueView)>, e: (Seq<char>, ValueView))
    requires
        keys_unique(s),
    ensures
        keys_unique(upsert(s, e)),
        value_at(upsert(s, e), e.0) == Some(e.1),
        forall|k: Seq<char>| k != e.0 ==> #[trigger] value_at(upsert(s, e), k) == value_at(s, k),
{
    let u = upsert(s, e);
    if has_key(s, e.0) {
        let i = key_index(s, e.0);
        assert(has_key_at(u, e.0, i));
        lemma_key_index(u, e.0, i);
    } else {
        assert forall|i: int, j: int| 0 <= i < u.len() && 0 <= j < u.len() && i != j implies u[i].0 != u[j].0 by {
            if i == s.len() as int {
                assert(!has_key_at(s, e.0, j));
            } else if j == s.len() as int {
                assert(!has_key_at(s, e.0, i));
            }
        }
        assert(has_key_at(u, e.0, s.len() as int));
        lemma_key_index(u, e.0, s.len() as int);
    }
    assert forall|k: Seq<char>| k != e.0 implies #[trigger] value_at(u, k) == value_at(s, k) by {
        if has_key(s, k) {
            let j = key_index(s, k);
            assert(has_key_at(u, k, j));
            lemma_key_index(u, k, j);
        } else {
            if has_key(u, k) {
                let j = key_index(u, k);
                assert(has_key_at(s, k, j));
            }
        }
    }
}

/// After writing pairs with distinct keys, each key holds its pair's string, and every other
/// key holds what it held before.
pub proof fn lemma_merge_writes_all(s: Seq<(Seq<char>, ValueView)>, pairs: Seq<(Seq<char>, Seq<char>)>)
    requires
        keys_unique(s),
        forall|i: int, j: int| 0 <= i < j < pairs.len() ==> pairs[i].0 != pairs[j].0,
    ensures
        keys_unique(merge_texts(s, pairs)),
        forall|i: int| 0 <= i < pairs.len() ==> text_at(merge_texts(s, pairs), #[trigger] pairs[i].0) == Some(pairs[i].1),
        forall|k: Seq<char>|
            (forall|i: int| 0 <= i < pairs.len() ==> pairs[i].0 != k) ==> #[trigger] value_at(merge_texts(s, pairs), k)
                == value_at(s, k),
    decreases pairs.len(),
{
    if pairs.len() > 0 {
        let init = pairs.drop_last();
        lemma_merge_writes_all(s, init);
        let p = pairs.last();
        let before = merge_texts(s, init);
        lemma_upsert_unique(before, (p.0, ValueView::Text(p.1)));
        assert forall|i: int| 0 <= i < pairs.len() implies text_at(merge_texts(s, pairs), #[trigger] pairs[i].0) == Some(pairs[i].1) by {
            if i < pairs.len() - 1 {
                assert(init[i] == pairs[i]);
            }
        }
        assert forall|k: Seq<char>|
            (forall|i: int| 0 <= i < pairs.len() ==> pairs[i].0 != k) implies #[trigger] value_at(merge_texts(s, pairs), k)
                == value_at(s, k) by {
            assert(pairs[pairs.len() - 1].0 != k);
            assert forall|i: int| 0 <= i < init.len() implies init[i].0 != k by {
                assert(init[i] == pairs[i]);
            }
        }
    }
}

/// After writing a plan with distinct keys, each of its keys maps to its value.
pub proof fn lemma_table_after_writes_all(t: Map<Seq<char>, Seq<char>>, plan: Seq<(Seq<char>, Seq<char>)>)
    requires
        forall|i: int, j: int| 0 <= i < j < plan.len() ==> plan[i].0 != plan[j].0,
    ensures
        forall|i: int| 0 <= i < plan.len() ==> table_after(t, plan).contains_key(#[trigger] plan[i].0)
            && table_after(t, plan)[plan[i].0] == plan[i].1,
    decreases plan.len(),
{
    if plan.len() > 0 {
        let init = plan.drop_last();
        lemma_table_after_writes_all(t, init);
        assert forall|i: int| 0 <= i < plan.len() implies table_after(t, plan).contains_key(#[trigger] plan[i].0)
            && table_after(t, plan)[plan[i].0] == plan[i].1 by {
            if i < plan.len() - 1 {
                assert(init[i] == plan[i]);
            }
        }
    }
}

/// Relies on serde_json::from_str into a Value, and on the Display of a Value, which writes it
/// as compact JSON: an object's members are handed out, each key once, as serde_json's Map
/// keeps one value per key.
#[verifier::external_body]
fn parse_object(text: &str) -> (r: Result<Option<Vec<(String, String)>>, serde_json::Error>)
    ensures
        (r is Err) == (json_object_members(text@) is None),
        r matches Ok(None) ==> json_object_members(text@) == Some(Option::<Seq<(Seq<char>, Seq<char>)>>::None),
        r matches Ok(Some(v)) ==> json_object_members(text@) == Some(Some(pair_views(v@))),
        r matches Ok(Some(v)) ==> forall|i: int, j: int| 0 <= i < j < v@.len() ==> v@[i].0@ != v@[j].0@,
{
    match serde_json::from_str::<serde_json::Value>(text) {
        Ok(serde_json::Value::Object(m)) => Ok(Some(m.into_iter().map(|(k, v)| (k, v.to_string())).collect())),
        Ok(_) => Ok(None),
        Err(e) => Err(e),
    }
}

/// Relies on serde_json::to_string of a string, which cannot fail: it has no map.
#[verifier::external_body]
fn json_quote(s: &str) -> (r: Result<String, serde_json::Error>)
    ensures
        r is Ok,
        r matches Ok(t) ==> t@ == json_string_of(s@),
{
    serde_json::to_string(s)
}

/// Relies on serde_json::Error's Display: a readable message.
#[verifier::external_body]
fn json_error_message(e: &serde_json::Error) -> (r: String) {
    e.to_string()
}

fn quoted(s: &str) -> (r: String)
    ensures
        r@ == json_string_of(s@),
{
    match json_quote(s) {
        Ok(t) => t,
        Err(_) => {
            proof {
                assert(false);
            }
            String::new()
        },
    }
}

fn same_string(a: &String, b: &str) -> (r: bool)
    ensures
        r == (a@ == b@),
{
    let s = String::from_str(b);
    *a == s
}

fn member_text(e: &StoreEntry) -> (r: String)
    ensures
        r@ == member_json(entry_view(*e)),
{
    let mut r = String::from_str("  ");
    r.append(quoted(e.key.as_str()).as_str());
    r.append(": ");
    match &e.value {
        StoreValue::Text(t) => r.append(quoted(t.as_str()).as_str()),
        StoreValue::Raw(t) => r.append(t.as_str()),
    }
    r
}

impl JsonStore {
    /// A store with no keys.
    pub fn new() -> (r: JsonStore)
        ensures
            store_view(r.entries@) == Seq::<(Seq<char>, ValueView)>::empty(),
    {
        let r = JsonStore { entries: Vec::new() };
        assert(store_view(r.entries@) =~= Seq::<(Seq<char>, ValueView)>::empty());
        r
    }

    /// Parses the store's text: its members when it is a JSON object; fails when it is not
    /// JSON, or is JSON but not an object.
    pub fn parse(text: &str) -> (r: Result<JsonStore, StoreError>)
        ensures
            json_object_members(text@) is None ==> r matches Err(StoreError::Parse(_)),
            json_object_members(text@) == Some(Option::<Seq<(Seq<char>, Seq<char>)>>::None) ==> r matches Err(
                StoreError::NotAnObject,
            ),
            json_object_members(text@) matches Some(Some(m)) ==> (r matches Ok(s) && store_view(s.entries@)
                == raw_members(m)),
            r matches Ok(s) ==> keys_unique(store_view(s.entries@)),
    {
        match parse_object(text) {
            Ok(Some(members)) => {
                let ghost m = pair_views(members@);
                let mut entries: Vec<StoreEntry> = Vec::new();
                let mut rest = members;
                let ghost all = rest@;
                let ghost mut done: Seq<(String, String)> = Seq::empty();
                while rest.len() > 0
                    invariant
                        all == done + rest@,
                        store_view(entries@) == raw_members(pair_views(done)),
                    decreases rest.len(),
                {
                    let ghost before = rest@;
                    let (k, v) = rest.remove(0);
                    assert(before =~= seq![(k, v)] + rest@);
                    let ghost prev = done;
                    let ghost prev_entries = entries@;
                    proof {
                        done = done.push((k, v));
                        assert(pair_views(done) =~= pair_views(prev).push((k@, v@)));
                        assert(raw_members(pair_views(done)) =~= raw_members(pair_views(prev)).push(
                            (k@, ValueView::Raw(v@)),
                        ));
                    }
                    entries.push(StoreEntry { key: k, value: StoreValue::Raw(v) });
                    assert(store_view(entries@) =~= store_view(prev_entries).push((k@, ValueView::Raw(v@))));
                    assert(store_view(entries@) =~= raw_members(pair_views(done)));
                    assert(all =~= done + rest@);
                }
                assert(done =~= all);
                let ghost sv = store_view(entries@);
                assert(sv =~= raw_members(m));
                assert forall|i: int, j: int| 0 <= i < sv.len() && 0 <= j < sv.len() && i != j implies sv[i].0
                    != sv[j].0 by {
                    assert(sv[i].0 == all[i].0@ && sv[j].0 == all[j].0@);
                    if i > j {
                        assert(all[j].0@ != all[i].0@);
                    }
                }
                Ok(JsonStore { entries })
            },
            Ok(None) => Err(StoreError::NotAnObject),
            Err(e) => Err(StoreError::Parse(json_error_message(&e))),
        }
    }

    /// Writes `value` under `key` as a string: an existing key keeps its place.
    pub fn upsert_text(&mut self, key: String, value: String)
        requires
            keys_unique(store_view(old(self).entries@)),
        ensures
            store_view(final(self).entries@) == upsert(store_view(old(self).entries@), (key@, ValueView::Text(value@))),
            keys_unique(store_view(final(self).entries@)),
    {
        let ghost e = (key@, ValueView::Text(value@));
        let ghost sv = store_view(self.entries@);
        proof {
            lemma_upsert_unique(sv, e);
        }
        let mut i: usize = 0;
        while i < self.entries.len()
            invariant
                i <= self.entries.len(),
                self.entries@ == old(self).entries@,
                sv == store_view(self.entries@),
                e == (key@, ValueView::Text(value@)),
                keys_unique(sv),
                forall|j: int| 0 <= j < i ==> !has_key_at(sv, key@, j),
            decreases self.entries.len() - i,
        {
            if self.entries[i].key == key {
                proof {
                    lemma_key_index(sv, key@, i as int);
                }
                self.entries.set(i, StoreEntry { key, value: StoreValue::Text(value) });
                assert(store_view(self.entries@) =~= sv.update(i as int, e));
                return;
            }
            i = i + 1;
        }
        assert(!has_key(sv, key@));
        self.entries.push(StoreEntry { key, value: StoreValue::Text(value) });
        assert(store_view(self.entries@) =~= sv.push(e));
    }

    /// Writes each pair in turn as a string value.
    pub fn apply(&mut self, pairs: Vec<(String, String)>)
        requires
            keys_unique(store_view(old(self).entries@)),
        ensures
            store_view(final(self).entries@) == merge_texts(store_view(old(self).entries@), pair_views(pairs@)),
            keys_unique(store_view(final(self).entries@)),
    {
        let ghost start = store_view(self.entries@);
        let ghost all = pairs@;
        let mut rest = pairs;
        let ghost mut done: Seq<(String, String)> = Seq::empty();
        assert(done + rest@ =~= all);
        assert(pair_views(done) =~= Seq::<(Seq<char>, Seq<char>)>::empty());
        while rest.len() > 0
            invariant
                all == done + rest@,
                keys_unique(store_view(self.entries@)),
                store_view(self.entries@) == merge_texts(start, pair_views(done)),
            decreases rest.len(),
        {
            let ghost before = rest@;
            let p = rest.remove(0);
            assert(before =~= seq![p] + rest@);
            let ghost prev = done;
            proof {
                done = done.push(p);
            }
            assert(pair_views(done).drop_last() =~= pair_views(prev));
            let (k, v) = p;
            self.upsert_text(k, v);
            assert(all =~= done + rest@);
        }
        assert(done =~= all);
    }

    /// The store's text: one member per line, in the store's order.
    pub fn render(&self) -> (r: String)
        ensures
            r@ == render_json(store_view(self.entries@)),
    {
        let ghost sv = store_view(self.entries@);
        if self.entries.len() == 0 {
            return String::from_str("{}");
        }
        let mut r = String::from_str("{\n");
        let mut i: usize = 0;
        while i < self.entries.len()
            invariant
                i <= self.entries.len(),
                sv == store_view(self.entries@),
                i == 0 ==> r@ == "{\n"@,
                i > 0 ==> r@ == "{\n"@ + members_json(sv.take(i as int)),
            decreases self.entries.len() - i,
        {
            let ghost prev = r@;
            if i > 0 {
                r.append(",\n");
            }
            let m = member_text(&self.entries[i]);
            r.append(m.as_str());
            i = i + 1;
            assert(sv.take(i as int).drop_last() =~= sv.take(i - 1));
            if i == 1 {
                assert(sv.take(1) =~= seq![sv[0]]);
                assert(r@ =~= "{\n"@ + members_json(sv.take(i as int)));
            } else {
                assert(r@ =~= "{\n"@ + members_json(sv.take(i as int)));
            }
        }
        assert(sv.take(i as int) =~= sv);
        r.append("\n}");
        r
    }
}

/// The relational store key for a logical key name: the four identity names map to their
/// telemetry keys, any other name is used as it is.
pub fn canonical_db_key(logical: &String) -> (r: String)
    ensures
        r@ == canonical_key(logical@),
{
    if same_string(logical, "device_id") {
        String::from_str("telemetry.devDeviceId")
    } else if same_string(logical, "mac_id") {
        String::from_str("telemetry.macMachineId")
    } else if same_string(logical, "machineId") {
        String::from_str("telemetry.machineId")
    } else if same_string(logical, "sqm_id") {
        String::from_str("telemetry.sqmId")
    } else {
        logical.clone()
    }
}

/// The relational store updates for an identity, under their logical names.
pub fn identity_db_updates(ids: &DeviceIdentity) -> (r: Vec<(String, String)>)
    ensures
        pair_views(r@) == seq![
            ("device_id"@, ids.dev_device_id@),
            ("mac_id"@, ids.mac_machine_id@),
            ("machineId"@, ids.machine_id@),
            ("sqm_id"@, ids.sqm_id@),
        ],
{
    let r = vec![
        (String::from_str("device_id"), ids.dev_device_id.clone()),
        (String::from_str("mac_id"), ids.mac_machine_id.clone()),
        (String::from_str("machineId"), ids.machine_id.clone()),
        (String::from_str("sqm_id"), ids.sqm_id.clone()),
    ];
    assert(pair_views(r@) =~= seq![
        ("device_id"@, ids.dev_device_id@),
        ("mac_id"@, ids.mac_machine_id@),
        ("machineId"@, ids.machine_id@),
        ("sqm_id"@, ids.sqm_id@),
    ]);
    r
}

impl DbUpsert {
    /// Prepares the updates, each logical name turned into its relational store key.
    pub fn new(updates: &Vec<(String, String)>) -> (r: DbUpsert)
        ensures
            pair_views(r.updates@) == canonical_pairs(pair_views(updates@)),
            r.next == 0,
            !r.inserting,
    {
        let mut out: Vec<(String, String)> = Vec::new();
        let mut i: usize = 0;
        while i < updates.len()
            invariant
                i <= updates.len(),
                pair_views(out@) == canonical_pairs(pair_views(updates@)).take(i as int),
            decreases updates.len() - i,
        {
            let key = canonical_db_key(&updates[i].0);
            let ghost prev = out@;
            out.push((key, updates[i].1.clone()));
            i = i + 1;
            assert(pair_views(out@) =~= pair_views(prev).push((canonical_key(updates@[i - 1].0@), updates@[i - 1].1@)));
            assert(canonical_pairs(pair_views(updates@)).take(i as int) =~= canonical_pairs(pair_views(updates@)).take(i - 1).push(
                (canonical_key(updates@[i - 1].0@), updates@[i - 1].1@),
            ));
        }
        assert(canonical_pairs(pair_views(updates@)).take(i as int) =~= canonical_pairs(pair_views(updates@)));
        DbUpsert { updates: out, next: 0, inserting: false }
    }

    /// The statement to run next, or None when every key is written.
    pub fn step(&self) -> (r: Option<SqlStep>)
        ensures
            self.next >= self.updates.len() ==> r is None,
            self.next < self.updates.len() && !self.inserting ==> (r matches Some(SqlStep::Update { key, value })
                && key@ == self.updates@[self.next as int].0@ && value@ == self.updates@[self.next as int].1@),
            self.next < self.updates.len() && self.inserting ==> (r matches Some(SqlStep::Insert { key, value })
                && key@ == self.updates@[self.next as int].0@ && value@ == self.updates@[self.next as int].1@),
    {
        if self.next >= self.updates.len() {
            return None;
        }
        let key = self.updates[self.next].0.clone();
        let value = self.updates[self.next].1.clone();
        if self.inserting {
            Some(SqlStep::Insert { key, value })
        } else {
            Some(SqlStep::Update { key, value })
        }
    }

    /// Takes in the number of rows the last statement changed: an update that changed none is
    /// followed by an insert of the same key; otherwise the next key comes.
    pub fn record(&mut self, rows_changed: usize)
        requires
            old(self).next < old(self).updates.len(),
        ensures
            final(self).updates == old(self).updates,
            !old(self).inserting && rows_changed == 0 ==> final(self).next == old(self).next && final(self).inserting,
            (old(self).inserting || rows_changed > 0) ==> final(self).next == old(self).next + 1 && !final(self).inserting,
    {
        if !self.inserting && rows_changed == 0 {
            self.inserting = true;
        } else {
            self.next = self.next + 1;
            self.inserting = false;
        }
    }
}

/// Plans a rotation: the JSON store's text (None when the file does not exist) with the four
/// identity keys written as strings and every other member kept, and the relational store
/// updates for the same identity.
pub fn plan_identity_rotation(storage: Option<&str>, ids: &DeviceIdentity) -> (r: Result<RotationPlan, StoreError>)
    ensures
        starting_store(opt_text(storage)) matches Some(s) ==> (r matches Ok(p) && p.storage_json@ == render_json(
            merge_texts(s, identity_pairs(*ids)),
        )),
        storage matches Some(t) ==> (json_object_members(t@) is None ==> r matches Err(StoreError::Parse(_))),
        storage matches Some(t) ==> (json_object_members(t@) == Some(Option::<Seq<(Seq<char>, Seq<char>)>>::None)
            ==> r matches Err(StoreError::NotAnObject)),
        r matches Ok(p) ==> pair_views(p.db_updates@) == seq![
            ("device_id"@, ids.dev_device_id@),
            ("mac_id"@, ids.mac_machine_id@),
            ("machineId"@, ids.machine_id@),
            ("sqm_id"@, ids.sqm_id@),
        ],
{
    let mut store = match storage {
        Some(text) => match JsonStore::parse(text) {
            Ok(s) => s,
            Err(e) => return Err(e),
        },
        None => JsonStore::new(),
    };
    store.apply(ids.storage_entries());
    let storage_json = store.render();
    Ok(RotationPlan { storage_json, db_updates: identity_db_updates(ids) })
}

pub open spec fn opt_text(o: Option<&str>) -> Option<Seq<char>> {
    match o {
        Some(t) => Some(t@),
        None => None,
    }
}

/// After a rotation both stores hold the four identity keys with the same values: the JSON
/// store as strings, every other member untouched; the relational store, once its updates are
/// written.
pub proof fn lemma_dual_store_coverage(
    s: Seq<(Seq<char>, ValueView)>,
    ids: DeviceIdentity,
    db_updates: Seq<(Seq<char>, Seq<char>)>,
    table: Map<Seq<char>, Seq<char>>,
)
    requires
        keys_unique(s),
        db_updates == seq![
            ("device_id"@, ids.dev_device_id@),
            ("mac_id"@, ids.mac_machine_id@),
            ("machineId"@, ids.machine_id@),
            ("sqm_id"@, ids.sqm_id@),
        ],
    ensures
        forall|i: int| 0 <= i < 4 ==> {
            let (k, v) = #[trigger] identity_pairs(ids)[i];
            &&& text_at(merge_texts(s, identity_pairs(ids)), k) == Some(v)
            &&& table_after(table, canonical_pairs(db_updates)).contains_key(k)
            &&& table_after(table, canonical_pairs(db_updates))[k] == v
        },
        forall|k: Seq<char>|
            (forall|i: int| 0 <= i < 4 ==> identity_pairs(ids)[i].0 != k) ==> #[trigger] value_at(
                merge_texts(s, identity_pairs(ids)),
                k,
            ) == value_at(s, k),
{
    reveal_strlit("telemetry.devDeviceId");
    reveal_strlit("telemetry.macMachineId");
    reveal_strlit("telemetry.machineId");
    reveal_strlit("telemetry.sqmId");
    reveal_strlit("device_id");
    reveal_strlit("mac_id");
    reveal_strlit("machineId");
    reveal_strlit("sqm_id");
    let ip = identity_pairs(ids);
    assert(ip.len() == 4);
    assert("machineId"@[0] != "device_id"@[0]);
    assert("sqm_id"@[0] != "mac_id"@[0]);
    assert(ip[0].0[10] != ip[1].0[10] && ip[0].0[10] != ip[2].0[10] && ip[0].0[10] != ip[3].0[10]);
    assert(ip[1].0[13] != ip[2].0[13] && ip[1].0[10] != ip[3].0[10] && ip[2].0[10] != ip[3].0[10]);
    assert(ip[0].0 != ip[1].0 && ip[0].0 != ip[2].0 && ip[0].0 != ip[3].0);
    assert(ip[1].0 != ip[2].0 && ip[1].0 != ip[3].0 && ip[2].0 != ip[3].0);
    lemma_merge_writes_all(s, ip);
    let plan = canonical_pairs(db_updates);
    assert(plan[0] == ip[0]);
    assert(plan[1] == ip[1]);
    assert("machineId"@ != "device_id"@);
    assert("machineId"@.len() != "mac_id"@.len());
    assert(canonical_key("machineId"@) == "telemetry.machineId"@);
    assert(plan[2] == ip[2]);
    assert(plan[3] == ip[3]);
    assert(plan =~= ip);
    lemma_table_after_writes_all(table, plan);
}

} // verus!
