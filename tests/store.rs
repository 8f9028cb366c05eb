use cursor_pool::identity::{generate_new_ids, DeviceIdentity};
use cursor_pool::store::{
    canonical_db_key, identity_db_updates, plan_identity_rotation, DbUpsert, JsonStore, SqlStep, StoreError,
};
use cursor_pool::rotation::{dual_write_outcome, perform_reset, AuthInfo, RotationError};

const KEYS: [&str; 4] = ["telemetry.devDeviceId", "telemetry.macMachineId", "telemetry.machineId", "telemetry.sqmId"];

fn ids() -> DeviceIdentity {
    DeviceIdentity {
        dev_device_id: "d".to_string(),
        mac_machine_id: "m".to_string(),
        machine_id: "i".to_string(),
        sqm_id: "s".to_string(),
    }
}

/// Runs the relational writes against an in-memory table, as the store would.
fn run_upserts(table: &mut Vec<(String, String)>, updates: &Vec<(String, String)>) {
    let mut run = DbUpsert::new(updates);
    while let Some(step) = run.step() {
        let rows = match step {
            SqlStep::Update { key, value } => {
                let mut n = 0;
                for row in table.iter_mut() {
                    if row.0 == key {
                        row.1 = value.clone();
                        n += 1;
                    }
                }
                n
            }
            SqlStep::Insert { key, value } => {
                table.push((key, value));
                1
            }
        };
        run.record(rows);
    }
}

#[test]
fn rotation_keeps_other_keys_and_writes_both_stores() {
    let ids = generate_new_ids();
    let plan = plan_identity_rotation(Some(r#"{"other.key":"x"}"#), &ids).unwrap();
    let v: serde_json::Value = serde_json::from_str(&plan.storage_json).unwrap();
    let obj = v.as_object().unwrap();
    assert_eq!(obj.len(), 5);
    assert_eq!(obj["other.key"], "x");
    let values = [&ids.dev_device_id, &ids.mac_machine_id, &ids.machine_id, &ids.sqm_id];
    for (k, val) in KEYS.iter().zip(values.iter()) {
        assert_eq!(obj[*k].as_str().unwrap(), val.as_str());
    }
    let mut table = vec![("telemetry.machineId".to_string(), "old".to_string()), ("z".to_string(), "1".to_string())];
    run_upserts(&mut table, &plan.db_updates);
    assert_eq!(table.len(), 5);
    for (k, val) in KEYS.iter().zip(values.iter()) {
        let row = table.iter().find(|r| r.0 == *k).unwrap();
        assert_eq!(row.1, val.as_str());
        assert_eq!(obj[*k].as_str().unwrap(), row.1);
    }
    assert_eq!(table[0].0, "telemetry.machineId");
}

#[test]
fn missing_store_starts_empty() {
    let plan = plan_identity_rotation(None, &ids()).unwrap();
    let v: serde_json::Value = serde_json::from_str(&plan.storage_json).unwrap();
    assert_eq!(v.as_object().unwrap().len(), 4);
    assert_eq!(v["telemetry.devDeviceId"], "d");
}

#[test]
fn store_that_is_not_an_object_is_refused() {
    assert!(matches!(plan_identity_rotation(Some("[1,2]"), &ids()), Err(StoreError::NotAnObject)));
    assert!(matches!(plan_identity_rotation(Some("{oops"), &ids()), Err(StoreError::Parse(_))));
}

#[test]
fn existing_identity_key_is_overwritten_in_place() {
    let mut store = JsonStore::parse(r#"{"a":1,"telemetry.sqmId":"old"}"#).unwrap();
    store.apply(ids().storage_entries());
    assert_eq!(store.entries.len(), 5);
    let text = store.render();
    let v: serde_json::Value = serde_json::from_str(&text).unwrap();
    assert_eq!(v["telemetry.sqmId"], "s");
    assert_eq!(v["a"], 1);
}

#[test]
fn logical_keys_map_to_telemetry_keys() {
    assert_eq!(canonical_db_key(&"device_id".to_string()), "telemetry.devDeviceId");
    assert_eq!(canonical_db_key(&"mac_id".to_string()), "telemetry.macMachineId");
    assert_eq!(canonical_db_key(&"machineId".to_string()), "telemetry.machineId");
    assert_eq!(canonical_db_key(&"sqm_id".to_string()), "telemetry.sqmId");
    assert_eq!(canonical_db_key(&"cursor.email".to_string()), "cursor.email");
    let u = identity_db_updates(&ids());
    assert_eq!(u[0], ("device_id".to_string(), "d".to_string()));
}

#[test]
fn update_then_insert_order() {
    let updates = vec![("device_id".to_string(), "v".to_string())];
    let mut run = DbUpsert::new(&updates);
    assert!(matches!(run.step(), Some(SqlStep::Update { ref key, .. }) if key == "telemetry.devDeviceId"));
    run.record(0);
    assert!(matches!(run.step(), Some(SqlStep::Insert { ref value, .. }) if value == "v"));
    run.record(1);
    assert!(run.step().is_none());
    let mut run = DbUpsert::new(&updates);
    run.record(1);
    assert!(run.step().is_none());
}

#[test]
fn reset_plan_writes_identity_and_credentials() {
    let plan = perform_reset(
        Some(r#"{"k":"v"}"#),
        AuthInfo { email: "a@b.c".to_string(), token: "tok".to_string() },
    )
    .unwrap();
    assert_eq!(plan.db_updates.len(), 9);
    assert_eq!(plan.db_updates[0], ("telemetry.devDeviceId".to_string(), plan.identity.dev_device_id.clone()));
    assert_eq!(plan.db_updates[6], ("cursorAuth/cachedEmail".to_string(), "a@b.c".to_string()));
    let auth: serde_json::Value = serde_json::from_str(&plan.auth_json).unwrap();
    assert_eq!(auth["email"], "a@b.c");
    assert_eq!(auth["access_token"], "tok");
    let storage: serde_json::Value = serde_json::from_str(&plan.storage_json).unwrap();
    assert_eq!(storage["k"], "v");
}

#[test]
fn partial_dual_write_is_reported() {
    assert!(dual_write_outcome(Ok(()), Some(Ok(()))).is_ok());
    assert!(dual_write_outcome(Ok(()), None).is_ok());
    assert!(matches!(dual_write_outcome(Err("disk".to_string()), None), Err(RotationError::Io(_))));
    let e = dual_write_outcome(Ok(()), Some(Err("locked".to_string()))).unwrap_err();
    assert!(matches!(e, RotationError::Inconsistency(_)));
    assert!(e.message().contains("locked"));
}

#[test]
fn rendering_keeps_values_read_from_the_file() {
    let store = JsonStore::parse(r#"{"b":[1,{"c":null}],"a":"x\"y"}"#).unwrap();
    let text = store.render();
    assert_eq!(text, "{\n  \"a\": \"x\\\"y\",\n  \"b\": [1,{\"c\":null}]\n}");
    assert_eq!(JsonStore::new().render(), "{}");
}
