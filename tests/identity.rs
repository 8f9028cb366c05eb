use cursor_pool::identity::{generate_new_ids, DeviceIdentity};

fn is_uuid(s: &str) -> bool {
    s.len() == 36
        && s.chars().enumerate().all(|(i, c)| {
            if i == 8 || i == 13 || i == 18 || i == 23 {
                c == '-'
            } else {
                c.is_ascii_hexdigit() && !c.is_ascii_uppercase()
            }
        })
}

#[test]
fn generated_identity_has_expected_shapes() {
    let ids = generate_new_ids();
    assert!(is_uuid(&ids.dev_device_id));
    assert_eq!(ids.mac_machine_id.len(), 128);
    assert_eq!(ids.machine_id.len(), 64);
    assert!(ids.mac_machine_id.chars().all(|c| c.is_ascii_hexdigit() && !c.is_ascii_uppercase()));
    assert!(ids.machine_id.chars().all(|c| c.is_ascii_hexdigit() && !c.is_ascii_uppercase()));
    assert_eq!(ids.sqm_id.len(), 38);
    assert!(ids.sqm_id.starts_with('{') && ids.sqm_id.ends_with('}'));
    let inner = &ids.sqm_id[1..37];
    assert_eq!(inner, inner.to_uppercase());
    assert!(is_uuid(&inner.to_lowercase()));
}

#[test]
fn identities_are_fresh_each_time() {
    let a = generate_new_ids();
    let b = generate_new_ids();
    assert_ne!(a.dev_device_id, b.dev_device_id);
    assert_ne!(a.machine_id, b.machine_id);
    assert_ne!(a.mac_machine_id, b.mac_machine_id);
    assert_ne!(a.sqm_id, b.sqm_id);
}

#[test]
fn chosen_device_id_is_kept() {
    let ids = DeviceIdentity::with_device_id("my-device".to_string());
    assert_eq!(ids.dev_device_id, "my-device");
    assert_eq!(ids.machine_id.len(), 64);
    let pairs = ids.storage_entries();
    assert_eq!(pairs.len(), 4);
    assert_eq!(pairs[0], ("telemetry.devDeviceId".to_string(), "my-device".to_string()));
    assert_eq!(pairs[3].0, "telemetry.sqmId");
}
