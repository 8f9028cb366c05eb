use vstd::prelude::*;

verus! {

/// Key of the device id in the target's stores.
pub const DEVICE_ID_KEY: &'static str = "telemetry.devDeviceId";

/// Key of the MAC machine id in the target's stores.
pub const MAC_MACHINE_ID_KEY: &'static str = "telemetry.macMachineId";

/// Key of the machine id in the target's stores.
pub const MACHINE_ID_KEY: &'static str = "telemetry.machineId";

/// Key of the SQM id in the target's stores.
pub const SQM_ID_KEY: &'static str = "telemetry.sqmId";

/// The SHA-256 digest of a byte string.
pub uninterp spec fn sha256_of(data: Seq<u8>) -> Seq<u8>;

/// The SHA-512 digest of a byte string.
pub uninterp spec fn sha512_of(data: Seq<u8>) -> Seq<u8>;

/// The uppercase mapping of a string, as Unicode defines it.
pub uninterp spec fn upper_of(s: Seq<char>) -> Seq<char>;

pub open spec fn hex_digit(n: u8) -> char {
    "0123456789abcdef"@[n as int]
}

/// Two lowercase hex digits per byte, high nibble first.
pub open spec fn hex_of(b: Seq<u8>) -> Seq<char>
    decreases b.len(),
{
    if b.len() == 0 {
        Seq::empty()
    } else {
        hex_of(b.drop_last()) + seq![hex_digit(b.last() / 16), hex_digit(b.last() % 16)]
    }
}

pub open spec fn is_lower_hex(c: char) -> bool {
    ('0' <= c && c <= '9') || ('a' <= c && c <= 'f')
}

/// The hyphenated lowercase form of a UUID: 8-4-4-4-12 hex digits.
pub open spec fn is_uuid_text(s: Seq<char>) -> bool {
    &&& s.len() == 36
    &&& forall|i: int|
        0 <= i < 36 ==> if i == 8 || i == 13 || i == 18 || i == 23 {
            s[i] == '-'
        } else {
            is_lower_hex(#[trigger] s[i])
        }
}

/// Every character of `s` is a lowercase hex digit.
pub open spec fn all_lower_hex(s: Seq<char>) -> bool {
    forall|i: int| 0 <= i < s.len() ==> is_lower_hex(#[trigger] s[i])
}

/// Hex text has two lowercase digits per byte.
pub proof fn lemma_hex_shape(b: Seq<u8>)
    ensures
        hex_of(b).len() == 2 * b.len(),
        all_lower_hex(hex_of(b)),
    decreases b.len(),
{
    reveal_strlit("0123456789abcdef");
    if b.len() > 0 {
        lemma_hex_shape(b.drop_last());
        let hi = b.last() / 16;
        let lo = b.last() % 16;
        assert(forall|n: u8| n < 16 ==> is_lower_hex(#[trigger] hex_digit(n)));
        let h = hex_of(b);
        let p = hex_of(b.drop_last());
        assert forall|i: int| 0 <= i < h.len() implies is_lower_hex(#[trigger] h[i]) by {
            if i < p.len() {
                assert(h[i] == p[i]);
            } else if i == p.len() {
                assert(h[i] == hex_digit(hi));
            } else {
                assert(h[i] == hex_digit(lo));
            }
        }
    }
}

/// Relies on rand's thread_rng and RngCore::fill_bytes: `n` bytes from a secure generator.
#[verifier::external_body]
fn random_bytes(n: usize) -> (r: Vec<u8>)
    ensures
        r@.len() == n,
{
    let mut buf = vec![0u8; n];
    rand::RngCore::fill_bytes(&mut rand::thread_rng(), &mut buf);
    buf
}

/// Relies on sha2::Sha256::digest.
#[verifier::external_body]
fn sha256(data: &Vec<u8>) -> (r: Vec<u8>)
    ensures
        r@ == sha256_of(data@),
        r@.len() == 32,
{
    <sha2::Sha256 as sha2::Digest>::digest(data).to_vec()
}

/// Relies on sha2::Sha512::digest.
#[verifier::external_body]
fn sha512(data: &Vec<u8>) -> (r: Vec<u8>)
    ensures
        r@ == sha512_of(data@),
        r@.len() == 64,
{
    <sha2::Sha512 as sha2::Digest>::digest(data).to_vec()
}

/// Relies on hex::encode: two lowercase digits per byte.
#[verifier::external_body]
fn hex_encode(data: &Vec<u8>) -> (r: String)
    ensures
        r@ == hex_of(data@),
{
    hex::encode(data)
}

/// Relies on uuid::Uuid::new_v4 and its Display, the hyphenated lowercase form.
#[verifier::external_body]
fn new_uuid() -> (r: String)
    ensures
        is_uuid_text(r@),
{
    uuid::Uuid::new_v4().to_string()
}

/// Relies on str::to_uppercase: the result depends on the characters alone.
#[verifier::external_body]
fn uppercase(s: &str) -> (r: String)
    ensures
        r@ == upper_of(s@),
{
    s.to_uppercase()
}

/// The four telemetry identifiers of the target application.
#[derive(Debug)]
pub struct DeviceIdentity {
    pub dev_device_id: String,
    pub mac_machine_id: String,
    pub machine_id: String,
    pub sqm_id: String,
}

/// The three identifiers besides the device id have the shape their generation gives them.
pub open spec fn fresh_telemetry(ids: DeviceIdentity) -> bool {
    &&& exists|b: Seq<u8>| b.len() == 64 && #[trigger] hex_of(sha512_of(b)) == ids.mac_machine_id@
    &&& exists|b: Seq<u8>| b.len() == 32 && #[trigger] hex_of(sha256_of(b)) == ids.machine_id@
    &&& ids.mac_machine_id@.len() == 128 && all_lower_hex(ids.mac_machine_id@)
    &&& ids.machine_id@.len() == 64 && all_lower_hex(ids.machine_id@)
    &&& exists|u: Seq<char>|
        is_uuid_text(u) && ids.sqm_id@ == seq!['{'] + #[trigger] upper_of(u) + seq!['}']
}

/// The identity as `(key, value)` pairs, in the order the stores are written.
pub open spec fn identity_pairs(ids: DeviceIdentity) -> Seq<(Seq<char>, Seq<char>)> {
    seq![
        (DEVICE_ID_KEY@, ids.dev_device_id@),
        (MAC_MACHINE_ID_KEY@, ids.mac_machine_id@),
        (MACHINE_ID_KEY@, ids.machine_id@),
        (SQM_ID_KEY@, ids.sqm_id@),
    ]
}

pub open spec fn pair_views(v: Seq<(String, String)>) -> Seq<(Seq<char>, Seq<char>)> {
    v.map_values(|p: (String, String)| (p.0@, p.1@))
}

/// A fresh identity: a random UUID device id, the hex SHA-512 of 64 random bytes (128 lowercase
/// hex digits), the hex SHA-256 of 32 random bytes (64 digits), and a braced uppercase random
/// UUID. The drawn bytes and UUIDs are not returned, so the exact values cannot be stated.
pub fn generate_new_ids() -> (r: DeviceIdentity)
    ensures
        is_uuid_text(r.dev_device_id@),
        fresh_telemetry(r),
{
    DeviceIdentity::with_device_id(new_uuid())
}

impl DeviceIdentity {
    /// A fresh identity whose device id is the one given; the other three are generated.
    pub fn with_device_id(dev_device_id: String) -> (r: DeviceIdentity)
        ensures
            r.dev_device_id == dev_device_id,
            fresh_telemetry(r),
    {
        let bytes_32 = random_bytes(32);
        let bytes_64 = random_bytes(64);
        let d512 = sha512(&bytes_64);
        let d256 = sha256(&bytes_32);
        let mac_machine_id = hex_encode(&d512);
        let machine_id = hex_encode(&d256);
        proof {
            lemma_hex_shape(d512@);
            lemma_hex_shape(d256@);
        }
        let u = new_uuid();
        let upper = uppercase(u.as_str());
        let mut sqm_id = String::from_str("{");
        sqm_id.append(upper.as_str());
        sqm_id.append("}");
        proof {
            reveal_strlit("{");
            reveal_strlit("}");
        }
        let r = DeviceIdentity { dev_device_id, mac_machine_id, machine_id, sqm_id };
        assert(hex_of(sha512_of(bytes_64@)) == r.mac_machine_id@);
        assert(hex_of(sha256_of(bytes_32@)) == r.machine_id@);
        assert(r.sqm_id@ == seq!['{'] + upper_of(u@) + seq!['}']);
        r
    }

    /// The identity as `(key, value)` pairs for the JSON store.
    pub fn storage_entries(&self) -> (r: Vec<(String, String)>)
        ensures
            pair_views(r@) == identity_pairs(*self),
    {
        let r = vec![
            (String::from_str(DEVICE_ID_KEY), self.dev_device_id.clone()),
            (String::from_str(MAC_MACHINE_ID_KEY), self.mac_machine_id.clone()),
            (String::from_str(MACHINE_ID_KEY), self.machine_id.clone()),
            (String::from_str(SQM_ID_KEY), self.sqm_id.clone()),
        ];
        assert(pair_views(r@) =~= identity_pairs(*self));
        r
    }
}

} // verus!
