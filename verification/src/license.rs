//! License records and the activation state machine.
//!
//! A machine is in one of three states: no license stored; a stored license
//! that is still valid (no expiry, or expiry in the future); or a stored
//! license whose expiry has passed.  Validity is recomputed on every read
//! against a clock value supplied by the caller; nothing maintains it in the
//! background.

use sha2::Digest;
use vstd::prelude::*;
use vstd::string::StringSliceAdditionalSpecFns;

use crate::database::{Database, StoreView};
use crate::models::dup_opt_string;

verus! {

/// The persisted license record.  `key_hash` is a one-way digest of the raw
/// key, never the key itself; `expires_at` is epoch seconds, absent for a
/// perpetual license.
#[derive(Debug, Clone, PartialEq)]
pub struct LicenseKey {
    pub key_hash: String,
    pub email: String,
    pub machine_fingerprint: String,
    pub activated_at: i64,
    pub expires_at: Option<i64>,
    pub is_active: bool,
    pub license_type: String,
}

/// What is sent to the remote validation endpoint.
#[derive(Debug, Clone, PartialEq)]
pub struct LicenseValidationRequest {
    pub key: String,
    pub email: String,
    pub machine_fingerprint: String,
}

/// What the remote validation endpoint answers.
#[derive(Debug, Clone, PartialEq)]
pub struct LicenseValidationResponse {
    pub valid: bool,
    pub expires_at: Option<i64>,
    pub user_email: String,
    pub license_type: String,
    pub error: Option<String>,
}

/// The live status derived from the stored record and the current time.
#[derive(Debug, Clone, PartialEq)]
pub struct LicenseStatus {
    pub is_activated: bool,
    pub is_valid: bool,
    pub expires_at: Option<i64>,
    pub email: Option<String>,
    pub days_remaining: Option<i64>,
    pub license_type: Option<String>,
    pub error_message: Option<String>,
}

impl LicenseKey {
    pub fn dup(&self) -> (r: Self)
        ensures
            r == *self,
    {
        LicenseKey {
            key_hash: self.key_hash.clone(),
            email: self.email.clone(),
            machine_fingerprint: self.machine_fingerprint.clone(),
            activated_at: self.activated_at,
            expires_at: self.expires_at,
            is_active: self.is_active,
            license_type: self.license_type.clone(),
        }
    }
}

impl LicenseValidationRequest {
    /// Package what the remote endpoint wants to see: the raw key, the
    /// email, and the machine fingerprint.
    pub fn new(key: String, email: String, machine_fingerprint: String) -> (r: Self)
        ensures
            r.key == key,
            r.email == email,
            r.machine_fingerprint == machine_fingerprint,
    {
        LicenseValidationRequest { key, email, machine_fingerprint }
    }
}

// ==================== key hashing ====================

/// The SHA-256 digest of a byte sequence.  Stated, not defined: the
/// algorithm lives in the sha2 crate, and only the trusted wrapper below
/// speaks for it.
pub uninterp spec fn sha256_of(data: Seq<u8>) -> Seq<u8>;

/// The lowercase hex digit for a value below sixteen.
pub open spec fn hex_digit(n: u8) -> char
    recommends
        n < 16,
{
    if n == 0 {
        '0'
    } else if n == 1 {
        '1'
    } else if n == 2 {
        '2'
    } else if n == 3 {
        '3'
    } else if n == 4 {
        '4'
    } else if n == 5 {
        '5'
    } else if n == 6 {
        '6'
    } else if n == 7 {
        '7'
    } else if n == 8 {
        '8'
    } else if n == 9 {
        '9'
    } else if n == 10 {
        'a'
    } else if n == 11 {
        'b'
    } else if n == 12 {
        'c'
    } else if n == 13 {
        'd'
    } else if n == 14 {
        'e'
    } else {
        'f'
    }
}

/// Lowercase hex encoding: two digits per byte, high digit first, bytes in
/// order.
pub open spec fn hex_of(data: Seq<u8>) -> Seq<char>
    decreases data.len(),
{
    if data.len() == 0 {
        Seq::<char>::empty()
    } else {
        seq![hex_digit(data[0] / 16), hex_digit(data[0] % 16)] + hex_of(data.skip(1))
    }
}

pub proof fn lemma_hex_of_len(data: Seq<u8>)
    ensures
        hex_of(data).len() == 2 * data.len(),
    decreases data.len(),
{
    if data.len() > 0 {
        lemma_hex_of_len(data.skip(1));
    }
}

/// Relies on sha2's `Sha256`: the digest is a function of the input bytes
/// alone, and is 32 bytes long.
#[verifier::external_body]
fn sha256_digest(data: &[u8]) -> (r: Vec<u8>)
    ensures
        r@ == sha256_of(data@),
        r@.len() == 32,
{
    sha2::Sha256::digest(data).to_vec()
}

/// Relies on hex::encode: lowercase hex, two digits per byte, bytes in
/// order.
#[verifier::external_body]
fn hex_encode(data: &[u8]) -> (r: String)
    ensures
        r@ == hex_of(data@),
{
    hex::encode(data)
}

/// One-way, deterministic digest of a raw license key: the lowercase hex
/// form of the SHA-256 digest of the key's UTF-8 bytes.  Stored in place of
/// the key, never reversed.
pub fn hash_license_key(key: &str) -> (r: String)
    ensures
        r@ == hex_of(sha256_of(key.spec_bytes())),
        r@.len() == 64,
{
    let digest = sha256_digest(key.as_bytes());
    proof {
        lemma_hex_of_len(digest@);
    }
    hex_encode(digest.as_slice())
}

// ==================== expiry arithmetic ====================

/// Whole days from `now` until `exp`, rounded toward zero, negative once
/// the expiry has passed.
pub open spec fn spec_days_remaining(exp: int, now: int) -> int {
    if exp >= now {
        (exp - now) / 86400
    } else {
        -((now - exp) / 86400)
    }
}

/// A stored expiry is live while `now` has not reached it; no expiry means
/// valid forever.
pub open spec fn spec_license_valid(expires_at: Option<i64>, now: int) -> bool {
    match expires_at {
        Some(e) => now < e,
        None => true,
    }
}

/// Days until an expiry, computed against the supplied clock.
pub fn days_remaining(exp: i64, now: i64) -> (d: i64)
    ensures
        d as int == spec_days_remaining(exp as int, now as int),
{
    if exp >= now {
        let diff: u64 = (exp as i128 - now as i128) as u64;
        let days: u64 = diff / 86400;
        proof {
            vstd::arithmetic::div_mod::lemma_div_is_ordered(
                diff as int,
                0xFFFF_FFFF_FFFF_FFFFu64 as int,
                86400,
            );
        }
        days as i64
    } else {
        let diff: u64 = (now as i128 - exp as i128) as u64;
        let days: u64 = diff / 86400;
        proof {
            vstd::arithmetic::div_mod::lemma_div_is_ordered(
                diff as int,
                0xFFFF_FFFF_FFFF_FFFFu64 as int,
                86400,
            );
        }
        -(days as i64)
    }
}

/// The days-remaining field a status must carry for a given expiry and
/// clock: absent for a perpetual license, else the rounded day count.
pub open spec fn days_match(expires_at: Option<i64>, now: i64, dr: Option<i64>) -> bool {
    match expires_at {
        Some(e) => dr matches Some(d) && d as int == spec_days_remaining(e as int, now as int),
        None => dr is None,
    }
}

fn opt_days_remaining(expires_at: Option<i64>, now: i64) -> (r: Option<i64>)
    ensures
        days_match(expires_at, now, r),
{
    match expires_at {
        Some(e) => Some(days_remaining(e, now)),
        None => None,
    }
}

// ==================== live status ====================

/// What a status read must report for a stored record (or its absence) at
/// a given clock value.
pub open spec fn status_matches(lic: Option<LicenseKey>, now: i64, st: LicenseStatus) -> bool {
    match lic {
        None => {
            &&& st.is_activated == false
            &&& st.is_valid == false
            &&& st.expires_at is None
            &&& st.email is None
            &&& st.days_remaining is None
            &&& st.license_type is None
            &&& st.error_message matches Some(m) && m@ == "No license found"@
        },
        Some(l) => {
            &&& st.is_activated == true
            &&& st.is_valid == spec_license_valid(l.expires_at, now as int)
            &&& st.expires_at == l.expires_at
            &&& st.email == Some(l.email)
            &&& days_match(l.expires_at, now, st.days_remaining)
            &&& st.license_type == Some(l.license_type)
            &&& st.error_message is None
        },
    }
}

/// Derive the live status from the stored record and the supplied clock;
/// the remote server is not consulted.  With no record stored the status
/// reports not-activated and carries a message; validity is recomputed on
/// every read.
pub fn check_license_status(db: &Database, now: i64) -> (st: LicenseStatus)
    ensures
        status_matches(db@.license, now, st),
{
    match db.get_active_license() {
        Some(license) => {
            let is_valid = match license.expires_at {
                Some(e) => now < e,
                None => true,
            };
            let days = opt_days_remaining(license.expires_at, now);
            LicenseStatus {
                is_activated: true,
                is_valid,
                expires_at: license.expires_at,
                email: Some(license.email),
                days_remaining: days,
                license_type: Some(license.license_type),
                error_message: None,
            }
        },
        None => LicenseStatus {
            is_activated: false,
            is_valid: false,
            expires_at: None,
            email: None,
            days_remaining: None,
            license_type: None,
            error_message: Some("No license found".to_owned()),
        },
    }
}

/// An expiry at or before the clock reads as invalid; a missing expiry
/// reads as valid whatever the clock; a missing record reads as
/// not-activated, with a message.
pub proof fn lemma_status_validity(lic: Option<LicenseKey>, now: i64, st: LicenseStatus)
    requires
        status_matches(lic, now, st),
    ensures
        (lic matches Some(l) && l.expires_at matches Some(e) && e <= now) ==> !st.is_valid,
        (lic matches Some(l) && l.expires_at is None) ==> st.is_valid,
        lic is None ==> !st.is_activated && st.error_message is Some,
{
}

// ==================== activation ====================

/// Fold the remote server's verdict into the store.  On `valid == false`
/// nothing is written and the returned status carries the server's error;
/// on `valid == true` a fresh record — the key's digest, the server's
/// email and license type, the fingerprint, the clock as activation time —
/// replaces any stored one, and the returned status reports an activated,
/// valid license.
pub fn apply_validation_response(
    db: &mut Database,
    key: &str,
    response: &LicenseValidationResponse,
    machine_fingerprint: String,
    now: i64,
) -> (st: LicenseStatus)
    requires
        old(db).wf(),
    ensures
        final(db).wf(),
        st.expires_at == response.expires_at,
        st.email == Some(response.user_email),
        st.license_type == Some(response.license_type),
        days_match(response.expires_at, now, st.days_remaining),
        !response.valid ==> {
            &&& final(db)@ == old(db)@
            &&& st.is_activated == false
            &&& st.is_valid == false
            &&& st.error_message == response.error
        },
        response.valid ==> {
            &&& final(db)@ == (StoreView { license: final(db)@.license, ..old(db)@ })
            &&& final(db)@.license matches Some(lk) && {
                &&& lk.key_hash@ == hex_of(sha256_of(key.spec_bytes()))
                &&& lk.email == response.user_email
                &&& lk.machine_fingerprint == machine_fingerprint
                &&& lk.activated_at == now
                &&& lk.expires_at == response.expires_at
                &&& lk.is_active == true
                &&& lk.license_type == response.license_type
            }
            &&& st.is_activated == true
            &&& st.is_valid == true
            &&& st.error_message is None
        },
{
    if !response.valid {
        return LicenseStatus {
            is_activated: false,
            is_valid: false,
            expires_at: response.expires_at,
            email: Some(response.user_email.clone()),
            days_remaining: opt_days_remaining(response.expires_at, now),
            license_type: Some(response.license_type.clone()),
            error_message: dup_opt_string(&response.error),
        };
    }
    let license = LicenseKey {
        key_hash: hash_license_key(key),
        email: response.user_email.clone(),
        machine_fingerprint,
        activated_at: now,
        expires_at: response.expires_at,
        is_active: true,
        license_type: response.license_type.clone(),
    };
    db.save_license(&license);
    LicenseStatus {
        is_activated: true,
        is_valid: true,
        expires_at: response.expires_at,
        email: Some(response.user_email.clone()),
        days_remaining: opt_days_remaining(response.expires_at, now),
        license_type: Some(response.license_type.clone()),
        error_message: None,
    }
}

} // verus!
