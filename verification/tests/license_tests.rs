use tpv_store::database::Database;
use tpv_store::license::{
    apply_validation_response, check_license_status, days_remaining, hash_license_key,
    LicenseKey, LicenseValidationRequest, LicenseValidationResponse,
};

const NOW: i64 = 1_700_000_000;

fn stored_license(expires_at: Option<i64>) -> LicenseKey {
    LicenseKey {
        key_hash: hash_license_key("GOODKEY"),
        email: "a@b.com".to_string(),
        machine_fingerprint: "00:11:22:33:44:55".to_string(),
        activated_at: NOW - 1000,
        expires_at,
        is_active: true,
        license_type: "pro".to_string(),
    }
}

fn rejection(error: &str) -> LicenseValidationResponse {
    LicenseValidationResponse {
        valid: false,
        expires_at: None,
        user_email: "a@b.com".to_string(),
        license_type: String::new(),
        error: Some(error.to_string()),
    }
}

#[test]
fn hash_license_key_matches_known_digests() {
    assert_eq!(
        hash_license_key("abc"),
        "ba7816bf8f01cfea414140de5dae2223b00361a396177a9cb410ff61f20015ad"
    );
    assert_eq!(
        hash_license_key(""),
        "e3b0c44298fc1c149afbf4c8996fb92427ae41e4649b934ca495991b7852b855"
    );
}

#[test]
fn days_remaining_rounds_toward_zero() {
    assert_eq!(days_remaining(NOW + 5 * 86400 + 100, NOW), 5);
    assert_eq!(days_remaining(NOW + 86399, NOW), 0);
    assert_eq!(days_remaining(NOW, NOW), 0);
    assert_eq!(days_remaining(NOW - 1, NOW), 0);
    assert_eq!(days_remaining(NOW - 86400, NOW), -1);
}

#[test]
fn status_reports_expired_license_as_invalid() {
    let mut db = Database::new();
    db.save_license(&stored_license(Some(NOW - 1)));
    let st = check_license_status(&db, NOW);
    assert!(st.is_activated);
    assert!(!st.is_valid);
    assert_eq!(st.expires_at, Some(NOW - 1));
    assert_eq!(st.days_remaining, Some(0));
    assert_eq!(st.email.as_deref(), Some("a@b.com"));
}

#[test]
fn status_reports_perpetual_license_as_valid() {
    let mut db = Database::new();
    db.save_license(&stored_license(None));
    let st = check_license_status(&db, NOW + 1_000_000_000);
    assert!(st.is_activated);
    assert!(st.is_valid);
    assert_eq!(st.expires_at, None);
    assert_eq!(st.days_remaining, None);
    assert_eq!(st.error_message, None);
}

#[test]
fn status_without_a_record_reports_not_activated() {
    let db = Database::new();
    let st = check_license_status(&db, NOW);
    assert!(!st.is_activated);
    assert!(!st.is_valid);
    assert_eq!(st.error_message.as_deref(), Some("No license found"));
}

#[test]
fn status_counts_remaining_days() {
    let mut db = Database::new();
    db.save_license(&stored_license(Some(NOW + 30 * 86400)));
    let st = check_license_status(&db, NOW);
    assert!(st.is_valid);
    assert_eq!(st.days_remaining, Some(30));
}

#[test]
fn rejected_activation_writes_nothing() {
    let mut db = Database::new();
    let st = apply_validation_response(
        &mut db,
        "BADKEY",
        &rejection("not found"),
        "00:11:22:33:44:55".to_string(),
        NOW,
    );
    assert!(!st.is_activated);
    assert!(!st.is_valid);
    assert_eq!(st.error_message.as_deref(), Some("not found"));
    let follow_up = check_license_status(&db, NOW);
    assert!(!follow_up.is_activated);
    assert!(db.get_active_license().is_none());
}

#[test]
fn accepted_activation_persists_a_record() {
    let mut db = Database::new();
    let response = LicenseValidationResponse {
        valid: true,
        expires_at: Some(NOW + 30 * 86400),
        user_email: "a@b.com".to_string(),
        license_type: "pro".to_string(),
        error: None,
    };
    let st = apply_validation_response(
        &mut db,
        "GOODKEY",
        &response,
        "00:11:22:33:44:55".to_string(),
        NOW,
    );
    assert!(st.is_activated);
    assert!(st.is_valid);
    assert_eq!(st.days_remaining, Some(30));
    assert_eq!(st.error_message, None);
    let record = db.get_active_license().unwrap();
    assert_eq!(record.key_hash, hash_license_key("GOODKEY"));
    assert_eq!(record.email, "a@b.com");
    assert_eq!(record.machine_fingerprint, "00:11:22:33:44:55");
    assert_eq!(record.activated_at, NOW);
    assert_eq!(record.expires_at, Some(NOW + 30 * 86400));
    assert!(record.is_active);
    let follow_up = check_license_status(&db, NOW);
    assert!(follow_up.is_activated);
    assert!(follow_up.is_valid);
}

#[test]
fn accepted_activation_replaces_the_previous_record() {
    let mut db = Database::new();
    db.save_license(&stored_license(Some(NOW - 1)));
    let response = LicenseValidationResponse {
        valid: true,
        expires_at: None,
        user_email: "new@b.com".to_string(),
        license_type: "enterprise".to_string(),
        error: None,
    };
    apply_validation_response(&mut db, "OTHERKEY", &response, "66:77".to_string(), NOW);
    let record = db.get_active_license().unwrap();
    assert_eq!(record.email, "new@b.com");
    assert_eq!(record.expires_at, None);
    assert_eq!(record.key_hash, hash_license_key("OTHERKEY"));
}

#[test]
fn validation_request_carries_its_fields() {
    let r = LicenseValidationRequest::new(
        "KEY".to_string(),
        "a@b.com".to_string(),
        "00:11".to_string(),
    );
    assert_eq!(r.key, "KEY");
    assert_eq!(r.email, "a@b.com");
    assert_eq!(r.machine_fingerprint, "00:11");
}
