use openid_rp::response_nonce::{ResponseNonce, ResponseNonceError, NONCE_MAX_AGE_MS};

const NONCE: &str = "2023-09-15T11:23:46Z7RPb74voq1sqY2sKMcnOe/rxwQg=";

fn expected_nonce() -> ResponseNonce {
    let time = chrono::NaiveDate::from_ymd_opt(2023, 9, 15)
        .expect("invalid y-m-d")
        .and_hms_opt(11, 23, 46)
        .expect("invalid h-m-s")
        .and_utc();
    ResponseNonce { time: time.timestamp_millis(), salt: "7RPb74voq1sqY2sKMcnOe/rxwQg=".to_string() }
}

#[test]
fn nonce_from_str_works() {
    let parsed = ResponseNonce::from_str(NONCE).expect("deserialization failed");
    let expected = expected_nonce();

    assert_eq!(parsed.time, expected.time);
    assert_eq!(parsed.salt, expected.salt);
    assert_eq!(parsed.time, 1_694_777_026_000);
}

#[test]
fn nonce_to_string_works() {
    let serialized = expected_nonce().to_string();

    assert_eq!(serialized.as_deref(), Some(NONCE));
}

#[test]
fn nonce_with_offset_is_read_as_utc() {
    let parsed = ResponseNonce::from_str("2023-09-15T11:23:46Zsalt").expect("parsing failed");
    assert_eq!(parsed.time, 1_694_777_026_000);
    assert_eq!(parsed.as_salt(), "salt");
}

#[test]
fn nonce_salt_starts_behind_the_first_z() {
    let parsed = ResponseNonce::from_str("2023-09-15T11:23:46ZZZ").expect("parsing failed");
    assert_eq!(parsed.as_salt(), "ZZ");
}

#[test]
fn nonce_errors() {
    assert_eq!(ResponseNonce::from_str(""), Err(ResponseNonceError::MissingTime));
    assert_eq!(
        ResponseNonce::from_str("2023-09-15T11:23:46"),
        Err(ResponseNonceError::MissingTime)
    );
    assert_eq!(
        ResponseNonce::from_str("2023-09-15T11:23:46Z"),
        Err(ResponseNonceError::MissingSalt)
    );
    assert_eq!(ResponseNonce::from_str("yesterdayZsalt"), Err(ResponseNonceError::InvalidTime));
    assert_eq!(ResponseNonce::from_str("Zsalt"), Err(ResponseNonceError::InvalidTime));
}

#[test]
fn nonce_length_limit_is_255_characters() {
    let prefix = "2023-09-15T11:23:46Z";
    let at_limit = format!("{}{}", prefix, "s".repeat(255 - prefix.len()));
    assert_eq!(at_limit.chars().count(), 255);
    assert!(ResponseNonce::from_str(&at_limit).is_ok());
    let over = format!("{}s", at_limit);
    assert_eq!(ResponseNonce::from_str(&over), Err(ResponseNonceError::TooLong));
    let long_and_bad = "x".repeat(300);
    assert_eq!(ResponseNonce::from_str(&long_and_bad), Err(ResponseNonceError::TooLong));
}

#[test]
fn nonce_is_fresh_for_thirty_seconds() {
    assert_eq!(NONCE_MAX_AGE_MS, 30_000);
    let nonce = ResponseNonce::new("salt".to_string(), 1_000_000);
    assert!(!nonce.is_expired_at(1_000_000));
    assert!(!nonce.is_expired_at(1_010_000));
    assert!(!nonce.is_expired_at(1_030_000));
    assert!(nonce.is_expired_at(1_030_001));
    assert!(nonce.is_expired_at(1_040_000));
    assert!(!nonce.is_expired_at(999_000));
}

#[test]
fn nonce_age_limit_can_be_chosen() {
    let nonce = ResponseNonce::new("salt".to_string(), 0);
    assert!(nonce.is_older_than(11, 10));
    assert!(!nonce.is_older_than(10, 10));
    assert!(!nonce.is_older_than(i64::MIN, i64::MAX));
    let nonce = ResponseNonce::new("salt".to_string(), i64::MIN);
    assert!(nonce.is_older_than(i64::MAX, i64::MAX));
}

#[test]
fn nonce_of_now_is_not_expired() {
    let now = chrono::Utc::now().timestamp_millis();
    assert!(!ResponseNonce::new("salt".to_string(), now).is_expired());
    assert!(ResponseNonce::new("salt".to_string(), now - 40_000).is_expired());
    assert!(!ResponseNonce::new("salt".to_string(), now - 10_000).is_expired());
}

#[test]
fn nonce_out_of_the_calendar_is_not_written() {
    assert_eq!(ResponseNonce::new("salt".to_string(), i64::MAX).to_string(), None);
    assert_eq!(
        ResponseNonce::new("salt".to_string(), 0).to_string().as_deref(),
        Some("1970-01-01T00:00:00Zsalt")
    );
}

#[test]
fn nonce_is_its_time_and_then_its_salt() {
    let nonce = ResponseNonce::new("salt".to_string(), 0);
    assert_eq!(nonce.write_after("2001-02-03T04:05:06Z".to_string()), "2001-02-03T04:05:06Zsalt");
    assert_eq!(nonce.write_after(String::new()), "salt");
    assert_eq!(
        ResponseNonce::split("2001-02-03T04:05:06Zsalt"),
        Ok(("2001-02-03T04:05:06Z".to_string(), "salt".to_string()))
    );
    assert_eq!(ResponseNonce::split("Za"), Ok(("Z".to_string(), "a".to_string())));
    assert_eq!(ResponseNonce::split("aZ"), Err(ResponseNonceError::MissingSalt));
}
