use openid_rp::comma_separated::CommaSeparated;
use openid_rp::constants::OPENID_AUTH_NAMESPACE;
use openid_rp::key_values::de::Error;
use openid_rp::key_values::KeyValues;
use openid_rp::response::PositiveAssertion;
use openid_rp::response_nonce::ResponseNonce;
use openid_rp::validate::{check_authentication_request, VerifyResponse};

#[test]
fn key_value_deserialize() {
    const TEXT: &str = "ns:http://specs.openid.net/auth/2.0\nis_valid:true\n";

    let parsed = VerifyResponse::from_key_values(TEXT).expect("invalid key values");

    assert_eq!(parsed.is_valid, true);
    assert_eq!(parsed.namespace, OPENID_AUTH_NAMESPACE);
}

#[test]
fn verdict_that_is_not_valid_is_an_answer() {
    let parsed = VerifyResponse::from_key_values("is_valid:false\nns:x\n").expect("parsing failed");
    assert!(!parsed.is_valid());
    assert_eq!(parsed.namespace(), "x");
}

#[test]
fn verdict_passes_over_other_fields() {
    let text = "ns:x\ninvalidate_handle:abc:def\nis_valid:true\n";
    let parsed = VerifyResponse::from_key_values(text).expect("parsing failed");
    assert!(parsed.is_valid());
    assert_eq!(parsed.namespace(), "x");
}

fn message(r: Result<VerifyResponse, Error>) -> String {
    match r {
        Err(Error::Message(m)) => m,
        other => panic!("expected a message, found {:?}", other),
    }
}

#[test]
fn verdict_needs_both_fields() {
    assert_eq!(message(VerifyResponse::from_key_values("")), "missing field `ns`");
    assert_eq!(message(VerifyResponse::from_key_values("is_valid:true\n")), "missing field `ns`");
    assert_eq!(message(VerifyResponse::from_key_values("ns:x\n")), "missing field `is_valid`");
}

#[test]
fn verdict_keeps_the_last_value_of_a_field() {
    let parsed = VerifyResponse::from_key_values("ns:x\nis_valid:true\nis_valid:false\n")
        .expect("parsing failed");
    assert!(!parsed.is_valid());
    let parsed = VerifyResponse::from_key_values("ns:x\nns:y\nis_valid:maybe\nis_valid:true\n")
        .expect("parsing failed");
    assert!(parsed.is_valid());
    assert_eq!(parsed.namespace(), "y");
}

#[test]
fn verdict_is_read_out_of_a_map() {
    let mut map = KeyValues::new();
    assert_eq!(message(VerifyResponse::from_map(&map)), "missing field `ns`");
    map.insert("is_valid".to_string(), "false".to_string());
    assert_eq!(message(VerifyResponse::from_map(&map)), "missing field `ns`");
    map.insert("ns".to_string(), "x".to_string());
    assert_eq!(
        VerifyResponse::from_map(&map).map_err(|e| e.message()),
        Ok(VerifyResponse { namespace: "x".to_string(), is_valid: false })
    );
    map.insert("is_valid".to_string(), "1".to_string());
    assert!(matches!(VerifyResponse::from_map(&map), Err(Error::ParseBool)));
}

#[test]
fn verdict_must_be_a_truth_value() {
    let parsed = VerifyResponse::from_key_values("ns:x\nis_valid:yes\n");
    assert!(matches!(parsed, Err(Error::ParseBool)));
}

#[test]
fn verdict_must_be_well_framed() {
    assert!(matches!(
        VerifyResponse::from_key_values("ns:x\nis_valid:true"),
        Err(Error::ExpectedNewline)
    ));
    assert!(matches!(
        VerifyResponse::from_key_values("ns:x\nis_valid:true\n\n"),
        Err(Error::ExpectedColon)
    ));
    assert!(matches!(VerifyResponse::from_key_values("ns"), Err(Error::ExpectedColon)));
    assert!(matches!(
        VerifyResponse::from_key_values("ns\nis_valid:true\n"),
        Err(Error::ExpectedColon)
    ));
}

fn assertion() -> PositiveAssertion {
    PositiveAssertion {
        namespace: OPENID_AUTH_NAMESPACE.to_string(),
        mode: "id_res".to_string(),
        op_endpoint: "https://steamcommunity.com/openid/login".to_string(),
        claimed_id: "https://steamcommunity.com/openid/id/76561198181282063".to_string(),
        identity: "https://steamcommunity.com/openid/id/76561198181282063".to_string(),
        return_to: "http://localhost:3000/auth/steam/callback/".to_string(),
        nonce: ResponseNonce::new("salt".to_string(), 1_694_777_026_000),
        association_handle: "1234567890".to_string(),
        signed_fields: CommaSeparated::new(vec!["signed".to_string()]),
        signature: "sig".to_string(),
    }
}

#[test]
fn check_authentication_changes_the_mode_only() {
    let received = assertion();
    let request = check_authentication_request(&received);
    assert_eq!(request.mode, "check_authentication");
    let mut expected = received.clone();
    expected.mode = "check_authentication".to_string();
    assert_eq!(request, expected);
    assert_eq!(received.mode, "id_res");
}

#[test]
fn set_mode_overwrites() {
    let mut a = assertion();
    a.set_mode("x");
    assert_eq!(a.mode, "x");
    a.set_mode("");
    assert_eq!(a.mode, "");
}
