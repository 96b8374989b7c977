use openid_rp::constants::OPENID_AUTH_NAMESPACE;
use openid_rp::provider::{parse_xml, Provider};
use openid_rp::xml_util::DiscoveryError;

const EXAMPLE: &str = r#"<?xml version="1.0" encoding="UTF-8"?>
<xrds:XRDS xmlns:xrds="xri://$xrds" xmlns="xri://$xrd*($v*2.0)">
    <XRD>
        <Service priority="0">
            <Type>http://specs.openid.net/auth/2.0/server</Type>
            <URI>https://steamcommunity.com/openid/login</URI>
        </Service>
    </XRD>
</xrds:XRDS>"#;

fn document(services: &str) -> String {
    format!(
        "<xrds:XRDS xmlns:xrds=\"xri://$xrds\" xmlns=\"xri://$xrd*($v*2.0)\"><XRD>{}</XRD></xrds:XRDS>",
        services
    )
}

fn service(priority: &str, kind: &str, uri: &str) -> String {
    format!(
        "<Service priority=\"{}\"><Type>{}</Type><URI>{}</URI></Service>",
        priority, kind, uri
    )
}

const SERVER: &str = "http://specs.openid.net/auth/2.0/server";

#[test]
fn provider_parse_steam_response() {
    let provider = Provider::from_xml(EXAMPLE).expect("discovery failed");
    let service = provider.service;

    assert_eq!(service.version, OPENID_AUTH_NAMESPACE);
    assert_eq!(service.endpoint, "https://steamcommunity.com/openid/login");
    assert_eq!(service.local_id, None);
    assert_eq!(service.priority, Some(0));
}

#[test]
fn xml_parse_steam_response() {
    let provider = parse_xml(EXAMPLE).expect("discovery failed");
    assert_eq!(provider.version(), OPENID_AUTH_NAMESPACE);
    assert_eq!(provider.endpoint(), "https://steamcommunity.com/openid/login");
}

#[test]
fn lowest_priority_wins() {
    let xml = document(&format!(
        "{}{}",
        service("5", SERVER, "https://five.example/login"),
        service("0", SERVER, "https://zero.example/login")
    ));
    let provider = Provider::from_xml(&xml).expect("discovery failed");
    assert_eq!(provider.endpoint(), "https://zero.example/login");
    assert_eq!(provider.service.priority, Some(0));
}

#[test]
fn lowest_priority_wins_whatever_the_order() {
    let xml = document(&format!(
        "{}{}{}",
        service("-3", SERVER, "https://minus.example/login"),
        service("5", SERVER, "https://five.example/login"),
        service("0", SERVER, "https://zero.example/login")
    ));
    let provider = Provider::from_xml(&xml).expect("discovery failed");
    assert_eq!(provider.endpoint(), "https://minus.example/login");
}

#[test]
fn equal_priority_keeps_the_first() {
    let xml = document(&format!(
        "{}{}",
        service("1", SERVER, "https://first.example/login"),
        service("1", SERVER, "https://second.example/login")
    ));
    let provider = Provider::from_xml(&xml).expect("discovery failed");
    assert_eq!(provider.endpoint(), "https://first.example/login");
}

const SIGNON: &str = "http://specs.openid.net/auth/2.0/signon";

#[test]
fn service_of_another_type_is_an_error() {
    let xml = document(&service("0", SIGNON, "https://signon.example/login"));
    assert_eq!(Provider::from_xml(&xml), Err(DiscoveryError::WrongServiceType));
    let xml = document(&service("0", "", "https://signon.example/login"));
    assert_eq!(Provider::from_xml(&xml), Err(DiscoveryError::NoChildren));
    let xml = document(&service("0", &format!("{} ", SERVER), "https://idp.example/login"));
    assert_eq!(Provider::from_xml(&xml), Err(DiscoveryError::WrongServiceType));
}

#[test]
fn one_service_of_another_type_spoils_the_document() {
    let good = service("7", SERVER, "https://server.example/login");
    let foreign = service("0", SIGNON, "https://signon.example/login");
    for services in [format!("{}{}", foreign, good), format!("{}{}", good, foreign)] {
        assert_eq!(
            Provider::from_xml(&document(&services)),
            Err(DiscoveryError::WrongServiceType)
        );
    }
}

#[test]
fn texts_are_read_before_the_type_is_judged() {
    let xml = document(&format!(
        "<Service priority=\"0\"><Type>{}</Type><URI/></Service>",
        SIGNON
    ));
    assert_eq!(Provider::from_xml(&xml), Err(DiscoveryError::NoChildren));
    let xml = document(&format!(
        "<Service priority=\"0\"><Type>{}</Type><URI>a<x/>b</URI></Service>",
        SIGNON
    ));
    assert_eq!(Provider::from_xml(&xml), Err(DiscoveryError::TooManyChildren));
}

#[test]
fn one_bad_service_spoils_the_document() {
    let good = service("1", SERVER, "https://server.example/login");
    let bad = service("x", SERVER, "https://other.example/login");
    for services in [format!("{}{}", bad, good), format!("{}{}", good, bad)] {
        assert_eq!(
            Provider::from_xml(&document(&services)),
            Err(DiscoveryError::InvalidPriority)
        );
    }
}

#[test]
fn missing_xrds_namespace_is_an_error() {
    let xml = format!(
        "<XRDS xmlns=\"xri://$xrd*($v*2.0)\"><XRD>{}</XRD></XRDS>",
        service("0", SERVER, "https://idp.example/login")
    );
    assert_eq!(Provider::from_xml(&xml), Err(DiscoveryError::NamespaceCount));
}

#[test]
fn wrong_namespace_uri_is_an_error() {
    let xml = format!(
        "<xrds:XRDS xmlns:xrds=\"xri://$other\" xmlns=\"xri://$xrd*($v*2.0)\"><XRD>{}</XRD></xrds:XRDS>",
        service("0", SERVER, "https://idp.example/login")
    );
    assert_eq!(Provider::from_xml(&xml), Err(DiscoveryError::NamespaceMismatch));
}

#[test]
fn extra_namespace_is_an_error() {
    let xml = format!(
        "<xrds:XRDS xmlns:xrds=\"xri://$xrds\" xmlns:x=\"urn:x\" xmlns=\"xri://$xrd*($v*2.0)\"><XRD>{}</XRD></xrds:XRDS>",
        service("0", SERVER, "https://idp.example/login")
    );
    assert_eq!(Provider::from_xml(&xml), Err(DiscoveryError::NamespaceCount));
}

#[test]
fn malformed_xml_is_an_error() {
    assert_eq!(Provider::from_xml("<XRD>"), Err(DiscoveryError::Malformed));
    assert_eq!(Provider::from_xml(""), Err(DiscoveryError::Malformed));
}

#[test]
fn two_xrd_elements_are_an_error() {
    let xml = "<xrds:XRDS xmlns:xrds=\"xri://$xrds\" xmlns=\"xri://$xrd*($v*2.0)\"><XRD/><XRD/></xrds:XRDS>";
    assert_eq!(Provider::from_xml(xml), Err(DiscoveryError::TooManyChildren));
}

#[test]
fn no_service_is_an_error() {
    assert_eq!(Provider::from_xml(&document("")), Err(DiscoveryError::NoService));
}

#[test]
fn missing_priority_is_an_error() {
    let xml = document(&format!(
        "<Service><Type>{}</Type><URI>https://idp.example/login</URI></Service>",
        SERVER
    ));
    assert_eq!(Provider::from_xml(&xml), Err(DiscoveryError::MissingPriority));
}

#[test]
fn priority_that_is_no_number_is_an_error() {
    let xml = document(&service("high", SERVER, "https://idp.example/login"));
    assert_eq!(Provider::from_xml(&xml), Err(DiscoveryError::InvalidPriority));
    let xml = document(&service("2147483648", SERVER, "https://idp.example/login"));
    assert_eq!(Provider::from_xml(&xml), Err(DiscoveryError::InvalidPriority));
}

#[test]
fn service_with_a_third_child_is_an_error() {
    let xml = document(&format!(
        "<Service priority=\"0\"><Type>{}</Type><URI>https://idp.example/login</URI><LocalID>x</LocalID></Service>",
        SERVER
    ));
    assert_eq!(Provider::from_xml(&xml), Err(DiscoveryError::UnexpectedChildCount));
}

#[test]
fn service_with_two_types_is_an_error() {
    let xml = document(&format!(
        "<Service priority=\"0\"><Type>{}</Type><Type>{}</Type></Service>",
        SERVER, SERVER
    ));
    assert_eq!(Provider::from_xml(&xml), Err(DiscoveryError::UnexpectedTag));
}

#[test]
fn type_without_text_is_an_error() {
    let xml = document(
        "<Service priority=\"0\"><Type/><URI>https://idp.example/login</URI></Service>",
    );
    assert_eq!(Provider::from_xml(&xml), Err(DiscoveryError::NoChildren));
}

#[test]
fn element_that_is_no_service_is_an_error() {
    let xml = document("<Other priority=\"0\"/>");
    assert_eq!(Provider::from_xml(&xml), Err(DiscoveryError::UnexpectedTag));
}

#[test]
fn steam_is_what_its_document_says() {
    let steam = Provider::steam();
    assert_eq!(steam.endpoint(), "https://steamcommunity.com/openid/login");
    assert_eq!(steam.version(), "http://specs.openid.net/auth/2.0/server");
    assert_eq!(steam.service.priority, Some(0));
}
