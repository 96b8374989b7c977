use openid_rp::params::{
    auth_url_with_nonce, make_auth_req_params, make_auth_req_url, same_origin, Params, ParsedUrl,
    UrlError,
};
use openid_rp::provider::{Provider, Service};

fn sorted_query_pairs(url: &str) -> (url::Url, Vec<(String, String)>) {
    let url = url::Url::parse(url).expect("couldn't parse url");
    let mut query: Vec<_> =
        url.query_pairs().map(|(k, v)| (k.to_string(), v.to_string())).collect();
    query.sort_unstable_by(|(lhs, _), (rhs, _)| lhs.cmp(rhs));
    (url, query)
}

fn provider_at(endpoint: &str) -> Provider {
    Provider {
        service: Service {
            version: "http://specs.openid.net/auth/2.0".to_string(),
            endpoint: endpoint.to_string(),
            local_id: None,
            priority: Some(0),
        },
    }
}

#[test]
fn test_make_auth_req_url() {
    const REALM: &str = "http://localhost:3000/";
    const RETURN_TO: &str = "http://localhost:3000/auth/steam/callback/";
    const EXPECTED_URL: &str = "https://steamcommunity.com/openid/login?openid.mode=checkid_setup&openid.ns=http%3A%2F%2Fspecs.openid.net%2Fauth%2F2.0&openid.identity=http%3A%2F%2Fspecs.openid.net%2Fauth%2F2.0%2Fidentifier_select&openid.claimed_id=http%3A%2F%2Fspecs.openid.net%2Fauth%2F2.0%2Fidentifier_select&openid.return_to=http%3A%2F%2Flocalhost%3A3000%2Fauth%2Fsteam%2Fcallback%2F&openid.realm=http%3A%2F%2Flocalhost%3A3000%2F";

    let provider = Provider::steam();

    let url = make_auth_req_url(&provider, REALM, RETURN_TO).expect("no url");

    let (expected_url, expected_query) = sorted_query_pairs(EXPECTED_URL);
    let (url, query) = sorted_query_pairs(&url);

    assert_eq!(query.len(), expected_query.len());
    std::iter::zip(query.into_iter(), expected_query.into_iter()).for_each(
        |((actual_key, actual_value), (expected_key, expected_value))| {
            assert_eq!(
                actual_key, expected_key,
                "actual key (left) doesn't match expected (right)"
            );
            assert_eq!(
                actual_value, expected_value,
                "actual value (left) doesn't match expected (right) for keys actual `{}`, expected `{}`",
                actual_key, expected_key
            );
        },
    );

    assert_eq!(url.origin(), expected_url.origin());
}

#[test]
fn auth_request_is_spelled_out() {
    let url = make_auth_req_url(
        &provider_at("https://idp.example/openid/login"),
        "http://localhost:8080",
        "http://localhost:8080/callback",
    );
    assert_eq!(
        url.as_deref(),
        Ok("https://idp.example/openid/login?openid.mode=checkid_setup&openid.ns=http%3A%2F%2Fspecs.openid.net%2Fauth%2F2.0&openid.identity=http%3A%2F%2Fspecs.openid.net%2Fauth%2F2.0%2Fidentifier_select&openid.claimed_id=http%3A%2F%2Fspecs.openid.net%2Fauth%2F2.0%2Fidentifier_select&openid.realm=http%3A%2F%2Flocalhost%3A8080%2F&openid.return_to=http%3A%2F%2Flocalhost%3A8080%2Fcallback")
    );
}

#[test]
fn return_to_carries_the_token() {
    let provider = provider_at("https://idp.example/openid/login");
    let url =
        auth_url_with_nonce(&provider, "http://localhost:8080", "http://localhost:8080/callback", "t0k-en_")
            .expect("no url");
    let (url, query) = sorted_query_pairs(&url);
    assert_eq!(url.origin(), url::Url::parse("https://idp.example").expect("no url").origin());
    assert_eq!(url.path(), "/openid/login");
    let return_to = query
        .iter()
        .find(|(k, _)| k == "openid.return_to")
        .map(|(_, v)| v.clone())
        .expect("no return_to");
    assert_eq!(return_to, "http://localhost:8080/callback?custom_nonce=t0k-en_");
    let realm = query.iter().find(|(k, _)| k == "openid.realm").map(|(_, v)| v.clone());
    assert_eq!(realm.as_deref(), Some("http://localhost:8080/"));
    let mode = query.iter().find(|(k, _)| k == "openid.mode").map(|(_, v)| v.clone());
    assert_eq!(mode.as_deref(), Some("checkid_setup"));
}

#[test]
fn realm_and_return_to_must_share_host_and_scheme() {
    let provider = Provider::steam();
    assert_eq!(
        make_auth_req_url(&provider, "http://localhost:3000/", "http://example.com/callback"),
        Err(UrlError::HostMismatch)
    );
    assert_eq!(
        make_auth_req_url(&provider, "https://localhost/", "http://localhost/callback"),
        Err(UrlError::SchemeMismatch)
    );
    assert_eq!(
        make_auth_req_url(&provider, "http://localhost:1/", "http://localhost:2/callback")
            .is_ok(),
        true
    );
}

#[test]
fn urls_must_be_urls() {
    let provider = Provider::steam();
    assert_eq!(
        make_auth_req_url(&provider, "http://localhost/", "/callback"),
        Err(UrlError::InvalidReturnTo)
    );
    assert_eq!(
        make_auth_req_url(&provider, "localhost", "http://localhost/callback"),
        Err(UrlError::InvalidRealm)
    );
    assert_eq!(
        make_auth_req_url(&provider, "http://localhost/", "mailto:a@localhost"),
        Err(UrlError::MissingReturnToHost)
    );
    assert_eq!(
        make_auth_req_url(&provider, "mailto:a@localhost", "http://localhost/callback"),
        Err(UrlError::MissingRealmHost)
    );
    assert_eq!(
        make_auth_req_url(&provider_at("no endpoint"), "http://localhost/", "http://localhost/c"),
        Err(UrlError::InvalidEndpoint)
    );
    assert_eq!(
        auth_url_with_nonce(&provider, "http://localhost/", "callback", "n"),
        Err(UrlError::InvalidReturnTo)
    );
}

fn parsed(scheme: &str, host: Option<&str>) -> ParsedUrl {
    ParsedUrl { scheme: scheme.to_string(), host: host.map(|h| h.to_string()), href: String::new() }
}

#[test]
fn same_origin_compares_host_then_scheme() {
    assert_eq!(same_origin(&parsed("http", Some("a")), &parsed("http", Some("a"))), Ok(()));
    assert_eq!(
        same_origin(&parsed("http", Some("a")), &parsed("https", Some("b"))),
        Err(UrlError::HostMismatch)
    );
    assert_eq!(
        same_origin(&parsed("http", Some("a")), &parsed("https", Some("a"))),
        Err(UrlError::SchemeMismatch)
    );
    assert_eq!(
        same_origin(&parsed("http", None), &parsed("http", None)),
        Err(UrlError::MissingReturnToHost)
    );
    assert_eq!(
        same_origin(&parsed("http", None), &parsed("http", Some("a"))),
        Err(UrlError::MissingRealmHost)
    );
}

#[test]
fn auth_request_params_in_order() {
    let params: Vec<(&str, &str)> =
        make_auth_req_params("r", "t").into_iter().map(Params::into_pair).collect();
    assert_eq!(
        params,
        vec![
            ("openid.mode", "checkid_setup"),
            ("openid.ns", "http://specs.openid.net/auth/2.0"),
            ("openid.identity", "http://specs.openid.net/auth/2.0/identifier_select"),
            ("openid.claimed_id", "http://specs.openid.net/auth/2.0/identifier_select"),
            ("openid.realm", "r"),
            ("openid.return_to", "t"),
        ]
    );
    assert_eq!(Params::new("k", "v").into_pair(), ("k", "v"));
}
