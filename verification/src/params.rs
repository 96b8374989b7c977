//! The authentication request: the URL to which a user is sent to log in
//! with the provider.

use crate::constants::{CUSTOM_NONCE, OPENID_AUTH_NAMESPACE, OPENID_CLAIMED_ID,
    OPENID_IDENTIFIER_SELECT, OPENID_IDENTITY, OPENID_MODE, OPENID_MODE_CHECKID_SETUP,
    OPENID_NAMESPACE, OPENID_REALM, OPENID_RETURN_TO};
use crate::provider::Provider;
use crate::text::same_text;
use vstd::prelude::*;

verus! {

/// One parameter of a query.
#[derive(Debug, Clone, Copy, PartialEq, Eq)]
pub struct Params<'a> {
    key: &'a str,
    value: &'a str,
}

impl<'a> View for Params<'a> {
    type V = (Seq<char>, Seq<char>);

    closed spec fn view(&self) -> (Seq<char>, Seq<char>) {
        (self.key@, self.value@)
    }
}

impl<'a> Params<'a> {
    /// The parameter of the key `key` and the value `value`.
    pub fn new(key: &'a str, value: &'a str) -> (param: Params<'a>)
        ensures
            param@ == (key@, value@),
    {
        Params { key, value }
    }

    /// The key and the value.
    pub fn into_pair(self) -> (pair: (&'a str, &'a str))
        ensures
            (pair.0@, pair.1@) == self@,
    {
        (self.key, self.value)
    }
}

/// The texts of a list of parameters.
pub open spec fn params_view(params: Seq<Params>) -> Seq<(Seq<char>, Seq<char>)> {
    params.map_values(|p: Params| p@)
}

/// The texts of a list of pairs.
pub open spec fn pairs_view(pairs: Seq<(&str, &str)>) -> Seq<(Seq<char>, Seq<char>)> {
    pairs.map_values(|p: (&str, &str)| (p.0@, p.1@))
}

/// The parameters of an authentication request for the realm `realm` that
/// is to come back to `return_to`: the request may interact with the user,
/// speaks OpenID 2.0 and lets the provider choose the identifier.
pub open spec fn auth_request_params(realm: Seq<char>, return_to: Seq<char>) -> Seq<
    (Seq<char>, Seq<char>),
> {
    seq![
        (OPENID_MODE@, OPENID_MODE_CHECKID_SETUP@),
        (OPENID_NAMESPACE@, OPENID_AUTH_NAMESPACE@),
        (OPENID_IDENTITY@, OPENID_IDENTIFIER_SELECT@),
        (OPENID_CLAIMED_ID@, OPENID_IDENTIFIER_SELECT@),
        (OPENID_REALM@, realm),
        (OPENID_RETURN_TO@, return_to),
    ]
}

/// The parameters of an authentication request.
pub fn make_auth_req_params<'a>(realm: &'a str, return_to: &'a str) -> (params: Vec<Params<'a>>)
    ensures
        params_view(params@) == auth_request_params(realm@, return_to@),
{
    let mut params: Vec<Params<'a>> = Vec::new();
    params.push(Params::new(OPENID_MODE, OPENID_MODE_CHECKID_SETUP));
    params.push(Params::new(OPENID_NAMESPACE, OPENID_AUTH_NAMESPACE));
    params.push(Params::new(OPENID_IDENTITY, OPENID_IDENTIFIER_SELECT));
    params.push(Params::new(OPENID_CLAIMED_ID, OPENID_IDENTIFIER_SELECT));
    params.push(Params::new(OPENID_REALM, realm));
    params.push(Params::new(OPENID_RETURN_TO, return_to));
    assert(params_view(params@) =~= auth_request_params(realm@, return_to@));
    params
}

/// What this module reads off a URL.
#[derive(Debug, Clone, PartialEq, Eq)]
pub struct ParsedUrl {
    pub scheme: String,
    pub host: Option<String>,
    /// The URL in its normal form.
    pub href: String,
}

/// The mathematical value of a [`ParsedUrl`].
pub struct UrlView {
    pub scheme: Seq<char>,
    pub host: Option<Seq<char>>,
    pub href: Seq<char>,
}

impl View for ParsedUrl {
    type V = UrlView;

    open spec fn view(&self) -> UrlView {
        UrlView {
            scheme: self.scheme@,
            host: match self.host {
                Some(h) => Some(h@),
                None => None,
            },
            href: self.href@,
        }
    }
}

/// The URL that `text` is; `None` where it is none.
pub uninterp spec fn parsed_url(text: Seq<char>) -> Option<UrlView>;

/// The URL `base` with `params` appended to its query, each key and value
/// form-encoded; `None` where `base` is no URL.
pub uninterp spec fn url_with_query(base: Seq<char>, params: Seq<(Seq<char>, Seq<char>)>)
    -> Option<Seq<char>>;

/// `url::Url::parse`, read off with `Url::scheme`, `Url::host_str` and
/// `Url::as_str`: the URL of the text, and `None` where the url crate
/// rejects it.
#[verifier::external_body]
fn parse_url(text: &str) -> (url: Option<ParsedUrl>)
    ensures
        match url {
            Some(u) => parsed_url(text@) == Some(u@),
            None => parsed_url(text@) is None,
        },
{
    url::Url::parse(text).ok().map(
        |u|
            ParsedUrl {
                scheme: u.scheme().to_string(),
                host: u.host_str().map(|h| h.to_string()),
                href: u.as_str().to_string(),
            },
    )
}

/// `url::Url::parse_with_params`, as text: the URL with the parameters in
/// its query, and `None` where the url crate rejects `base`.
#[verifier::external_body]
fn append_query(base: &str, params: &Vec<(&str, &str)>) -> (url: Option<String>)
    ensures
        match url {
            Some(u) => url_with_query(base@, pairs_view(params@)) == Some(u@),
            None => url_with_query(base@, pairs_view(params@)) is None,
        },
{
    url::Url::parse_with_params(base, params.iter()).ok().map(|u| u.into())
}

/// Why no authentication request can be made.
#[derive(Debug, Clone, Copy, PartialEq, Eq)]
pub enum UrlError {
    /// `return_to` is no URL.
    InvalidReturnTo,
    /// The realm is no URL.
    InvalidRealm,
    /// `return_to` names no host.
    MissingReturnToHost,
    /// The realm names no host.
    MissingRealmHost,
    /// The realm and `return_to` name different hosts.
    HostMismatch,
    /// The realm and `return_to` have different schemes.
    SchemeMismatch,
    /// The provider's endpoint is no URL.
    InvalidEndpoint,
}

/// Whether `return_to` lies in the realm: both name a host, the same one,
/// and have the same scheme.
pub open spec fn origin_verdict(realm: UrlView, return_to: UrlView) -> Result<(), UrlError> {
    match return_to.host {
        None => Err(UrlError::MissingReturnToHost),
        Some(target) => match realm.host {
            None => Err(UrlError::MissingRealmHost),
            Some(host) => if target != host {
                Err(UrlError::HostMismatch)
            } else if return_to.scheme != realm.scheme {
                Err(UrlError::SchemeMismatch)
            } else {
                Ok(())
            },
        },
    }
}

/// The URL of the authentication request to the endpoint `endpoint`.
pub open spec fn auth_url_spec(endpoint: Seq<char>, realm: Seq<char>, return_to: Seq<char>)
    -> Result<Seq<char>, UrlError> {
    match parsed_url(return_to) {
        None => Err(UrlError::InvalidReturnTo),
        Some(target) => match parsed_url(realm) {
            None => Err(UrlError::InvalidRealm),
            Some(origin) => match origin_verdict(origin, target) {
                Err(e) => Err(e),
                Ok(_) => match url_with_query(
                    endpoint,
                    auth_request_params(origin.href, target.href),
                ) {
                    None => Err(UrlError::InvalidEndpoint),
                    Some(url) => Ok(url),
                },
            },
        },
    }
}

/// The URL of the authentication request whose `return_to` carries the
/// token `nonce` in its query.
pub open spec fn auth_url_with_nonce_spec(
    endpoint: Seq<char>,
    realm: Seq<char>,
    return_to: Seq<char>,
    nonce: Seq<char>,
) -> Result<Seq<char>, UrlError> {
    match url_with_query(return_to, seq![(CUSTOM_NONCE@, nonce)]) {
        None => Err(UrlError::InvalidReturnTo),
        Some(target) => auth_url_spec(endpoint, realm, target),
    }
}

/// A URL that was made, or the reason why none was.
pub open spec fn url_outcome(r: Result<String, UrlError>) -> Result<Seq<char>, UrlError> {
    match r {
        Ok(url) => Ok(url@),
        Err(e) => Err(e),
    }
}

/// Whether `return_to` lies in the realm.
pub fn same_origin(realm: &ParsedUrl, return_to: &ParsedUrl) -> (r: Result<(), UrlError>)
    ensures
        r == origin_verdict(realm@, return_to@),
{
    let target = match &return_to.host {
        Some(host) => host,
        None => {
            return Err(UrlError::MissingReturnToHost);
        },
    };
    let host = match &realm.host {
        Some(host) => host,
        None => {
            return Err(UrlError::MissingRealmHost);
        },
    };
    if !same_text(target.as_str(), host.as_str()) {
        return Err(UrlError::HostMismatch);
    }
    if !same_text(return_to.scheme.as_str(), realm.scheme.as_str()) {
        return Err(UrlError::SchemeMismatch);
    }
    Ok(())
}

/// Builds the URL to which the user is sent to authenticate with
/// `provider`.
pub fn make_auth_req_url(provider: &Provider, realm: &str, return_to: &str) -> (r: Result<
    String,
    UrlError,
>)
    ensures
        url_outcome(r) == auth_url_spec(provider@.endpoint, realm@, return_to@),
{
    let target = match parse_url(return_to) {
        Some(url) => url,
        None => {
            return Err(UrlError::InvalidReturnTo);
        },
    };
    let origin = match parse_url(realm) {
        Some(url) => url,
        None => {
            return Err(UrlError::InvalidRealm);
        },
    };
    match same_origin(&origin, &target) {
        Ok(_) => {},
        Err(e) => {
            return Err(e);
        },
    }
    let params = make_auth_req_params(origin.href.as_str(), target.href.as_str());
    let mut pairs: Vec<(&str, &str)> = Vec::new();
    let mut i: usize = 0;
    while i < params.len()
        invariant
            0 <= i <= params.len(),
            pairs_view(pairs@) == params_view(params@).take(i as int),
        decreases params.len() - i,
    {
        let ghost before = pairs_view(pairs@);
        pairs.push(params[i].into_pair());
        assert(pairs_view(pairs@) =~= before.push(params@[i as int]@));
        assert(params_view(params@).take(i + 1) =~= before.push(params@[i as int]@));
        i = i + 1;
    }
    assert(params_view(params@).take(i as int) =~= params_view(params@));
    match append_query(provider.endpoint(), &pairs) {
        Some(url) => Ok(url),
        None => Err(UrlError::InvalidEndpoint),
    }
}

/// Builds the URL to which the user is sent to authenticate, with the token
/// `nonce` in the query of `return_to`.
pub fn auth_url_with_nonce(provider: &Provider, realm: &str, return_to: &str, nonce: &str) -> (r:
    Result<String, UrlError>)
    ensures
        url_outcome(r) == auth_url_with_nonce_spec(
            provider@.endpoint,
            realm@,
            return_to@,
            nonce@,
        ),
{
    let mut query: Vec<(&str, &str)> = Vec::new();
    query.push((CUSTOM_NONCE, nonce));
    assert(pairs_view(query@) =~= seq![(CUSTOM_NONCE@, nonce@)]);
    match append_query(return_to, &query) {
        Some(target) => make_auth_req_url(provider, realm, target.as_str()),
        None => Err(UrlError::InvalidReturnTo),
    }
}

} // verus!
