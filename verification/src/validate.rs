//! Confirming an assertion with the provider itself.
//!
//! An assertion arrives through the user's browser, so it may be forged.
//! The relying party sends it back to the provider with the mode
//! `check_authentication` and reads the provider's verdict, a text in
//! key-value form with the fields `ns` and `is_valid`.

use crate::constants::OPENID_MODE_CHECK_AUTHENTICATION;
use crate::entries::lookup;
use crate::key_values::de::{Error, ErrorView};
use crate::key_values::KeyValues;
use crate::response::{PositiveAssertion, PositiveAssertionView};
use crate::shape::{bool_of, parse_bool};
use crate::text::chars_of;
use vstd::prelude::*;
use vstd::string::StringExecFns;

verus! {

/// The key of the protocol version in a verdict.
pub const FIELD_NAMESPACE: &'static str = "ns";

/// The key of the verdict itself.
pub const FIELD_IS_VALID: &'static str = "is_valid";

/// The provider's verdict on an assertion.
#[derive(Debug, Clone, PartialEq, Eq)]
pub struct VerifyResponse {
    pub namespace: String,
    pub is_valid: bool,
}

/// The mathematical value of a [`VerifyResponse`].
pub struct VerifyResponseView {
    pub namespace: Seq<char>,
    pub is_valid: bool,
}

impl View for VerifyResponse {
    type V = VerifyResponseView;

    open spec fn view(&self) -> VerifyResponseView {
        VerifyResponseView { namespace: self.namespace@, is_valid: self.is_valid }
    }
}

/// What is said of a field that does not come.
pub open spec fn missing_message(name: Seq<char>) -> Seq<char> {
    "missing field `"@ + name + "`"@
}

/// The verdict that the map `pairs` states: the protocol version under
/// `ns` and the truth value under `is_valid`. Other keys are passed over.
pub open spec fn verdict_spec(pairs: Seq<(Seq<char>, Seq<char>)>) -> Result<
    VerifyResponseView,
    ErrorView,
> {
    match lookup(pairs, FIELD_NAMESPACE@) {
        None => Err(ErrorView::Message(missing_message(FIELD_NAMESPACE@))),
        Some(namespace) => match lookup(pairs, FIELD_IS_VALID@) {
            None => Err(ErrorView::Message(missing_message(FIELD_IS_VALID@))),
            Some(text) => match bool_of(text) {
                None => Err(ErrorView::ParseBool),
                Some(is_valid) => Ok(VerifyResponseView { namespace, is_valid }),
            },
        },
    }
}

/// The verdict that the text `s` states. The text is read as a map, so a
/// key that comes twice keeps its last value.
pub open spec fn decode_spec(s: Seq<char>) -> Result<VerifyResponseView, ErrorView> {
    match crate::key_values::decode_spec(s) {
        Err(e) => Err(e),
        Ok(pairs) => verdict_spec(pairs),
    }
}

/// A verdict that was read, or the reason why none was.
pub open spec fn verdict_outcome(r: Result<VerifyResponse, Error>) -> Result<
    VerifyResponseView,
    ErrorView,
> {
    match r {
        Ok(v) => Ok(v@),
        Err(e) => Err(e@),
    }
}

impl VerifyResponse {
    /// Whether the provider confirmed the assertion. `false` is an answer,
    /// not a failure: the login is to be refused.
    pub fn is_valid(&self) -> (valid: bool)
        ensures
            valid == self.is_valid,
    {
        self.is_valid
    }

    /// The protocol version that the provider answered in.
    pub fn namespace(&self) -> (ns: &str)
        ensures
            ns@ == self.namespace@,
    {
        self.namespace.as_str()
    }

    /// Reads the verdict out of a map.
    pub fn from_map(map: &KeyValues) -> (r: Result<VerifyResponse, Error>)
        ensures
            verdict_outcome(r) == verdict_spec(map@),
    {
        let namespace = match map.get(FIELD_NAMESPACE) {
            Some(ns) => ns.clone(),
            None => {
                return Err(
                    Error::Message(
                        String::from_str("missing field `").concat(FIELD_NAMESPACE).concat("`"),
                    ),
                );
            },
        };
        let text = match map.get(FIELD_IS_VALID) {
            Some(text) => text,
            None => {
                return Err(
                    Error::Message(
                        String::from_str("missing field `").concat(FIELD_IS_VALID).concat("`"),
                    ),
                );
            },
        };
        match parse_bool(&chars_of(text.as_str())) {
            Some(is_valid) => Ok(VerifyResponse { namespace, is_valid }),
            None => Err(Error::ParseBool),
        }
    }

    /// Reads the provider's answer.
    pub fn from_key_values(text: &str) -> (r: Result<VerifyResponse, Error>)
        ensures
            verdict_outcome(r) == decode_spec(text@),
    {
        match KeyValues::from_str(text) {
            Ok(map) => VerifyResponse::from_map(&map),
            Err(e) => Err(e),
        }
    }
}

/// The message that asks the provider to confirm `assertion`: the same
/// fields with the mode `check_authentication`.
pub fn check_authentication_request(assertion: &PositiveAssertion) -> (request: PositiveAssertion)
    ensures
        request@ == (PositiveAssertionView {
            mode: OPENID_MODE_CHECK_AUTHENTICATION@,
            ..assertion@
        }),
{
    let mut request = assertion.duplicate();
    request.set_mode(OPENID_MODE_CHECK_AUTHENTICATION);
    request
}

} // verus!
