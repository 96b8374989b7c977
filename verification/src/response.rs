//! The positive assertion: what a provider sends back through the user's
//! browser to say that the user authenticated, and the rules it must meet
//! before it is confirmed with the provider.

use crate::comma_separated::{texts, CommaSeparated};
use crate::constants::{OPENID_ASSOCIATION_HANDLE, OPENID_AUTH_NAMESPACE, OPENID_CLAIMED_ID,
    OPENID_FIELD_PREFIX, OPENID_IDENTITY, OPENID_MODE_IDENTIFIER_RESPONSE, OPENID_OP_ENDPOINT,
    OPENID_RESPONSE_NONCE, OPENID_RETURN_TO, STEAM_IDENTITY_PREFIX};
use crate::number::{integer_in, parse_integer};
use crate::provider::Provider;
use crate::response_nonce::{now_millis, older_than, ResponseNonce, ResponseNonceView,
    NONCE_MAX_AGE_MS};
use crate::text::{chars_of, has_prefix, same_chars, same_text, starts_with, sub_chars};
use vstd::prelude::*;
use vstd::string::StringExecFns;

verus! {

/// Why a positive assertion is not accepted.
#[derive(Debug, Clone, Copy, PartialEq, Eq)]
pub enum ValidationError {
    /// The assertion is not of OpenID Authentication 2.0.
    BadNamespace,
    /// The message is no positive assertion.
    BadMode,
    /// The assertion names another endpoint than the provider's.
    EndpointMismatch,
    /// The claimed identifier and the provider's identifier differ.
    IdentityMismatch,
    /// A field that must be signed is not in the list of signed fields.
    MissingSignedFields,
    /// The signature is empty.
    EmptySignature,
    /// The provider's nonce is too old.
    Stale,
    /// An identifier is not the provider's prefix followed by a user number.
    IdentityParse,
}

/// A positive assertion, field by field.
#[derive(Debug, Clone, PartialEq, Eq)]
pub struct PositiveAssertion {
    /// `openid.ns`
    pub namespace: String,
    /// `openid.mode`
    pub mode: String,
    /// `openid.op_endpoint`
    pub op_endpoint: String,
    /// `openid.claimed_id`
    pub claimed_id: String,
    /// `openid.identity`
    pub identity: String,
    /// `openid.return_to`
    pub return_to: String,
    /// `openid.response_nonce`
    pub nonce: ResponseNonce,
    /// `openid.assoc_handle`
    pub association_handle: String,
    /// `openid.signed`
    pub signed_fields: CommaSeparated,
    /// `openid.sig`
    pub signature: String,
}

/// The mathematical value of a [`PositiveAssertion`].
pub struct PositiveAssertionView {
    pub namespace: Seq<char>,
    pub mode: Seq<char>,
    pub op_endpoint: Seq<char>,
    pub claimed_id: Seq<char>,
    pub identity: Seq<char>,
    pub return_to: Seq<char>,
    pub nonce: ResponseNonceView,
    pub association_handle: Seq<char>,
    pub signed_fields: Seq<Seq<char>>,
    pub signature: Seq<char>,
}

impl View for PositiveAssertion {
    type V = PositiveAssertionView;

    open spec fn view(&self) -> PositiveAssertionView {
        PositiveAssertionView {
            namespace: self.namespace@,
            mode: self.mode@,
            op_endpoint: self.op_endpoint@,
            claimed_id: self.claimed_id@,
            identity: self.identity@,
            return_to: self.return_to@,
            nonce: self.nonce@,
            association_handle: self.association_handle@,
            signed_fields: self.signed_fields@,
            signature: self.signature@,
        }
    }
}

/// The name of a field without the prefix that every key carries; `None`
/// where the key does not carry it.
pub open spec fn unprefixed(key: Seq<char>) -> Option<Seq<char>> {
    if has_prefix(key, OPENID_FIELD_PREFIX@) {
        Some(key.skip(OPENID_FIELD_PREFIX@.len() as int))
    } else {
        None
    }
}

/// Whether the list `signed` names the field of the key `key`.
pub open spec fn names_field(signed: Seq<Seq<char>>, key: Seq<char>) -> bool {
    match unprefixed(key) {
        Some(name) => signed.contains(name),
        None => false,
    }
}

/// Whether the list `signed` names the field of every key in `keys`.
pub open spec fn has_fields(signed: Seq<Seq<char>>, keys: Seq<Seq<char>>) -> bool {
    forall|i: int| 0 <= i < keys.len() ==> names_field(signed, #[trigger] keys[i])
}

/// The keys of the fields that a provider must sign.
pub open spec fn required_keys() -> Seq<Seq<char>> {
    seq![
        OPENID_OP_ENDPOINT@,
        OPENID_RETURN_TO@,
        OPENID_RESPONSE_NONCE@,
        OPENID_ASSOCIATION_HANDLE@,
        OPENID_CLAIMED_ID@,
        OPENID_IDENTITY@,
    ]
}

/// What the protocol's own rules say of an assertion that is to come from
/// the endpoint `endpoint`. The rules are tried in this order and the first
/// that is broken gives the error.
pub open spec fn generic_verdict(a: PositiveAssertionView, endpoint: Seq<char>) -> Result<
    (),
    ValidationError,
> {
    if a.namespace != OPENID_AUTH_NAMESPACE@ {
        Err(ValidationError::BadNamespace)
    } else if a.mode != OPENID_MODE_IDENTIFIER_RESPONSE@ {
        Err(ValidationError::BadMode)
    } else if a.op_endpoint != endpoint {
        Err(ValidationError::EndpointMismatch)
    } else if a.claimed_id != a.identity {
        Err(ValidationError::IdentityMismatch)
    } else if !has_fields(a.signed_fields, required_keys()) {
        Err(ValidationError::MissingSignedFields)
    } else if a.signature.len() == 0 {
        Err(ValidationError::EmptySignature)
    } else {
        Ok(())
    }
}

/// The number of the user that the identifier `id` names: what follows the
/// provider's prefix, read as an unsigned 64-bit number.
pub open spec fn user_id_of(id: Seq<char>) -> Option<int> {
    if has_prefix(id, STEAM_IDENTITY_PREFIX@) {
        integer_in(id.skip(STEAM_IDENTITY_PREFIX@.len() as int), false, 0, 0xffff_ffff_ffff_ffff)
    } else {
        None
    }
}

/// What the provider's own rules say of an assertion at the time `now`, in
/// milliseconds: the number of the user that both identifiers name, unless
/// an identifier names none, they name different users, or the nonce is
/// more than `max_age` milliseconds old.
pub open spec fn specific_verdict(a: PositiveAssertionView, now: int, max_age: int) -> Result<
    u64,
    ValidationError,
> {
    match user_id_of(a.claimed_id) {
        None => Err(ValidationError::IdentityParse),
        Some(claimed) => match user_id_of(a.identity) {
            None => Err(ValidationError::IdentityParse),
            Some(identity) => if claimed != identity {
                Err(ValidationError::IdentityMismatch)
            } else if older_than(a.nonce.time, now, max_age) {
                Err(ValidationError::Stale)
            } else {
                Ok(claimed as u64)
            },
        },
    }
}

/// The fields that a provider must sign, by the names under which the list
/// of signed fields holds them.
pub proof fn lemma_required_fields(signed: Seq<Seq<char>>)
    ensures
        has_fields(signed, required_keys()) <==> {
            &&& signed.contains("op_endpoint"@)
            &&& signed.contains("return_to"@)
            &&& signed.contains("response_nonce"@)
            &&& signed.contains("assoc_handle"@)
            &&& signed.contains("claimed_id"@)
            &&& signed.contains("identity"@)
        },
{
    reveal_strlit("openid.");
    reveal_strlit("openid.op_endpoint");
    reveal_strlit("openid.return_to");
    reveal_strlit("openid.response_nonce");
    reveal_strlit("openid.assoc_handle");
    reveal_strlit("openid.claimed_id");
    reveal_strlit("openid.identity");
    reveal_strlit("op_endpoint");
    reveal_strlit("return_to");
    reveal_strlit("response_nonce");
    reveal_strlit("assoc_handle");
    reveal_strlit("claimed_id");
    reveal_strlit("identity");
    let prefix = OPENID_FIELD_PREFIX@;
    let keys = required_keys();
    assert(keys[0].take(7) =~= prefix && keys[0].skip(7) =~= "op_endpoint"@);
    assert(keys[1].take(7) =~= prefix && keys[1].skip(7) =~= "return_to"@);
    assert(keys[2].take(7) =~= prefix && keys[2].skip(7) =~= "response_nonce"@);
    assert(keys[3].take(7) =~= prefix && keys[3].skip(7) =~= "assoc_handle"@);
    assert(keys[4].take(7) =~= prefix && keys[4].skip(7) =~= "claimed_id"@);
    assert(keys[5].take(7) =~= prefix && keys[5].skip(7) =~= "identity"@);
    if has_fields(signed, keys) {
        assert(names_field(signed, keys[0]));
        assert(names_field(signed, keys[1]));
        assert(names_field(signed, keys[2]));
        assert(names_field(signed, keys[3]));
        assert(names_field(signed, keys[4]));
        assert(names_field(signed, keys[5]));
    }
}

/// An assertion whose namespace, mode and endpoint are right but whose two
/// identifiers differ is refused for that, whatever else it holds.
pub proof fn lemma_identity_mismatch(a: PositiveAssertionView, endpoint: Seq<char>)
    requires
        a.namespace == OPENID_AUTH_NAMESPACE@,
        a.mode == OPENID_MODE_IDENTIFIER_RESPONSE@,
        a.op_endpoint == endpoint,
        a.claimed_id != a.identity,
    ensures
        generic_verdict(a, endpoint) == Err::<(), _>(ValidationError::IdentityMismatch),
{
}

/// An assertion whose nonce is older than the limit is never accepted, and
/// one that is accepted names the same user in both identifiers.
pub proof fn lemma_stale_is_refused(a: PositiveAssertionView, now: int, max_age: int)
    ensures
        older_than(a.nonce.time, now, max_age) ==> specific_verdict(a, now, max_age) is Err,
        specific_verdict(a, now, max_age) matches Ok(id) ==> user_id_of(a.claimed_id) == Some(
            id as int,
        ) && user_id_of(a.identity) == Some(id as int),
{
}

/// Where both identifiers name the user `id`, the age of the nonce alone
/// decides: the assertion is stale if the nonce is older than the limit,
/// and names `id` otherwise.
pub proof fn lemma_freshness_decides(a: PositiveAssertionView, now: int, max_age: int, id: u64)
    requires
        user_id_of(a.claimed_id) == Some(id as int),
        user_id_of(a.identity) == Some(id as int),
    ensures
        specific_verdict(a, now, max_age) == (if now - a.nonce.time > max_age {
            Err(ValidationError::Stale)
        } else {
            Ok(id)
        }),
{
}

/// Whether `list` holds the text `text`.
pub fn contains_text(list: &Vec<String>, text: &Vec<char>) -> (found: bool)
    ensures
        found == texts(list@).contains(text@),
{
    let mut i: usize = 0;
    while i < list.len()
        invariant
            0 <= i <= list.len(),
            forall|j: int| 0 <= j < i ==> texts(list@)[j] != text@,
        decreases list.len() - i,
    {
        if same_chars(&chars_of(list[i].as_str()), text) {
            assert(texts(list@)[i as int] == text@);
            return true;
        }
        assert(texts(list@)[i as int] != text@);
        i = i + 1;
    }
    false
}

/// The keys of the fields that a provider must sign.
pub fn required_signed_keys() -> (keys: Vec<&'static str>)
    ensures
        keys@.map_values(|k: &'static str| k@) == required_keys(),
{
    let mut keys: Vec<&'static str> = Vec::new();
    keys.push(OPENID_OP_ENDPOINT);
    keys.push(OPENID_RETURN_TO);
    keys.push(OPENID_RESPONSE_NONCE);
    keys.push(OPENID_ASSOCIATION_HANDLE);
    keys.push(OPENID_CLAIMED_ID);
    keys.push(OPENID_IDENTITY);
    assert(keys@.map_values(|k: &'static str| k@) =~= required_keys());
    keys
}

/// Whether the list `signed` names the field of every key in `keys`.
pub fn names_all_fields(signed: &Vec<String>, keys: &Vec<&'static str>) -> (all: bool)
    ensures
        all == has_fields(texts(signed@), keys@.map_values(|k: &'static str| k@)),
{
    let prefix = chars_of(OPENID_FIELD_PREFIX);
    let ghost wanted = keys@.map_values(|k: &'static str| k@);
    let mut i: usize = 0;
    while i < keys.len()
        invariant
            0 <= i <= keys.len(),
            prefix@ == OPENID_FIELD_PREFIX@,
            wanted == keys@.map_values(|k: &'static str| k@),
            forall|j: int| 0 <= j < i ==> names_field(texts(signed@), #[trigger] wanted[j]),
        decreases keys.len() - i,
    {
        let key = chars_of(keys[i]);
        assert(key@ == wanted[i as int]);
        if !starts_with(&key, &prefix) {
            assert(!names_field(texts(signed@), wanted[i as int]));
            return false;
        }
        let name = sub_chars(&key, prefix.len(), key.len());
        assert(name@ =~= key@.skip(prefix@.len() as int));
        if !contains_text(signed, &name) {
            assert(!names_field(texts(signed@), wanted[i as int]));
            return false;
        }
        i = i + 1;
    }
    true
}

/// The number of the user that the identifier `id` names.
pub fn user_id(id: &str) -> (n: Option<u64>)
    ensures
        match n {
            Some(k) => user_id_of(id@) == Some(k as int),
            None => user_id_of(id@) is None,
        },
{
    let chars = chars_of(id);
    let prefix = chars_of(STEAM_IDENTITY_PREFIX);
    if !starts_with(&chars, &prefix) {
        return None;
    }
    let digits = sub_chars(&chars, prefix.len(), chars.len());
    assert(digits@ =~= chars@.skip(prefix@.len() as int));
    match parse_integer(&digits, false, 0, 0xffff_ffff_ffff_ffff) {
        Some(n) => Some(n as u64),
        None => None,
    }
}

impl PositiveAssertion {
    /// Holds the assertion to the rules of the protocol itself, for the
    /// provider `provider`.
    pub fn validate(&self, provider: &Provider) -> (r: Result<(), ValidationError>)
        ensures
            r == generic_verdict(self@, provider@.endpoint),
    {
        if !same_text(self.namespace.as_str(), OPENID_AUTH_NAMESPACE) {
            return Err(ValidationError::BadNamespace);
        }
        if !same_text(self.mode.as_str(), OPENID_MODE_IDENTIFIER_RESPONSE) {
            return Err(ValidationError::BadMode);
        }
        if !same_text(self.op_endpoint.as_str(), provider.endpoint()) {
            return Err(ValidationError::EndpointMismatch);
        }
        if !same_text(self.claimed_id.as_str(), self.identity.as_str()) {
            return Err(ValidationError::IdentityMismatch);
        }
        let keys = required_signed_keys();
        if !names_all_fields(self.signed_fields.items(), &keys) {
            return Err(ValidationError::MissingSignedFields);
        }
        if self.signature.as_str().is_empty() {
            return Err(ValidationError::EmptySignature);
        }
        Ok(())
    }

    /// Holds the assertion to the provider's own rules at the time `now`,
    /// in milliseconds since the start of 1970, with a nonce of at most
    /// `max_age` milliseconds, and gives the number of the user.
    pub fn validate_steam_within(&self, now: i64, max_age: i64) -> (r: Result<
        u64,
        ValidationError,
    >)
        ensures
            r == specific_verdict(self@, now as int, max_age as int),
    {
        let claimed = match user_id(self.claimed_id.as_str()) {
            Some(id) => id,
            None => {
                return Err(ValidationError::IdentityParse);
            },
        };
        let identity = match user_id(self.identity.as_str()) {
            Some(id) => id,
            None => {
                return Err(ValidationError::IdentityParse);
            },
        };
        if claimed != identity {
            return Err(ValidationError::IdentityMismatch);
        }
        if self.nonce.is_older_than(now, max_age) {
            return Err(ValidationError::Stale);
        }
        Ok(claimed)
    }

    /// Holds the assertion to the provider's own rules at the time `now`,
    /// with a nonce of at most 30 seconds.
    pub fn validate_steam_at(&self, now: i64) -> (r: Result<u64, ValidationError>)
        ensures
            r == specific_verdict(self@, now as int, NONCE_MAX_AGE_MS as int),
    {
        self.validate_steam_within(now, NONCE_MAX_AGE_MS)
    }

    /// Holds the assertion to the provider's own rules by the clock.
    pub fn validate_steam(&self) -> (r: Result<u64, ValidationError>)
        ensures
            exists|now: i64| r == specific_verdict(self@, now as int, NONCE_MAX_AGE_MS as int),
    {
        let now = now_millis();
        self.validate_steam_at(now)
    }

    /// A copy of the assertion.
    pub fn duplicate(&self) -> (copy: PositiveAssertion)
        ensures
            copy@ == self@,
    {
        PositiveAssertion {
            namespace: self.namespace.clone(),
            mode: self.mode.clone(),
            op_endpoint: self.op_endpoint.clone(),
            claimed_id: self.claimed_id.clone(),
            identity: self.identity.clone(),
            return_to: self.return_to.clone(),
            nonce: ResponseNonce { time: self.nonce.time, salt: self.nonce.salt.clone() },
            association_handle: self.association_handle.clone(),
            signed_fields: self.signed_fields.duplicate(),
            signature: self.signature.clone(),
        }
    }

    /// Gives the message another mode, as for the request that confirms an
    /// assertion with the provider.
    pub fn set_mode(&mut self, mode: &str)
        ensures
            final(self)@ == (PositiveAssertionView { mode: mode@, ..old(self)@ }),
    {
        self.mode = String::from_str(mode);
    }
}

impl ValidationError {
    /// What the error says in words.
    pub open spec fn message_text(self) -> Seq<char> {
        match self {
            ValidationError::BadNamespace => "invalid value for openid namespace"@,
            ValidationError::BadMode => "invalid mode"@,
            ValidationError::EndpointMismatch => "provider endpoint doesn't match"@,
            ValidationError::IdentityMismatch => "claimed identity doesn't match identity"@,
            ValidationError::MissingSignedFields => "fields that should be signed aren't signed"@,
            ValidationError::EmptySignature => "signature field is empty"@,
            ValidationError::Stale => "too old"@,
            ValidationError::IdentityParse => "identity cannot represent a steam id"@,
        }
    }

    /// What the error says in words.
    pub fn message(&self) -> (text: String)
        ensures
            text@ == self.message_text(),
    {
        match self {
            ValidationError::BadNamespace => String::from_str("invalid value for openid namespace"),
            ValidationError::BadMode => String::from_str("invalid mode"),
            ValidationError::EndpointMismatch => String::from_str(
                "provider endpoint doesn't match",
            ),
            ValidationError::IdentityMismatch => String::from_str(
                "claimed identity doesn't match identity",
            ),
            ValidationError::MissingSignedFields => String::from_str(
                "fields that should be signed aren't signed",
            ),
            ValidationError::EmptySignature => String::from_str("signature field is empty"),
            ValidationError::Stale => String::from_str("too old"),
            ValidationError::IdentityParse => String::from_str(
                "identity cannot represent a steam id",
            ),
        }
    }
}

} // verus!
