//! The query of a callback: the relying party's token and the fields of
//! the positive assertion, as pairs of key and value.

use crate::comma_separated::{decode_spec, CommaSeparated};
use crate::constants::{CUSTOM_NONCE, OPENID_ASSOCIATION_HANDLE, OPENID_CLAIMED_ID, OPENID_IDENTITY,
    OPENID_MODE, OPENID_NAMESPACE, OPENID_OP_ENDPOINT, OPENID_RESPONSE_NONCE, OPENID_RETURN_TO,
    OPENID_SIGNATURE, OPENID_SIGNED_FIELDS};
use crate::entries::{key_index, keys};
use crate::key_values::texts;
use crate::response::{PositiveAssertion, PositiveAssertionView};
use crate::response_nonce::{parse_spec, rfc3339_text, ResponseNonce, ResponseNonceError};
use crate::text::{lemma_position, lemma_position_is, same_text};
use vstd::prelude::*;
use vstd::string::StringExecFns;

verus! {

/// A field of a callback's query.
#[derive(Debug, Clone, Copy, PartialEq, Eq)]
pub enum Field {
    CustomNonce,
    Namespace,
    Mode,
    OpEndpoint,
    ClaimedId,
    Identity,
    ReturnTo,
    ResponseNonce,
    AssociationHandle,
    SignedFields,
    Signature,
}

impl Field {
    /// The key under which the field travels.
    pub open spec fn key_text(self) -> Seq<char> {
        match self {
            Field::CustomNonce => CUSTOM_NONCE@,
            Field::Namespace => OPENID_NAMESPACE@,
            Field::Mode => OPENID_MODE@,
            Field::OpEndpoint => OPENID_OP_ENDPOINT@,
            Field::ClaimedId => OPENID_CLAIMED_ID@,
            Field::Identity => OPENID_IDENTITY@,
            Field::ReturnTo => OPENID_RETURN_TO@,
            Field::ResponseNonce => OPENID_RESPONSE_NONCE@,
            Field::AssociationHandle => OPENID_ASSOCIATION_HANDLE@,
            Field::SignedFields => OPENID_SIGNED_FIELDS@,
            Field::Signature => OPENID_SIGNATURE@,
        }
    }

    /// The key under which the field travels.
    pub fn key(&self) -> (key: &'static str)
        ensures
            key@ == self.key_text(),
    {
        match self {
            Field::CustomNonce => CUSTOM_NONCE,
            Field::Namespace => OPENID_NAMESPACE,
            Field::Mode => OPENID_MODE,
            Field::OpEndpoint => OPENID_OP_ENDPOINT,
            Field::ClaimedId => OPENID_CLAIMED_ID,
            Field::Identity => OPENID_IDENTITY,
            Field::ReturnTo => OPENID_RETURN_TO,
            Field::ResponseNonce => OPENID_RESPONSE_NONCE,
            Field::AssociationHandle => OPENID_ASSOCIATION_HANDLE,
            Field::SignedFields => OPENID_SIGNED_FIELDS,
            Field::Signature => OPENID_SIGNATURE,
        }
    }
}

/// Why a query is no callback.
#[derive(Debug, Clone, Copy, PartialEq, Eq)]
pub enum FieldError {
    /// The query does not hold the field.
    Missing(Field),
    /// The query holds the field more than once.
    Duplicate(Field),
    /// The provider's nonce cannot be read.
    Nonce(ResponseNonceError),
}

/// The value of the field `field` in the query `pairs`, where the query
/// holds the field exactly once.
pub open spec fn field_spec(pairs: Seq<(Seq<char>, Seq<char>)>, field: Field) -> Result<
    Seq<char>,
    FieldError,
> {
    let i = key_index(pairs, field.key_text());
    if i >= pairs.len() {
        Err(FieldError::Missing(field))
    } else if keys(pairs.skip(i + 1)).contains(field.key_text()) {
        Err(FieldError::Duplicate(field))
    } else {
        Ok(pairs[i].1)
    }
}

/// The assertion that the query `pairs` holds. The fields are looked up in
/// the order in which the protocol lists them, and the first that is
/// missing or double gives the error; the nonce is read last.
pub open spec fn assertion_spec(pairs: Seq<(Seq<char>, Seq<char>)>) -> Result<
    PositiveAssertionView,
    FieldError,
> {
    match field_spec(pairs, Field::Namespace) {
        Err(e) => Err(e),
        Ok(namespace) => match field_spec(pairs, Field::Mode) {
            Err(e) => Err(e),
            Ok(mode) => match field_spec(pairs, Field::OpEndpoint) {
                Err(e) => Err(e),
                Ok(op_endpoint) => match field_spec(pairs, Field::ClaimedId) {
                    Err(e) => Err(e),
                    Ok(claimed_id) => match field_spec(pairs, Field::Identity) {
                        Err(e) => Err(e),
                        Ok(identity) => match field_spec(pairs, Field::ReturnTo) {
                            Err(e) => Err(e),
                            Ok(return_to) => assertion_tail_spec(
                                pairs,
                                namespace,
                                mode,
                                op_endpoint,
                                claimed_id,
                                identity,
                                return_to,
                            ),
                        },
                    },
                },
            },
        },
    }
}

/// The second half of [`assertion_spec`].
pub open spec fn assertion_tail_spec(
    pairs: Seq<(Seq<char>, Seq<char>)>,
    namespace: Seq<char>,
    mode: Seq<char>,
    op_endpoint: Seq<char>,
    claimed_id: Seq<char>,
    identity: Seq<char>,
    return_to: Seq<char>,
) -> Result<PositiveAssertionView, FieldError> {
    match field_spec(pairs, Field::ResponseNonce) {
        Err(e) => Err(e),
        Ok(nonce_text) => match field_spec(pairs, Field::AssociationHandle) {
            Err(e) => Err(e),
            Ok(association_handle) => match field_spec(pairs, Field::SignedFields) {
                Err(e) => Err(e),
                Ok(signed) => match field_spec(pairs, Field::Signature) {
                    Err(e) => Err(e),
                    Ok(signature) => match parse_spec(nonce_text) {
                        Err(e) => Err(FieldError::Nonce(e)),
                        Ok(nonce) => Ok(
                            PositiveAssertionView {
                                namespace,
                                mode,
                                op_endpoint,
                                claimed_id,
                                identity,
                                return_to,
                                nonce,
                                association_handle,
                                signed_fields: decode_spec(signed),
                                signature,
                            },
                        ),
                    },
                },
            },
        },
    }
}

/// The query that an assertion makes with its nonce written as
/// `nonce_text`: its ten fields in the order in which the protocol lists
/// them.
pub open spec fn query_spec(a: PositiveAssertionView, nonce_text: Seq<char>) -> Seq<
    (Seq<char>, Seq<char>),
> {
    seq![
        (OPENID_NAMESPACE@, a.namespace),
        (OPENID_MODE@, a.mode),
        (OPENID_OP_ENDPOINT@, a.op_endpoint),
        (OPENID_CLAIMED_ID@, a.claimed_id),
        (OPENID_IDENTITY@, a.identity),
        (OPENID_RETURN_TO@, a.return_to),
        (OPENID_RESPONSE_NONCE@, nonce_text),
        (OPENID_ASSOCIATION_HANDLE@, a.association_handle),
        (OPENID_SIGNED_FIELDS@, crate::comma_separated::encode_spec(a.signed_fields)),
        (OPENID_SIGNATURE@, a.signature),
    ]
}

/// A value that was found, or the reason why none was.
pub open spec fn field_outcome(r: Result<String, FieldError>) -> Result<Seq<char>, FieldError> {
    match r {
        Ok(value) => Ok(value@),
        Err(e) => Err(e),
    }
}

/// An assertion that was read, or the reason why none was.
pub open spec fn assertion_outcome(r: Result<PositiveAssertion, FieldError>) -> Result<
    PositiveAssertionView,
    FieldError,
> {
    match r {
        Ok(a) => Ok(a@),
        Err(e) => Err(e),
    }
}

/// The index of the first pair at or after `from` that has the key `key`,
/// or the number of pairs.
fn find_key(pairs: &Vec<(String, String)>, from: usize, key: &str) -> (i: usize)
    requires
        from <= pairs.len(),
    ensures
        i == from + key_index(texts(pairs@).skip(from as int), key@),
        from <= i <= pairs.len(),
{
    let ghost rest = keys(texts(pairs@).skip(from as int));
    let mut i: usize = from;
    while i < pairs.len()
        invariant
            from <= i <= pairs.len(),
            rest == keys(texts(pairs@).skip(from as int)),
            forall|j: int| 0 <= j < i - from ==> rest[j] != key@,
        decreases pairs.len() - i,
    {
        assert(rest[i - from] == pairs@[i as int].0@);
        if same_text(pairs[i].0.as_str(), key) {
            proof {
                lemma_position_is(rest, key@, i - from);
            }
            return i;
        }
        i = i + 1;
    }
    proof {
        lemma_position_is(rest, key@, i - from);
    }
    i
}

/// The value of the field `field` in the query `pairs`.
pub fn field_value(pairs: &Vec<(String, String)>, field: Field) -> (r: Result<String, FieldError>)
    ensures
        field_outcome(r) == field_spec(texts(pairs@), field),
{
    let key = field.key();
    assert(texts(pairs@).skip(0) =~= texts(pairs@));
    let i = find_key(pairs, 0, key);
    if i >= pairs.len() {
        return Err(FieldError::Missing(field));
    }
    let again = find_key(pairs, i + 1, key);
    proof {
        lemma_position(keys(texts(pairs@).skip(i + 1)), key@);
    }
    if again < pairs.len() {
        return Err(FieldError::Duplicate(field));
    }
    Ok(pairs[i].1.clone())
}

impl PositiveAssertion {
    /// Reads an assertion out of the pairs of a query. Pairs of other keys
    /// are passed over.
    pub fn from_pairs(pairs: &Vec<(String, String)>) -> (r: Result<PositiveAssertion, FieldError>)
        ensures
            assertion_outcome(r) == assertion_spec(texts(pairs@)),
    {
        let namespace = match field_value(pairs, Field::Namespace) {
            Ok(v) => v,
            Err(e) => {
                return Err(e);
            },
        };
        let mode = match field_value(pairs, Field::Mode) {
            Ok(v) => v,
            Err(e) => {
                return Err(e);
            },
        };
        let op_endpoint = match field_value(pairs, Field::OpEndpoint) {
            Ok(v) => v,
            Err(e) => {
                return Err(e);
            },
        };
        let claimed_id = match field_value(pairs, Field::ClaimedId) {
            Ok(v) => v,
            Err(e) => {
                return Err(e);
            },
        };
        let identity = match field_value(pairs, Field::Identity) {
            Ok(v) => v,
            Err(e) => {
                return Err(e);
            },
        };
        let return_to = match field_value(pairs, Field::ReturnTo) {
            Ok(v) => v,
            Err(e) => {
                return Err(e);
            },
        };
        let nonce_text = match field_value(pairs, Field::ResponseNonce) {
            Ok(v) => v,
            Err(e) => {
                return Err(e);
            },
        };
        let association_handle = match field_value(pairs, Field::AssociationHandle) {
            Ok(v) => v,
            Err(e) => {
                return Err(e);
            },
        };
        let signed = match field_value(pairs, Field::SignedFields) {
            Ok(v) => v,
            Err(e) => {
                return Err(e);
            },
        };
        let signature = match field_value(pairs, Field::Signature) {
            Ok(v) => v,
            Err(e) => {
                return Err(e);
            },
        };
        let nonce = match ResponseNonce::from_str(nonce_text.as_str()) {
            Ok(nonce) => nonce,
            Err(e) => {
                return Err(FieldError::Nonce(e));
            },
        };
        let signed_fields = CommaSeparated::decode(signed.as_str());
        Ok(
            PositiveAssertion {
                namespace,
                mode,
                op_endpoint,
                claimed_id,
                identity,
                return_to,
                nonce,
                association_handle,
                signed_fields,
                signature,
            },
        )
    }

    /// The assertion as the pairs of a query or of a form. `None` where the
    /// time of the nonce cannot be written.
    pub fn to_pairs(&self) -> (pairs: Option<Vec<(String, String)>>)
        ensures
            match pairs {
                Some(p) => rfc3339_text(self.nonce.time) matches Some(time) && texts(p@)
                    == query_spec(self@, time + self.nonce.salt@),
                None => rfc3339_text(self.nonce.time) is None,
            },
    {
        let nonce = match self.nonce.to_string() {
            Some(text) => text,
            None => {
                return None;
            },
        };
        let ghost nonce_text = nonce@;
        let mut pairs: Vec<(String, String)> = Vec::new();
        pairs.push((String::from_str(OPENID_NAMESPACE), self.namespace.clone()));
        pairs.push((String::from_str(OPENID_MODE), self.mode.clone()));
        pairs.push((String::from_str(OPENID_OP_ENDPOINT), self.op_endpoint.clone()));
        pairs.push((String::from_str(OPENID_CLAIMED_ID), self.claimed_id.clone()));
        pairs.push((String::from_str(OPENID_IDENTITY), self.identity.clone()));
        pairs.push((String::from_str(OPENID_RETURN_TO), self.return_to.clone()));
        pairs.push((String::from_str(OPENID_RESPONSE_NONCE), nonce));
        pairs.push((String::from_str(OPENID_ASSOCIATION_HANDLE), self.association_handle.clone()));
        pairs.push((String::from_str(OPENID_SIGNED_FIELDS), self.signed_fields.to_string()));
        pairs.push((String::from_str(OPENID_SIGNATURE), self.signature.clone()));
        assert(texts(pairs@) =~= query_spec(self@, nonce_text));
        Some(pairs)
    }
}

/// The query of a callback.
#[derive(Debug, Clone, PartialEq, Eq)]
pub struct CallbackQuery {
    /// The token that the relying party put into `return_to`.
    pub custom_nonce: String,
    pub assertion: PositiveAssertion,
}

/// The mathematical value of a [`CallbackQuery`].
pub struct CallbackQueryView {
    pub custom_nonce: Seq<char>,
    pub assertion: PositiveAssertionView,
}

impl View for CallbackQuery {
    type V = CallbackQueryView;

    open spec fn view(&self) -> CallbackQueryView {
        CallbackQueryView { custom_nonce: self.custom_nonce@, assertion: self.assertion@ }
    }
}

/// The callback that the query `pairs` holds: the token first, then the
/// assertion.
pub open spec fn callback_query_spec(pairs: Seq<(Seq<char>, Seq<char>)>) -> Result<
    CallbackQueryView,
    FieldError,
> {
    match field_spec(pairs, Field::CustomNonce) {
        Err(e) => Err(e),
        Ok(custom_nonce) => match assertion_spec(pairs) {
            Err(e) => Err(e),
            Ok(assertion) => Ok(CallbackQueryView { custom_nonce, assertion }),
        },
    }
}

impl CallbackQuery {
    /// Reads a callback out of the pairs of a query.
    pub fn from_pairs(pairs: &Vec<(String, String)>) -> (r: Result<CallbackQuery, FieldError>)
        ensures
            match r {
                Ok(q) => callback_query_spec(texts(pairs@)) == Ok::<_, FieldError>(q@),
                Err(e) => callback_query_spec(texts(pairs@)) == Err::<CallbackQueryView, _>(e),
            },
    {
        let custom_nonce = match field_value(pairs, Field::CustomNonce) {
            Ok(v) => v,
            Err(e) => {
                return Err(e);
            },
        };
        match PositiveAssertion::from_pairs(pairs) {
            Ok(assertion) => Ok(CallbackQuery { custom_nonce, assertion }),
            Err(e) => Err(e),
        }
    }
}

} // verus!
