//! The relying party's half of a login with OpenID Authentication 2.0,
//! for one provider at a time.
//!
//! The library resolves a provider from its discovery document
//! ([`provider`]), builds the request that sends a user to it ([`params`]),
//! reads the assertion that comes back ([`callback`]), holds it to the rules
//! of the protocol and of the provider ([`response`]), prepares its
//! confirmation with the provider and reads the verdict ([`validate`]), and
//! decides what each step of a login calls for ([`session`]). The tokens
//! that tie a callback to the login it belongs to are kept in a
//! [`nonce_set::NonceSet`]; the provider's own nonce is a
//! [`response_nonce::ResponseNonce`].
//!
//! Two wire formats come with the protocol: lists separated by commas
//! ([`comma_separated`]) and records of key and value ([`key_values`]).
//!
//! Nothing here sends or receives. Texts come in and go out as strings, and
//! every function says in its contract what it gives for each of them.

pub mod callback;
pub mod comma_separated;
pub mod constants;
pub mod entries;
pub mod enums;
pub mod key_values;
pub mod nonce_set;
pub mod number;
pub mod params;
pub mod provider;
pub mod response;
pub mod response_nonce;
pub mod session;
pub mod shape;
pub mod text;
pub mod validate;
pub mod xml;
pub mod xml_util;
