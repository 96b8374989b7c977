//! The names and fixed values of OpenID Authentication 2.0 messages.

use vstd::prelude::*;

verus! {

/// The key of the protocol version.
pub const OPENID_NAMESPACE: &'static str = "openid.ns";

/// The protocol version that this library speaks.
pub const OPENID_AUTH_NAMESPACE: &'static str = "http://specs.openid.net/auth/2.0";

/// The key of the identifier that the user claims to own.
pub const OPENID_CLAIMED_ID: &'static str = "openid.claimed_id";

/// The key of the identifier that the provider knows the user by.
pub const OPENID_IDENTITY: &'static str = "openid.identity";

/// Asks the provider to let the user choose the identifier.
pub const OPENID_IDENTIFIER_SELECT: &'static str =
    "http://specs.openid.net/auth/2.0/identifier_select";

/// The key of the kind of message.
pub const OPENID_MODE: &'static str = "openid.mode";

/// A request that must not interact with the user.
pub const OPENID_MODE_CHECKID_IMMEDIATE: &'static str = "checkid_immediate";

/// A request during which the provider may interact with the user.
pub const OPENID_MODE_CHECKID_SETUP: &'static str = "checkid_setup";

/// A positive assertion.
pub const OPENID_MODE_IDENTIFIER_RESPONSE: &'static str = "id_res";

/// A request to confirm an assertion directly with the provider.
pub const OPENID_MODE_CHECK_AUTHENTICATION: &'static str = "check_authentication";

/// An error message.
pub const OPENID_MODE_ERROR: &'static str = "error";

/// The key of the URL to which the provider sends the user back.
pub const OPENID_RETURN_TO: &'static str = "openid.return_to";

/// The key of the URL pattern that the user is asked to trust.
pub const OPENID_REALM: &'static str = "openid.realm";

/// The service type of a provider endpoint in a discovery document.
pub const OPENID_PROVIDER_IDENTIFIER: &'static str = "http://specs.openid.net/auth/2.0/server";

/// The key of the provider's endpoint URL.
pub const OPENID_OP_ENDPOINT: &'static str = "openid.op_endpoint";

/// The key of the provider's nonce: a time stamp followed by a salt.
pub const OPENID_RESPONSE_NONCE: &'static str = "openid.response_nonce";

/// The key of a handle that the provider declares invalid.
pub const OPENID_INVALIDATE_HANDLE: &'static str = "openid.invalidate_handle";

/// The key of the handle of the association that signed the assertion.
pub const OPENID_ASSOCIATION_HANDLE: &'static str = "openid.assoc_handle";

/// The key of the comma-separated list of signed fields.
pub const OPENID_SIGNED_FIELDS: &'static str = "openid.signed";

/// The key of the signature.
pub const OPENID_SIGNATURE: &'static str = "openid.sig";

/// The greatest length of a provider's nonce, in characters.
pub const OPENID_RESPONSE_NONCE_MAX_LEN: usize = 255;

/// What every key of a message starts with.
pub const OPENID_FIELD_PREFIX: &'static str = "openid.";

/// The attribute by which a discovery document ranks its services.
pub const OPENID_PRIORITY_ATTRIBUTE: &'static str = "priority";

/// The key under which the relying party's own token travels.
pub const CUSTOM_NONCE: &'static str = "custom_nonce";

/// What the identifier of a Steam user starts with; the rest is the user's
/// number.
pub const STEAM_IDENTITY_PREFIX: &'static str = "https://steamcommunity.com/openid/id/";

} // verus!
