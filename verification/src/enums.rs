//! The URIs and modes that OpenID Authentication 2.0 names.

use vstd::prelude::*;

verus! {

/// A URI of the protocol.
#[derive(Debug, Clone, Copy, PartialEq, Eq)]
pub enum OpenIdUrl {
    IdentifierSelect,
    ReturnTo,
    Server,
    SignOn,
}

impl OpenIdUrl {
    /// The URI as text.
    pub open spec fn text(self) -> Seq<char> {
        match self {
            OpenIdUrl::IdentifierSelect => "http://specs.openid.net/auth/2.0/identifier_select"@,
            OpenIdUrl::ReturnTo => "http://specs.openid.net/auth/2.0/return_to"@,
            OpenIdUrl::Server => "http://specs.openid.net/auth/2.0/server"@,
            OpenIdUrl::SignOn => "http://specs.openid.net/auth/2.0/signon"@,
        }
    }

    /// The URI as text.
    pub fn url(&self) -> (url: &'static str)
        ensures
            url@ == self.text(),
    {
        match self {
            OpenIdUrl::IdentifierSelect => "http://specs.openid.net/auth/2.0/identifier_select",
            OpenIdUrl::ReturnTo => "http://specs.openid.net/auth/2.0/return_to",
            OpenIdUrl::Server => "http://specs.openid.net/auth/2.0/server",
            OpenIdUrl::SignOn => "http://specs.openid.net/auth/2.0/signon",
        }
    }
}

/// The kind of a protocol message.
#[derive(Debug, Clone, Copy, PartialEq, Eq)]
pub enum OpenIdMode {
    Error,
    Associate,
    CheckIdImmediate,
    CheckIdSetup,
    IdentityResolution,
    SetupNeeded,
    Cancel,
    CheckAuthentication,
}

impl OpenIdMode {
    /// The mode as it stands in a message.
    pub open spec fn text(self) -> Seq<char> {
        match self {
            OpenIdMode::Error => "error"@,
            OpenIdMode::Associate => "associate"@,
            OpenIdMode::CheckIdImmediate => "checkid_immediate"@,
            OpenIdMode::CheckIdSetup => "checkid_setup"@,
            OpenIdMode::IdentityResolution => "id_res"@,
            OpenIdMode::SetupNeeded => "setup_needed"@,
            OpenIdMode::Cancel => "cancel"@,
            OpenIdMode::CheckAuthentication => "check_authentication"@,
        }
    }

    /// The mode as it stands in a message.
    pub fn value(&self) -> (mode: &'static str)
        ensures
            mode@ == self.text(),
    {
        match self {
            OpenIdMode::Error => "error",
            OpenIdMode::Associate => "associate",
            OpenIdMode::CheckIdImmediate => "checkid_immediate",
            OpenIdMode::CheckIdSetup => "checkid_setup",
            OpenIdMode::IdentityResolution => "id_res",
            OpenIdMode::SetupNeeded => "setup_needed",
            OpenIdMode::Cancel => "cancel",
            OpenIdMode::CheckAuthentication => "check_authentication",
        }
    }
}

} // verus!
