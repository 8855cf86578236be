//! Provider authentication methods.
use vstd::prelude::*;

verus! {

/// How the agent authenticates to a model provider.
#[derive(Debug, Clone, Copy, PartialEq, Eq, Structural)]
pub enum ProviderAuthMethod {
    ApiKey,
    OauthToken,
    Adc,
    SessionToken,
}

pub open spec fn auth_method_name(m: ProviderAuthMethod) -> Seq<char> {
    match m {
        ProviderAuthMethod::ApiKey => "api_key"@,
        ProviderAuthMethod::OauthToken => "oauth_token"@,
        ProviderAuthMethod::Adc => "adc"@,
        ProviderAuthMethod::SessionToken => "session_token"@,
    }
}

impl ProviderAuthMethod {
    /// The snake_case name used in configuration files.
    pub fn as_str(self) -> (s: &'static str)
        ensures
            s@ == auth_method_name(self),
    {
        match self {
            ProviderAuthMethod::ApiKey => "api_key",
            ProviderAuthMethod::OauthToken => "oauth_token",
            ProviderAuthMethod::Adc => "adc",
            ProviderAuthMethod::SessionToken => "session_token",
        }
    }
}

} // verus!
