//! The closed set of external authentication providers.
//!
//! Stored internally as a tagged variant; encoded on the wire as the
//! matching closed enumeration of integer codes, with code zero reserved
//! for an unspecified value. Mapping in either direction outside the known
//! set is an error.

use vstd::prelude::*;
use crate::error::ServiceError;

verus! {

/// One external authentication source.
#[derive(Clone, Copy, Debug, PartialEq, Eq, Structural)]
pub enum Provider {
    Google,
    Github,
    Twitter,
    Discord,
    Apple,
    Microsoft,
    Email,
}

/// The wire code of each provider, in the order of the wire enumeration.
pub open spec fn provider_code(p: Provider) -> i32 {
    match p {
        Provider::Google => 1,
        Provider::Github => 2,
        Provider::Twitter => 3,
        Provider::Discord => 4,
        Provider::Apple => 5,
        Provider::Microsoft => 6,
        Provider::Email => 7,
    }
}

/// The provider a wire code names, if any.
pub open spec fn provider_of_code(code: i32) -> Option<Provider> {
    if code == 1 {
        Some(Provider::Google)
    } else if code == 2 {
        Some(Provider::Github)
    } else if code == 3 {
        Some(Provider::Twitter)
    } else if code == 4 {
        Some(Provider::Discord)
    } else if code == 5 {
        Some(Provider::Apple)
    } else if code == 6 {
        Some(Provider::Microsoft)
    } else if code == 7 {
        Some(Provider::Email)
    } else {
        None
    }
}

/// The lowercase name of each provider, as the store records it.
pub open spec fn provider_name(p: Provider) -> Seq<char> {
    match p {
        Provider::Google => "google"@,
        Provider::Github => "github"@,
        Provider::Twitter => "twitter"@,
        Provider::Discord => "discord"@,
        Provider::Apple => "apple"@,
        Provider::Microsoft => "microsoft"@,
        Provider::Email => "email"@,
    }
}

impl Provider {
    /// Encode the provider as its wire code.
    pub fn to_code(self) -> (r: i32)
        ensures
            r == provider_code(self),
            provider_of_code(r) == Some(self),
    {
        match self {
            Provider::Google => 1,
            Provider::Github => 2,
            Provider::Twitter => 3,
            Provider::Discord => 4,
            Provider::Apple => 5,
            Provider::Microsoft => 6,
            Provider::Email => 7,
        }
    }

    /// Decode a wire code; a code outside the known set is a caller error.
    pub fn from_code(code: i32) -> (r: Result<Provider, ServiceError>)
        ensures
            r matches Ok(p) ==> provider_of_code(code) == Some(p),
            r is Err <==> provider_of_code(code) is None,
            r matches Err(e) ==> e == ServiceError::InvalidArgument,
    {
        if code == 1 {
            Ok(Provider::Google)
        } else if code == 2 {
            Ok(Provider::Github)
        } else if code == 3 {
            Ok(Provider::Twitter)
        } else if code == 4 {
            Ok(Provider::Discord)
        } else if code == 5 {
            Ok(Provider::Apple)
        } else if code == 6 {
            Ok(Provider::Microsoft)
        } else if code == 7 {
            Ok(Provider::Email)
        } else {
            Err(ServiceError::InvalidArgument)
        }
    }

    /// The lowercase name of the provider.
    pub fn name(self) -> (r: &'static str)
        ensures
            r@ == provider_name(self),
    {
        match self {
            Provider::Google => "google",
            Provider::Github => "github",
            Provider::Twitter => "twitter",
            Provider::Discord => "discord",
            Provider::Apple => "apple",
            Provider::Microsoft => "microsoft",
            Provider::Email => "email",
        }
    }
}

/// Map a wire provider code to the stored lowercase name; a code outside
/// the known set is a caller error.
pub fn provider_to_string(code: i32) -> (r: Result<String, ServiceError>)
    ensures
        r matches Ok(s) ==> (provider_of_code(code) matches Some(p) && s@ == provider_name(p)),
        r is Err <==> provider_of_code(code) is None,
        r matches Err(e) ==> e == ServiceError::InvalidArgument,
{
    match Provider::from_code(code) {
        Ok(p) => Ok(p.name().to_owned()),
        Err(e) => Err(e),
    }
}

} // verus!
