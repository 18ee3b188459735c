//! The wire representation of identities and the requests the service
//! accepts, with the mapping from the persisted entity.
//!
//! A provider travels as an integer code of the closed enumeration; an
//! instant travels as a seconds plus nanoseconds pair; an optional text
//! field absent internally travels as the empty string, so absence and
//! empty string are indistinguishable at this boundary.

use vstd::prelude::*;
use crate::identity::{IdentityModel, UserIdentity};
use crate::ids::{format_uuid, uuid_str_of};
use crate::provider::provider_code;
use crate::time::Instant;

verus! {

/// An instant on the wire.
#[derive(Clone, Copy, Debug, PartialEq, Eq, Structural)]
pub struct Timestamp {
    pub seconds: i64,
    pub nanos: i32,
}

/// One identity on the wire.
#[derive(Debug)]
pub struct Identity {
    pub uid: String,
    pub user_uid: String,
    pub provider: i32,
    pub provider_user_id: String,
    pub provider_email: String,
    pub provider_username: String,
    pub provider_avatar_url: String,
    pub is_primary: bool,
    pub verified: bool,
    pub create_time: Option<Timestamp>,
    pub update_time: Option<Timestamp>,
    pub last_used_at: Option<Timestamp>,
}

/// The mathematical value of one wire identity.
#[verifier::ext_equal]
pub ghost struct WireIdentityModel {
    pub uid: Seq<char>,
    pub user_uid: Seq<char>,
    pub provider: i32,
    pub provider_user_id: Seq<char>,
    pub provider_email: Seq<char>,
    pub provider_username: Seq<char>,
    pub provider_avatar_url: Seq<char>,
    pub is_primary: bool,
    pub verified: bool,
    pub create_time: Option<Timestamp>,
    pub update_time: Option<Timestamp>,
    pub last_used_at: Option<Timestamp>,
}

impl View for Identity {
    type V = WireIdentityModel;

    open spec fn view(&self) -> WireIdentityModel {
        WireIdentityModel {
            uid: self.uid@,
            user_uid: self.user_uid@,
            provider: self.provider,
            provider_user_id: self.provider_user_id@,
            provider_email: self.provider_email@,
            provider_username: self.provider_username@,
            provider_avatar_url: self.provider_avatar_url@,
            is_primary: self.is_primary,
            verified: self.verified,
            create_time: self.create_time,
            update_time: self.update_time,
            last_used_at: self.last_used_at,
        }
    }
}

impl DeepView for Identity {
    type V = WireIdentityModel;

    open spec fn deep_view(&self) -> WireIdentityModel {
        self.view()
    }
}

/// An in-range instant as it is encoded on the wire.
pub open spec fn wire_timestamp(i: Instant) -> Timestamp {
    Timestamp { seconds: i.seconds, nanos: i.nanos as i32 }
}

/// An optional text field on the wire: the empty string stands for absence.
pub open spec fn text_of_opt(o: Option<Seq<char>>) -> Seq<char> {
    match o {
        Some(s) => s,
        None => Seq::<char>::empty(),
    }
}

/// The wire encoding of one stored identity.
pub open spec fn wire_of(m: IdentityModel) -> WireIdentityModel {
    WireIdentityModel {
        uid: uuid_str_of(m.id),
        user_uid: uuid_str_of(m.user_id),
        provider: provider_code(m.provider),
        provider_user_id: m.provider_user_id,
        provider_email: text_of_opt(m.provider_email),
        provider_username: text_of_opt(m.provider_username),
        provider_avatar_url: text_of_opt(m.provider_avatar_url),
        is_primary: m.is_primary,
        verified: m.verified,
        create_time: Some(wire_timestamp(m.create_time)),
        update_time: Some(wire_timestamp(m.update_time)),
        last_used_at: match m.last_used_at {
            Some(t) => Some(wire_timestamp(t)),
            None => None,
        },
    }
}

/// Copy an optional text field to the wire, the empty string for absence.
fn text_field(o: &Option<String>) -> (r: String)
    ensures
        r@ == text_of_opt(o.deep_view()),
{
    match o {
        Some(s) => s.clone(),
        None => String::new(),
    }
}

/// Encode an in-range instant for the wire.
fn encode_instant(i: Instant) -> (r: Timestamp)
    requires
        i.wf(),
    ensures
        r == wire_timestamp(i),
{
    Timestamp { seconds: i.seconds, nanos: i.nanos as i32 }
}

impl UserIdentity {
    /// Shape one stored identity for the wire. The provider mapping is
    /// total here: the stored provider is already a member of the closed
    /// set, so the encoding cannot fail.
    pub fn to_proto(&self) -> (r: Identity)
        requires
            self@.wf(),
        ensures
            r@ == wire_of(self@),
    {
        let r = Identity {
            uid: format_uuid(self.id),
            user_uid: format_uuid(self.user_id),
            provider: self.provider.to_code(),
            provider_user_id: self.provider_user_id.clone(),
            provider_email: text_field(&self.provider_email),
            provider_username: text_field(&self.provider_username),
            provider_avatar_url: text_field(&self.provider_avatar_url),
            is_primary: self.is_primary,
            verified: self.verified,
            create_time: Some(encode_instant(self.create_time)),
            update_time: Some(encode_instant(self.update_time)),
            last_used_at: match self.last_used_at {
                Some(t) => Some(encode_instant(t)),
                None => None,
            },
        };
        proof {
            assert(r@ =~= wire_of(self@));
        }
        r
    }
}

/// The selector of a point lookup: exactly one may be populated.
#[derive(Debug)]
pub enum IdentityParams {
    /// By identity identifier.
    Uid(String),
    /// By owner; the primary identity answers.
    UserUid(String),
    /// By the provider's own account identifier, with the provider code
    /// carried separately in the request.
    ProviderUserId(String),
}

/// A point-lookup request.
#[derive(Debug)]
pub struct IdentityRequest {
    pub provider: i32,
    pub params: Option<IdentityParams>,
}

/// A listing request.
#[derive(Debug)]
pub struct ListIdentitiesRequest {
    pub user_uid: String,
}

/// A link request: profile fields and tokens travel as plain text, the
/// empty string standing for absence.
#[derive(Debug)]
pub struct LinkIdentityRequest {
    pub user_uid: Option<String>,
    pub provider: i32,
    pub provider_user_id: String,
    pub provider_email: String,
    pub provider_username: String,
    pub provider_avatar_url: String,
    pub access_token: String,
    pub refresh_token: String,
    pub token_expires_at: Option<Timestamp>,
    pub verified: bool,
}

/// An unlink request.
#[derive(Debug)]
pub struct UnlinkIdentityRequest {
    pub identity_uid: String,
    pub user_uid: String,
}

/// A primary-switch request.
#[derive(Debug)]
pub struct SetPrimaryIdentityRequest {
    pub identity_uid: String,
    pub user_uid: String,
}

/// The response shape shared by every identity operation.
#[derive(Debug)]
pub struct IdentityResponse {
    pub identities: Vec<Identity>,
}

} // verus!
