//! The persisted identity entity and its mathematical model.
//!
//! One `UserIdentity` is one linkage between a user and one external
//! provider account. Its model replaces every string by its character
//! sequence, so that contracts speak of values, not allocations.

use vstd::prelude::*;
use crate::provider::Provider;
use crate::time::Instant;

verus! {

/// One row of the identity store.
#[derive(Debug)]
pub struct UserIdentity {
    pub id: u128,
    pub user_id: u128,
    pub provider: Provider,
    pub provider_user_id: String,
    pub provider_email: Option<String>,
    pub provider_username: Option<String>,
    pub provider_avatar_url: Option<String>,
    pub access_token_encrypted: Option<String>,
    pub refresh_token_encrypted: Option<String>,
    pub token_expires_at: Option<Instant>,
    pub metadata: Option<String>,
    pub is_primary: bool,
    pub verified: bool,
    pub create_time: Instant,
    pub update_time: Instant,
    pub last_used_at: Option<Instant>,
}

/// The mathematical value of one identity row.
#[verifier::ext_equal]
pub ghost struct IdentityModel {
    pub id: u128,
    pub user_id: u128,
    pub provider: Provider,
    pub provider_user_id: Seq<char>,
    pub provider_email: Option<Seq<char>>,
    pub provider_username: Option<Seq<char>>,
    pub provider_avatar_url: Option<Seq<char>>,
    pub access_token_encrypted: Option<Seq<char>>,
    pub refresh_token_encrypted: Option<Seq<char>>,
    pub token_expires_at: Option<Instant>,
    pub metadata: Option<Seq<char>>,
    pub is_primary: bool,
    pub verified: bool,
    pub create_time: Instant,
    pub update_time: Instant,
    pub last_used_at: Option<Instant>,
}

impl IdentityModel {
    /// Every timestamp of the row is in range.
    pub open spec fn wf(self) -> bool {
        &&& self.create_time.wf()
        &&& self.update_time.wf()
        &&& (self.token_expires_at matches Some(t) ==> t.wf())
        &&& (self.last_used_at matches Some(t) ==> t.wf())
    }
}

impl View for UserIdentity {
    type V = IdentityModel;

    open spec fn view(&self) -> IdentityModel {
        IdentityModel {
            id: self.id,
            user_id: self.user_id,
            provider: self.provider,
            provider_user_id: self.provider_user_id@,
            provider_email: self.provider_email.deep_view(),
            provider_username: self.provider_username.deep_view(),
            provider_avatar_url: self.provider_avatar_url.deep_view(),
            access_token_encrypted: self.access_token_encrypted.deep_view(),
            refresh_token_encrypted: self.refresh_token_encrypted.deep_view(),
            token_expires_at: self.token_expires_at,
            metadata: self.metadata.deep_view(),
            is_primary: self.is_primary,
            verified: self.verified,
            create_time: self.create_time,
            update_time: self.update_time,
            last_used_at: self.last_used_at,
        }
    }
}

impl DeepView for UserIdentity {
    type V = IdentityModel;

    open spec fn deep_view(&self) -> IdentityModel {
        self.view()
    }
}

/// Copy an optional string, preserving its value.
pub(crate) fn clone_opt_string(o: &Option<String>) -> (r: Option<String>)
    ensures
        r.deep_view() == o.deep_view(),
{
    match o {
        Some(s) => Some(s.clone()),
        None => None,
    }
}

impl Clone for UserIdentity {
    /// A copy denotes the same model value.
    fn clone(&self) -> (res: Self)
        ensures
            res@ == self@,
    {
        UserIdentity {
            id: self.id,
            user_id: self.user_id,
            provider: self.provider,
            provider_user_id: self.provider_user_id.clone(),
            provider_email: clone_opt_string(&self.provider_email),
            provider_username: clone_opt_string(&self.provider_username),
            provider_avatar_url: clone_opt_string(&self.provider_avatar_url),
            access_token_encrypted: clone_opt_string(&self.access_token_encrypted),
            refresh_token_encrypted: clone_opt_string(&self.refresh_token_encrypted),
            token_expires_at: self.token_expires_at,
            metadata: clone_opt_string(&self.metadata),
            is_primary: self.is_primary,
            verified: self.verified,
            create_time: self.create_time,
            update_time: self.update_time,
            last_used_at: self.last_used_at,
        }
    }
}

/// The caller-supplied draft of a new identity row; the store assigns the
/// identifier and both timestamps.
pub struct CreateIdentity {
    pub user_id: u128,
    pub provider: Provider,
    pub provider_user_id: String,
    pub provider_email: Option<String>,
    pub provider_username: Option<String>,
    pub provider_avatar_url: Option<String>,
    pub access_token_encrypted: Option<String>,
    pub refresh_token_encrypted: Option<String>,
    pub token_expires_at: Option<Instant>,
    pub metadata: Option<String>,
    pub is_primary: bool,
    pub verified: bool,
}

/// The row a draft denotes once the store has assigned it an identifier
/// and a creation time.
pub open spec fn row_of_draft(d: &CreateIdentity, id: u128, now: Instant) -> IdentityModel {
    IdentityModel {
        id: id,
        user_id: d.user_id,
        provider: d.provider,
        provider_user_id: d.provider_user_id@,
        provider_email: d.provider_email.deep_view(),
        provider_username: d.provider_username.deep_view(),
        provider_avatar_url: d.provider_avatar_url.deep_view(),
        access_token_encrypted: d.access_token_encrypted.deep_view(),
        refresh_token_encrypted: d.refresh_token_encrypted.deep_view(),
        token_expires_at: d.token_expires_at,
        metadata: d.metadata.deep_view(),
        is_primary: d.is_primary,
        verified: d.verified,
        create_time: now,
        update_time: now,
        last_used_at: None,
    }
}

impl CreateIdentity {
    /// Every timestamp of the draft is in range.
    pub open spec fn wf(self) -> bool {
        self.token_expires_at matches Some(t) ==> t.wf()
    }
}

} // verus!
