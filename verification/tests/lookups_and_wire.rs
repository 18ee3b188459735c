//! Point lookups through each selector and the wire encoding details.

use geist_identity::error::ServiceError;
use geist_identity::service::IdentityServer;
use geist_identity::store::IdentityRepository;
use geist_identity::time::Instant;
use geist_identity::wire::{
    IdentityParams, IdentityRequest, LinkIdentityRequest, Timestamp,
};

const GOOGLE: i32 = 1;
const EMAIL: i32 = 7;

fn uid(n: u128) -> String {
    uuid::Uuid::from_u128(n).to_string()
}

fn full_link_req(user: u128) -> LinkIdentityRequest {
    LinkIdentityRequest {
        user_uid: Some(uid(user)),
        provider: GOOGLE,
        provider_user_id: "acct-1".to_string(),
        provider_email: "a@example.com".to_string(),
        provider_username: String::new(),
        provider_avatar_url: "https://example.com/a.png".to_string(),
        access_token: "SECRET-REDACTED".to_string(),
        refresh_token: String::new(),
        token_expires_at: Some(Timestamp { seconds: 5000, nanos: 120 }),
        verified: true,
    }
}

fn server_with_one() -> IdentityServer {
    let mut s = IdentityServer::new(IdentityRepository::new());
    s.link_identity_with(&full_link_req(7), 100, Instant::new(10, 0))
        .unwrap();
    s
}

#[test]
fn get_by_id_finds_the_row() {
    let s = server_with_one();
    let resp = s
        .get_identity(&IdentityRequest {
            provider: 0,
            params: Some(IdentityParams::Uid(uid(100))),
        })
        .unwrap();
    assert_eq!(resp.identities.len(), 1);
    assert_eq!(resp.identities[0].uid, uid(100));
}

#[test]
fn get_by_id_absence_is_an_empty_response() {
    let s = server_with_one();
    let resp = s
        .get_identity(&IdentityRequest {
            provider: 0,
            params: Some(IdentityParams::Uid(uid(999))),
        })
        .unwrap();
    assert!(resp.identities.is_empty());
}

#[test]
fn get_by_provider_pair_finds_the_row() {
    let s = server_with_one();
    let resp = s
        .get_identity(&IdentityRequest {
            provider: GOOGLE,
            params: Some(IdentityParams::ProviderUserId("acct-1".to_string())),
        })
        .unwrap();
    assert_eq!(resp.identities.len(), 1);
    assert_eq!(resp.identities[0].uid, uid(100));
}

#[test]
fn get_by_provider_with_unknown_code_is_a_caller_error() {
    let s = server_with_one();
    let err = s
        .get_identity(&IdentityRequest {
            provider: 42,
            params: Some(IdentityParams::ProviderUserId("acct-1".to_string())),
        })
        .unwrap_err();
    assert_eq!(err, ServiceError::InvalidArgument);
}

#[test]
fn get_without_selector_is_a_caller_error() {
    let s = server_with_one();
    let err = s
        .get_identity(&IdentityRequest { provider: GOOGLE, params: None })
        .unwrap_err();
    assert_eq!(err, ServiceError::InvalidArgument);
}

#[test]
fn get_with_malformed_uid_is_a_caller_error() {
    let s = server_with_one();
    let err = s
        .get_identity(&IdentityRequest {
            provider: 0,
            params: Some(IdentityParams::Uid("12345".to_string())),
        })
        .unwrap_err();
    assert_eq!(err, ServiceError::InvalidArgument);
}

#[test]
fn wire_shape_carries_fields_and_blanks_absence() {
    let s = server_with_one();
    let resp = s
        .get_identity(&IdentityRequest {
            provider: 0,
            params: Some(IdentityParams::Uid(uid(100))),
        })
        .unwrap();
    let ident = &resp.identities[0];
    assert_eq!(ident.provider, GOOGLE);
    assert_eq!(ident.provider_user_id, "acct-1");
    assert_eq!(ident.provider_email, "a@example.com");
    // Absent optional text renders as the empty string.
    assert_eq!(ident.provider_username, "");
    assert_eq!(ident.provider_avatar_url, "https://example.com/a.png");
    assert!(ident.verified);
    assert_eq!(ident.create_time, Some(Timestamp { seconds: 10, nanos: 0 }));
    assert_eq!(ident.last_used_at, None);
}

#[test]
fn expiry_out_of_range_falls_back_to_link_time() {
    let mut s = IdentityServer::new(IdentityRepository::new());
    let mut req = full_link_req(7);
    // A negative nanosecond part is never a valid timestamp.
    req.token_expires_at = Some(Timestamp { seconds: 5000, nanos: -1 });
    s.link_identity_with(&req, 100, Instant::new(10, 0)).unwrap();
    // The expiry is not visible on the wire; the call simply succeeds and
    // the row exists.
    let resp = s
        .get_identity(&IdentityRequest {
            provider: 0,
            params: Some(IdentityParams::Uid(uid(100))),
        })
        .unwrap();
    assert_eq!(resp.identities.len(), 1);
}

#[test]
fn email_provider_round_trip() {
    let mut s = IdentityServer::new(IdentityRepository::new());
    let mut req = full_link_req(9);
    req.provider = EMAIL;
    req.provider_user_id = "me@example.com".to_string();
    let resp = s.link_identity_with(&req, 300, Instant::new(10, 0)).unwrap();
    assert_eq!(resp.identities[0].provider, EMAIL);
}
