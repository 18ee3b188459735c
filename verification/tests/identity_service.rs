//! End-to-end exercises of the identity service over an in-memory store.

use geist_identity::error::ServiceError;
use geist_identity::service::IdentityServer;
use geist_identity::store::IdentityRepository;
use geist_identity::time::Instant;
use geist_identity::wire::{
    IdentityParams, IdentityRequest, LinkIdentityRequest, ListIdentitiesRequest,
    SetPrimaryIdentityRequest, Timestamp, UnlinkIdentityRequest,
};

const GOOGLE: i32 = 1;
const GITHUB: i32 = 2;
const TWITTER: i32 = 3;

fn uid(n: u128) -> String {
    uuid::Uuid::from_u128(n).to_string()
}

fn server() -> IdentityServer {
    IdentityServer::new(IdentityRepository::new())
}

fn link_req(user: Option<u128>, provider: i32, account: &str) -> LinkIdentityRequest {
    LinkIdentityRequest {
        user_uid: user.map(uid),
        provider,
        provider_user_id: account.to_string(),
        provider_email: String::new(),
        provider_username: String::new(),
        provider_avatar_url: String::new(),
        access_token: String::new(),
        refresh_token: String::new(),
        token_expires_at: None,
        verified: false,
    }
}

fn at(seconds: i64) -> Instant {
    Instant::new(seconds, 0)
}

#[test]
fn first_link_is_primary() {
    let mut s = server();
    let resp = s
        .link_identity_with(&link_req(Some(7), GOOGLE, "g-1"), 100, at(10))
        .expect("first link succeeds");
    assert_eq!(resp.identities.len(), 1);
    let ident = &resp.identities[0];
    assert!(ident.is_primary);
    assert_eq!(ident.uid, uid(100));
    assert_eq!(ident.user_uid, uid(7));
    assert_eq!(ident.provider, GOOGLE);
    assert_eq!(ident.provider_user_id, "g-1");
    assert_eq!(ident.create_time, Some(Timestamp { seconds: 10, nanos: 0 }));
    assert_eq!(ident.update_time, Some(Timestamp { seconds: 10, nanos: 0 }));
    assert_eq!(ident.last_used_at, None);
    // The owner's pointer was written in the same unit of work.
    assert_eq!(s.primary_pointer(7), Some(100));
    assert_eq!(s.primary_pointer(8), None);
}

#[test]
fn second_link_is_not_primary() {
    let mut s = server();
    s.link_identity_with(&link_req(Some(7), GOOGLE, "g-1"), 100, at(10))
        .unwrap();
    let resp = s
        .link_identity_with(&link_req(Some(7), GITHUB, "gh-1"), 101, at(20))
        .unwrap();
    assert!(!resp.identities[0].is_primary);
}

#[test]
fn relink_is_idempotent() {
    let mut s = server();
    s.link_identity_with(&link_req(Some(7), GOOGLE, "g-1"), 100, at(10))
        .unwrap();
    // The same (provider, account) pair again, even naming another user:
    // no second row, only a last-use refresh of the existing one.
    let resp = s
        .link_identity_with(&link_req(Some(8), GOOGLE, "g-1"), 200, at(50))
        .expect("refresh succeeds");
    assert_eq!(resp.identities.len(), 1);
    let ident = &resp.identities[0];
    assert_eq!(ident.uid, uid(100));
    assert_eq!(ident.user_uid, uid(7));
    assert_eq!(ident.last_used_at, Some(Timestamp { seconds: 50, nanos: 0 }));
    assert_eq!(ident.update_time, Some(Timestamp { seconds: 50, nanos: 0 }));
    assert_eq!(ident.create_time, Some(Timestamp { seconds: 10, nanos: 0 }));

    let listing = s
        .list_identities(&ListIdentitiesRequest { user_uid: uid(7) })
        .unwrap();
    assert_eq!(listing.identities.len(), 1);
}

#[test]
fn link_without_user_is_unimplemented() {
    let mut s = server();
    let err = s
        .link_identity_with(&link_req(None, GOOGLE, "g-1"), 100, at(10))
        .unwrap_err();
    assert_eq!(err, ServiceError::Unimplemented);
}

#[test]
fn link_with_unknown_provider_is_a_caller_error() {
    let mut s = server();
    let err = s
        .link_identity_with(&link_req(Some(7), 99, "x"), 100, at(10))
        .unwrap_err();
    assert_eq!(err, ServiceError::InvalidArgument);
}

#[test]
fn link_with_malformed_user_uid_is_a_caller_error() {
    let mut s = server();
    let mut req = link_req(Some(7), GOOGLE, "g-1");
    req.user_uid = Some("not-a-uuid".to_string());
    let err = s.link_identity_with(&req, 100, at(10)).unwrap_err();
    assert_eq!(err, ServiceError::InvalidArgument);
}

#[test]
fn unlink_sole_identity_fails_precondition() {
    let mut s = server();
    s.link_identity_with(&link_req(Some(7), GOOGLE, "g-1"), 100, at(10))
        .unwrap();
    let err = s
        .unlink_identity_with(
            &UnlinkIdentityRequest { identity_uid: uid(100), user_uid: uid(7) },
            at(20),
        )
        .unwrap_err();
    assert_eq!(err, ServiceError::FailedPrecondition);
    // Nothing was mutated: the identity is still there and still primary.
    let listing = s
        .list_identities(&ListIdentitiesRequest { user_uid: uid(7) })
        .unwrap();
    assert_eq!(listing.identities.len(), 1);
    assert!(listing.identities[0].is_primary);
}

#[test]
fn unlink_missing_identity_is_not_found() {
    let mut s = server();
    s.link_identity_with(&link_req(Some(7), GOOGLE, "g-1"), 100, at(10))
        .unwrap();
    let err = s
        .unlink_identity_with(
            &UnlinkIdentityRequest { identity_uid: uid(999), user_uid: uid(7) },
            at(20),
        )
        .unwrap_err();
    assert_eq!(err, ServiceError::NotFound);
}

#[test]
fn unlink_foreign_identity_is_permission_denied() {
    let mut s = server();
    s.link_identity_with(&link_req(Some(7), GOOGLE, "g-1"), 100, at(10))
        .unwrap();
    s.link_identity_with(&link_req(Some(8), GITHUB, "gh-1"), 101, at(20))
        .unwrap();
    let err = s
        .unlink_identity_with(
            &UnlinkIdentityRequest { identity_uid: uid(100), user_uid: uid(8) },
            at(30),
        )
        .unwrap_err();
    assert_eq!(err, ServiceError::PermissionDenied);
}

#[test]
fn unlink_primary_transfers_to_oldest_remaining() {
    let mut s = server();
    // Primary first; then two more, created out of order in time.
    s.link_identity_with(&link_req(Some(7), GOOGLE, "g-1"), 100, at(10))
        .unwrap();
    s.link_identity_with(&link_req(Some(7), GITHUB, "gh-1"), 101, at(40))
        .unwrap();
    s.link_identity_with(&link_req(Some(7), TWITTER, "tw-1"), 102, at(25))
        .unwrap();
    s.unlink_identity_with(
        &UnlinkIdentityRequest { identity_uid: uid(100), user_uid: uid(7) },
        at(50),
    )
    .expect("unlink succeeds");
    // The twitter identity, created at 25, is the oldest remaining.
    let listing = s
        .list_identities(&ListIdentitiesRequest { user_uid: uid(7) })
        .unwrap();
    assert_eq!(listing.identities.len(), 2);
    assert!(listing.identities[0].is_primary);
    assert_eq!(listing.identities[0].uid, uid(102));
    assert!(!listing.identities[1].is_primary);
    assert_eq!(listing.identities[1].uid, uid(101));
    // The owner's pointer moved with the primary designation.
    assert_eq!(s.primary_pointer(7), Some(102));
}

#[test]
fn set_primary_switches_flags_atomically() {
    let mut s = server();
    s.link_identity_with(&link_req(Some(7), GOOGLE, "g-1"), 100, at(10))
        .unwrap();
    s.link_identity_with(&link_req(Some(7), GITHUB, "gh-1"), 101, at(20))
        .unwrap();
    let resp = s
        .set_primary_identity_with(
            &SetPrimaryIdentityRequest { identity_uid: uid(101), user_uid: uid(7) },
            at(30),
        )
        .expect("switch succeeds");
    assert!(resp.identities[0].is_primary);
    assert_eq!(resp.identities[0].uid, uid(101));
    assert_eq!(s.primary_pointer(7), Some(101));
    let listing = s
        .list_identities(&ListIdentitiesRequest { user_uid: uid(7) })
        .unwrap();
    assert_eq!(listing.identities.len(), 2);
    assert_eq!(listing.identities[0].uid, uid(101));
    assert!(listing.identities[0].is_primary);
    assert!(!listing.identities[1].is_primary);
}

#[test]
fn set_primary_on_foreign_identity_changes_nothing() {
    let mut s = server();
    s.link_identity_with(&link_req(Some(7), GOOGLE, "g-1"), 100, at(10))
        .unwrap();
    s.link_identity_with(&link_req(Some(8), GITHUB, "gh-1"), 101, at(20))
        .unwrap();
    let err = s
        .set_primary_identity_with(
            &SetPrimaryIdentityRequest { identity_uid: uid(101), user_uid: uid(7) },
            at(30),
        )
        .unwrap_err();
    assert_eq!(err, ServiceError::PermissionDenied);
    // No primary flag moved anywhere.
    let seven = s
        .list_identities(&ListIdentitiesRequest { user_uid: uid(7) })
        .unwrap();
    assert!(seven.identities[0].is_primary);
    assert_eq!(seven.identities[0].uid, uid(100));
    let eight = s
        .list_identities(&ListIdentitiesRequest { user_uid: uid(8) })
        .unwrap();
    assert!(eight.identities[0].is_primary);
    assert_eq!(eight.identities[0].uid, uid(101));
}

#[test]
fn set_primary_missing_identity_is_not_found() {
    let mut s = server();
    s.link_identity_with(&link_req(Some(7), GOOGLE, "g-1"), 100, at(10))
        .unwrap();
    let err = s
        .set_primary_identity_with(
            &SetPrimaryIdentityRequest { identity_uid: uid(999), user_uid: uid(7) },
            at(30),
        )
        .unwrap_err();
    assert_eq!(err, ServiceError::NotFound);
}

#[test]
fn sole_identity_guard_then_transfer() {
    // One user with only a google identity: unlinking it fails and
    // changes nothing; after linking a github identity the unlink
    // succeeds and the github identity inherits primacy, pointer and all.
    let mut s = server();
    s.link_identity_with(&link_req(Some(7), GOOGLE, "g-1"), 100, at(10))
        .unwrap();
    let err = s
        .unlink_identity_with(
            &UnlinkIdentityRequest { identity_uid: uid(100), user_uid: uid(7) },
            at(15),
        )
        .unwrap_err();
    assert_eq!(err, ServiceError::FailedPrecondition);
    let listing = s
        .list_identities(&ListIdentitiesRequest { user_uid: uid(7) })
        .unwrap();
    assert_eq!(listing.identities.len(), 1);
    assert!(listing.identities[0].is_primary);

    let b = s
        .link_identity_with(&link_req(Some(7), GITHUB, "gh123"), 101, at(20))
        .unwrap();
    assert!(!b.identities[0].is_primary);

    s.unlink_identity_with(
        &UnlinkIdentityRequest { identity_uid: uid(100), user_uid: uid(7) },
        at(30),
    )
    .expect("unlink succeeds once a second identity exists");

    let after = s
        .list_identities(&ListIdentitiesRequest { user_uid: uid(7) })
        .unwrap();
    assert_eq!(after.identities.len(), 1);
    assert_eq!(after.identities[0].uid, uid(101));
    assert!(after.identities[0].is_primary);
    // The owner's stored primary reference follows: the primary-first
    // point lookup answers with the github identity.
    let got = s
        .get_identity(&IdentityRequest {
            provider: 0,
            params: Some(IdentityParams::UserUid(uid(7))),
        })
        .unwrap();
    assert_eq!(got.identities.len(), 1);
    assert_eq!(got.identities[0].uid, uid(101));
    assert_eq!(s.primary_pointer(7), Some(101));
}

#[test]
fn listing_is_primary_first_then_creation_order() {
    let mut s = server();
    s.link_identity_with(&link_req(Some(7), GOOGLE, "g-1"), 100, at(30))
        .unwrap();
    s.link_identity_with(&link_req(Some(7), GITHUB, "gh-1"), 101, at(20))
        .unwrap();
    s.link_identity_with(&link_req(Some(7), TWITTER, "tw-1"), 102, at(25))
        .unwrap();
    let listing = s
        .list_identities(&ListIdentitiesRequest { user_uid: uid(7) })
        .unwrap();
    let uids: Vec<String> = listing.identities.iter().map(|i| i.uid.clone()).collect();
    // The primary (created at 30) first, then the rest by creation time.
    assert_eq!(uids, vec![uid(100), uid(101), uid(102)]);
}

#[test]
fn link_with_colliding_identifier_is_internal() {
    let mut s = server();
    s.link_identity_with(&link_req(Some(7), GOOGLE, "g-1"), 100, at(10))
        .unwrap();
    // A second row under an identifier the store already holds trips the
    // store-level constraint, surfaced as an opaque internal failure.
    let err = s
        .link_identity_with(&link_req(Some(7), GITHUB, "gh-1"), 100, at(20))
        .unwrap_err();
    assert_eq!(err, ServiceError::Internal);
    let listing = s
        .list_identities(&ListIdentitiesRequest { user_uid: uid(7) })
        .unwrap();
    assert_eq!(listing.identities.len(), 1);
}

#[test]
fn full_flow_with_real_clock_and_identifiers() {
    let mut s = server();
    let a = s
        .link_identity(&link_req(Some(7), GOOGLE, "g-1"))
        .expect("first link succeeds");
    assert!(a.identities[0].is_primary);
    let a_uid = a.identities[0].uid.clone();
    assert!(uuid::Uuid::parse_str(&a_uid).is_ok());

    let b = s
        .link_identity(&link_req(Some(7), GITHUB, "gh-1"))
        .expect("second link succeeds");
    assert!(!b.identities[0].is_primary);
    let b_uid = b.identities[0].uid.clone();

    let switched = s
        .set_primary_identity(&SetPrimaryIdentityRequest {
            identity_uid: b_uid.clone(),
            user_uid: uid(7),
        })
        .expect("switch succeeds");
    assert!(switched.identities[0].is_primary);

    s.unlink_identity(&UnlinkIdentityRequest { identity_uid: b_uid, user_uid: uid(7) })
        .expect("unlink succeeds");
    let listing = s
        .list_identities(&ListIdentitiesRequest { user_uid: uid(7) })
        .unwrap();
    assert_eq!(listing.identities.len(), 1);
    assert_eq!(listing.identities[0].uid, a_uid);
    assert!(listing.identities[0].is_primary);
}

#[test]
fn listing_unknown_user_is_empty() {
    let s = server();
    let listing = s
        .list_identities(&ListIdentitiesRequest { user_uid: uid(55) })
        .unwrap();
    assert!(listing.identities.is_empty());
}

#[test]
fn listing_malformed_user_uid_is_a_caller_error() {
    let s = server();
    let err = s
        .list_identities(&ListIdentitiesRequest { user_uid: "zzz".to_string() })
        .unwrap_err();
    assert_eq!(err, ServiceError::InvalidArgument);
}
