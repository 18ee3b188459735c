//! The smaller pieces: providers, instants, levels, environments,
//! interceptors, error names, and the stubbed services.

use geist_identity::config::{Environment, LogLevel};
use geist_identity::error::ServiceError;
use geist_identity::ids::{format_uuid, parse_uuid};
use geist_identity::interceptor::{TokenInterceptor, TraceInterceptor};
use geist_identity::provider::{Provider, provider_to_string};
use geist_identity::stubs::{FeedServer, GroupServer, InfoServer, RoleServer, UserServer};
use geist_identity::time::{Instant, instant_from_parts};

#[test]
fn provider_codes_round_trip() {
    let all = [
        Provider::Google,
        Provider::Github,
        Provider::Twitter,
        Provider::Discord,
        Provider::Apple,
        Provider::Microsoft,
        Provider::Email,
    ];
    for p in all {
        assert_eq!(Provider::from_code(p.to_code()), Ok(p));
    }
    assert_eq!(Provider::Google.to_code(), 1);
    assert_eq!(Provider::Email.to_code(), 7);
}

#[test]
fn unknown_provider_codes_are_rejected() {
    assert_eq!(Provider::from_code(0), Err(ServiceError::InvalidArgument));
    assert_eq!(Provider::from_code(8), Err(ServiceError::InvalidArgument));
    assert_eq!(Provider::from_code(-1), Err(ServiceError::InvalidArgument));
}

#[test]
fn provider_names() {
    assert_eq!(provider_to_string(3), Ok("twitter".to_string()));
    assert_eq!(provider_to_string(6), Ok("microsoft".to_string()));
    assert_eq!(provider_to_string(9), Err(ServiceError::InvalidArgument));
    assert_eq!(Provider::Discord.name(), "discord");
}

#[test]
fn uuid_text_round_trip() {
    let s = format_uuid(0xdead_beef);
    assert_eq!(parse_uuid(&s), Some(0xdead_beef));
    assert_eq!(parse_uuid("not a uuid"), None);
}

#[test]
fn instant_ordering_is_lexicographic() {
    let a = Instant::new(5, 10);
    let b = Instant::new(5, 11);
    let c = Instant::new(6, 0);
    assert!(a.le(b));
    assert!(!b.le(a));
    assert!(b.le(c));
    assert!(a.le(a));
}

#[test]
fn instants_round_trip_through_chrono() {
    assert_eq!(instant_from_parts(1431648000, 500), Some(Instant::new(1431648000, 500)));
    // An invalid nanosecond part is rejected.
    assert_eq!(instant_from_parts(0, 2_000_000_000), None);
}

#[test]
fn log_levels_parse_case_insensitively() {
    assert_eq!(LogLevel::from_str("ERROR"), Some(LogLevel::Error));
    assert_eq!(LogLevel::from_str("Warn"), Some(LogLevel::Warn));
    assert_eq!(LogLevel::from_str("info"), Some(LogLevel::Info));
    assert_eq!(LogLevel::from_str("DeBuG"), Some(LogLevel::Debug));
    assert_eq!(LogLevel::from_str("trace"), Some(LogLevel::Trace));
    assert_eq!(LogLevel::from_str("loud"), None);
    assert_eq!(LogLevel::Info.name(), "info");
}

#[test]
fn environments_parse_long_and_short_forms() {
    assert_eq!(Environment::from_str("development"), Some(Environment::Development));
    assert_eq!(Environment::from_str("DEV"), Some(Environment::Development));
    assert_eq!(Environment::from_str("beta"), Some(Environment::Preview));
    assert_eq!(Environment::from_str("Stage"), Some(Environment::Staging));
    assert_eq!(Environment::from_str("prod"), Some(Environment::Production));
    assert_eq!(Environment::from_str("moon"), None);
    assert_eq!(Environment::Production.name(), "production");
}

#[test]
fn trace_interceptor_keeps_or_mints_an_identifier() {
    let t = TraceInterceptor;
    assert_eq!(t.trace_id(Some("abc".to_string())), "abc");
    let minted = t.trace_id(None);
    assert!(uuid::Uuid::parse_str(&minted).is_ok());
}

#[test]
fn token_interceptor_rejects_missing_credentials() {
    let t = TokenInterceptor;
    assert_eq!(t.authorize(&Some("SECRET-REDACTED".to_string())), Ok(()));
    assert_eq!(t.authorize(&None), Err(ServiceError::Unauthenticated));
}

#[test]
fn error_names_are_stable() {
    assert_eq!(ServiceError::FailedPrecondition.name(), "failed-precondition");
    assert_eq!(ServiceError::PermissionDenied.name(), "permission-denied");
    assert_eq!(ServiceError::NotFound.name(), "not-found");
    assert_eq!(ServiceError::InvalidArgument.name(), "invalid-argument");
    assert_eq!(ServiceError::Internal.name(), "internal");
    assert_eq!(ServiceError::Unimplemented.name(), "unimplemented");
    assert_eq!(ServiceError::Unauthenticated.name(), "unauthenticated");
}

#[test]
fn stub_services_answer_unimplemented() {
    assert_eq!(FeedServer::default().get_feed(), Err(ServiceError::Unimplemented));
    assert_eq!(FeedServer::default().list_feeds(), Err(ServiceError::Unimplemented));
    assert_eq!(FeedServer::default().create_feed(), Err(ServiceError::Unimplemented));
    assert_eq!(FeedServer::default().update_feed(), Err(ServiceError::Unimplemented));
    assert_eq!(FeedServer::default().delete_feed(), Err(ServiceError::Unimplemented));
    assert_eq!(GroupServer::default().get_group(), Err(ServiceError::Unimplemented));
    assert_eq!(GroupServer::default().list_groups(), Err(ServiceError::Unimplemented));
    assert_eq!(GroupServer::default().create_group(), Err(ServiceError::Unimplemented));
    assert_eq!(GroupServer::default().update_group(), Err(ServiceError::Unimplemented));
    assert_eq!(GroupServer::default().delete_group(), Err(ServiceError::Unimplemented));
    assert_eq!(InfoServer::default().get_info(), Err(ServiceError::Unimplemented));
    assert_eq!(RoleServer::default().get_role(), Err(ServiceError::Unimplemented));
    assert_eq!(UserServer::default().get_user(), Err(ServiceError::Unimplemented));
    assert_eq!(UserServer::default().list_users(), Err(ServiceError::Unimplemented));
    assert_eq!(UserServer::default().create_user(), Err(ServiceError::Unimplemented));
    assert_eq!(UserServer::default().update_user(), Err(ServiceError::Unimplemented));
    assert_eq!(UserServer::default().delete_user(), Err(ServiceError::Unimplemented));
}
