//! Identity linking and primary-designation library.
//!
//! A user may hold several external-provider authentication identities.
//! This crate models the relational store of those identities together with
//! the service operations over it, and maintains the central invariant:
//! every user owning at least one identity has exactly one primary identity,
//! and the user's stored primary-identity pointer always names it.

pub mod config;
pub mod error;
pub mod identity;
pub mod ids;
pub mod interceptor;
pub mod provider;
pub mod service;
pub mod store;
pub mod stubs;
pub mod time;
pub mod wire;
