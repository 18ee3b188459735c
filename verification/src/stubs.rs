//! The remaining services of the surface: pure stubs, every call
//! answered with the unimplemented category.

use vstd::prelude::*;
use crate::error::ServiceError;

verus! {

/// The feed service, not yet implemented.
#[derive(Debug, Default)]
pub struct FeedServer;

impl FeedServer {
    /// Not implemented.
    pub fn get_feed(&self) -> (r: Result<(), ServiceError>)
        ensures
            r == Err::<(), ServiceError>(ServiceError::Unimplemented),
    {
        Err(ServiceError::Unimplemented)
    }

    /// Not implemented.
    pub fn list_feeds(&self) -> (r: Result<(), ServiceError>)
        ensures
            r == Err::<(), ServiceError>(ServiceError::Unimplemented),
    {
        Err(ServiceError::Unimplemented)
    }

    /// Not implemented.
    pub fn create_feed(&self) -> (r: Result<(), ServiceError>)
        ensures
            r == Err::<(), ServiceError>(ServiceError::Unimplemented),
    {
        Err(ServiceError::Unimplemented)
    }

    /// Not implemented.
    pub fn update_feed(&self) -> (r: Result<(), ServiceError>)
        ensures
            r == Err::<(), ServiceError>(ServiceError::Unimplemented),
    {
        Err(ServiceError::Unimplemented)
    }

    /// Not implemented.
    pub fn delete_feed(&self) -> (r: Result<(), ServiceError>)
        ensures
            r == Err::<(), ServiceError>(ServiceError::Unimplemented),
    {
        Err(ServiceError::Unimplemented)
    }
}

/// The group service, not yet implemented.
#[derive(Debug, Default)]
pub struct GroupServer;

impl GroupServer {
    /// Not implemented.
    pub fn get_group(&self) -> (r: Result<(), ServiceError>)
        ensures
            r == Err::<(), ServiceError>(ServiceError::Unimplemented),
    {
        Err(ServiceError::Unimplemented)
    }

    /// Not implemented.
    pub fn list_groups(&self) -> (r: Result<(), ServiceError>)
        ensures
            r == Err::<(), ServiceError>(ServiceError::Unimplemented),
    {
        Err(ServiceError::Unimplemented)
    }

    /// Not implemented.
    pub fn create_group(&self) -> (r: Result<(), ServiceError>)
        ensures
            r == Err::<(), ServiceError>(ServiceError::Unimplemented),
    {
        Err(ServiceError::Unimplemented)
    }

    /// Not implemented.
    pub fn update_group(&self) -> (r: Result<(), ServiceError>)
        ensures
            r == Err::<(), ServiceError>(ServiceError::Unimplemented),
    {
        Err(ServiceError::Unimplemented)
    }

    /// Not implemented.
    pub fn delete_group(&self) -> (r: Result<(), ServiceError>)
        ensures
            r == Err::<(), ServiceError>(ServiceError::Unimplemented),
    {
        Err(ServiceError::Unimplemented)
    }
}

/// The info service, not yet implemented.
#[derive(Debug, Default)]
pub struct InfoServer;

impl InfoServer {
    /// Not implemented.
    pub fn get_info(&self) -> (r: Result<(), ServiceError>)
        ensures
            r == Err::<(), ServiceError>(ServiceError::Unimplemented),
    {
        Err(ServiceError::Unimplemented)
    }
}

/// The role service, not yet implemented.
#[derive(Debug, Default)]
pub struct RoleServer;

impl RoleServer {
    /// Not implemented.
    pub fn get_role(&self) -> (r: Result<(), ServiceError>)
        ensures
            r == Err::<(), ServiceError>(ServiceError::Unimplemented),
    {
        Err(ServiceError::Unimplemented)
    }
}

/// The user service, not yet implemented.
#[derive(Debug, Default)]
pub struct UserServer;

impl UserServer {
    /// Not implemented.
    pub fn get_user(&self) -> (r: Result<(), ServiceError>)
        ensures
            r == Err::<(), ServiceError>(ServiceError::Unimplemented),
    {
        Err(ServiceError::Unimplemented)
    }

    /// Not implemented.
    pub fn list_users(&self) -> (r: Result<(), ServiceError>)
        ensures
            r == Err::<(), ServiceError>(ServiceError::Unimplemented),
    {
        Err(ServiceError::Unimplemented)
    }

    /// Not implemented.
    pub fn create_user(&self) -> (r: Result<(), ServiceError>)
        ensures
            r == Err::<(), ServiceError>(ServiceError::Unimplemented),
    {
        Err(ServiceError::Unimplemented)
    }

    /// Not implemented.
    pub fn update_user(&self) -> (r: Result<(), ServiceError>)
        ensures
            r == Err::<(), ServiceError>(ServiceError::Unimplemented),
    {
        Err(ServiceError::Unimplemented)
    }

    /// Not implemented.
    pub fn delete_user(&self) -> (r: Result<(), ServiceError>)
        ensures
            r == Err::<(), ServiceError>(ServiceError::Unimplemented),
    {
        Err(ServiceError::Unimplemented)
    }
}

} // verus!
