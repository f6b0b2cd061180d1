//! Which credential a request guard checks.
use vstd::prelude::*;

use crate::request::ClewdrError;

verus! {

/// A guard that admits admin requests by their bearer token.
#[derive(Debug, Clone, Copy, PartialEq, Eq, Structural)]
pub struct RequireAdminAuth;

/// A guard that admits API requests by bearer token, else by `x-api-key`.
#[derive(Debug, Clone, Copy, PartialEq, Eq, Structural)]
pub struct RequireBearerAuth;

/// A guard that admits API requests by `x-api-key`, else by bearer token.
#[derive(Debug, Clone, Copy, PartialEq, Eq, Structural)]
pub struct RequireXApiKeyAuth;

/// The key to check: the preferred credential where the request carries it,
/// else the other one; a request with neither is refused.
pub fn key_to_check(preferred: Option<String>, fallback: Option<String>) -> (r: Result<String, ClewdrError>)
    ensures
        match (preferred, fallback) {
            (Some(k), _) => r == Ok::<String, ClewdrError>(k),
            (None, Some(k)) => r == Ok::<String, ClewdrError>(k),
            (None, None) => r == Err::<String, ClewdrError>(ClewdrError::InvalidAuth),
        },
{
    match preferred {
        Some(k) => Ok(k),
        None => match fallback {
            Some(k) => Ok(k),
            None => Err(ClewdrError::InvalidAuth),
        },
    }
}

/// The outcome of a guard once its key was checked against the configured keys.
pub fn verdict(accepted: bool) -> (r: Result<(), ClewdrError>)
    ensures
        accepted ==> r is Ok,
        !accepted ==> r == Err::<(), ClewdrError>(ClewdrError::InvalidAuth),
{
    if accepted {
        Ok(())
    } else {
        Err(ClewdrError::InvalidAuth)
    }
}

impl RequireAdminAuth {
    /// The admin key: the bearer token, which is required.
    pub fn key(bearer: Option<String>) -> (r: Result<String, ClewdrError>)
        ensures
            match bearer {
                Some(k) => r == Ok::<String, ClewdrError>(k),
                None => r == Err::<String, ClewdrError>(ClewdrError::InvalidAuth),
            },
    {
        key_to_check(bearer, None)
    }
}

impl RequireBearerAuth {
    /// The key: the bearer token first, then `x-api-key`.
    pub fn key(bearer: Option<String>, api_key: Option<String>) -> (r: Result<String, ClewdrError>)
        ensures
            match (bearer, api_key) {
                (Some(k), _) => r == Ok::<String, ClewdrError>(k),
                (None, Some(k)) => r == Ok::<String, ClewdrError>(k),
                (None, None) => r == Err::<String, ClewdrError>(ClewdrError::InvalidAuth),
            },
    {
        key_to_check(bearer, api_key)
    }
}

impl RequireXApiKeyAuth {
    /// The key: `x-api-key` first, then the bearer token.
    pub fn key(bearer: Option<String>, api_key: Option<String>) -> (r: Result<String, ClewdrError>)
        ensures
            match (api_key, bearer) {
                (Some(k), _) => r == Ok::<String, ClewdrError>(k),
                (None, Some(k)) => r == Ok::<String, ClewdrError>(k),
                (None, None) => r == Err::<String, ClewdrError>(ClewdrError::InvalidAuth),
            },
    {
        key_to_check(api_key, bearer)
    }
}

} // verus!
