//! Why a credential is out of use.
use vstd::prelude::*;

use std::fmt::Write;

use crate::text::{concat, copy_str};

verus! {

/// Why a cookie cannot be used.
#[derive(Debug, Clone, Copy, PartialEq, Eq, Hash, Structural)]
pub enum Reason {
    NormalPro,
    Free,
    Disabled,
    Banned,
    Null,
    /// Restricted until the given Unix time.
    Restricted(i64),
    /// Rate limited until the given Unix time.
    TooManyRequest(i64),
}

/// How chrono writes a Unix time (UTC) with a format; none where the time is
/// out of chrono's range or chrono refuses the format.
pub uninterp spec fn chrono_text(secs: i64, format: Seq<char>) -> Option<Seq<char>>;

/// Formats a Unix time.
///
/// Relies on `chrono::DateTime::from_timestamp` and its `format`: the text
/// depends on the time and the format alone; there is none for a time out of
/// chrono's range, and writing reports an error for a format chrono refuses.
#[verifier::external_body]
fn format_utc(secs: i64, format: &str) -> (r: Option<String>)
    ensures
        r matches Some(s) ==> chrono_text(secs, format@) == Some(s@),
        r is None ==> chrono_text(secs, format@) is None,
{
    match chrono::DateTime::from_timestamp(secs, 0) {
        Some(t) => {
            let mut out = String::new();
            match write!(out, "{}", t.format(format)) {
                Ok(()) => Some(out),
                Err(_) => None,
            }
        },
        None => None,
    }
}

/// The time text of a reason: the formatted time, or `Invalid date`.
pub open spec fn time_text(secs: i64) -> Seq<char> {
    match chrono_text(secs, "UTC %Y-%m-%d %H:%M:%S"@) {
        Some(t) => t,
        None => "Invalid date"@,
    }
}

/// The description of a reason.
pub open spec fn reason_text(r: Reason) -> Seq<char> {
    match r {
        Reason::NormalPro => "Normal Pro account"@,
        Reason::Disabled => "Organization Disabled"@,
        Reason::Free => "Free account"@,
        Reason::Banned => "Banned"@,
        Reason::Null => "Null"@,
        Reason::Restricted(i) => "Restricted/Warning: until "@ + time_text(i),
        Reason::TooManyRequest(i) => "429 Too many request: until "@ + time_text(i),
    }
}

fn time_of(secs: i64) -> (r: String)
    ensures
        r@ == time_text(secs),
{
    match format_utc(secs, "UTC %Y-%m-%d %H:%M:%S") {
        Some(t) => t,
        None => copy_str("Invalid date"),
    }
}

impl Reason {
    /// Describes the reason, with its time where it has one.
    pub fn describe(&self) -> (r: String)
        ensures
            r@ == reason_text(*self),
    {
        match self {
            Reason::NormalPro => copy_str("Normal Pro account"),
            Reason::Disabled => copy_str("Organization Disabled"),
            Reason::Free => copy_str("Free account"),
            Reason::Banned => copy_str("Banned"),
            Reason::Null => copy_str("Null"),
            Reason::Restricted(i) => concat("Restricted/Warning: until ", time_of(*i).as_str()),
            Reason::TooManyRequest(i) => concat("429 Too many request: until ", time_of(*i).as_str()),
        }
    }
}

/// A cookie that cannot be used, with why and what is known of its use.
#[derive(Debug, Clone, PartialEq, Eq)]
pub struct UselessCookie {
    pub cookie: String,
    pub reason: Reason,
    pub added_at: Option<i64>,
    pub invalidated_at: Option<i64>,
    pub first_request_at: Option<i64>,
    pub last_request_at: Option<i64>,
    pub request_count: u64,
}

impl UselessCookie {
    /// A useless cookie without usage records.
    pub fn new(cookie: String, reason: Reason) -> (r: UselessCookie)
        ensures
            r == (UselessCookie {
                cookie,
                reason,
                added_at: None,
                invalidated_at: None,
                first_request_at: None,
                last_request_at: None,
                request_count: 0,
            }),
    {
        UselessCookie {
            cookie,
            reason,
            added_at: None,
            invalidated_at: None,
            first_request_at: None,
            last_request_at: None,
            request_count: 0,
        }
    }
}

} // verus!
