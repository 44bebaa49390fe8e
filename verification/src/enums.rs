//! The enumerated STATUS and TRANSPARENCY values. Both are parsed
//! case-insensitively from a fixed set of tokens; any other token is a parse
//! failure, never a default.

use vstd::prelude::*;
use crate::text::str_eq;

verus! {

/// When inviting others, an event can be tentative, confirmed or cancelled.
#[derive(Clone, Copy, Debug, PartialEq, Eq, Structural)]
pub enum EventStatus {
    /// Invite was not confirmed.
    Tentative,
    /// Invite was confirmed.
    Confirmed,
    /// Invite was cancelled.
    Cancelled,
}

/// Whether an event blocks its time interval in the calendar.
#[derive(Clone, Copy, Debug, PartialEq, Eq, Structural)]
pub enum EventTransparency {
    /// Event blocks the interval.
    Opaque,
    /// Event does not block the interval.
    Transparent,
}

/// The uppercase mapping of a string, as Unicode defines it.
pub uninterp spec fn upper_of(s: Seq<char>) -> Seq<char>;

/// Relies on `str::to_uppercase`: the result depends on the characters alone.
#[verifier::external_body]
fn to_upper(s: &str) -> (r: String)
    ensures
        r@ == upper_of(s@),
{
    s.to_uppercase()
}

/// The status a fully uppercased token names, if any.
pub open spec fn status_of_token(u: Seq<char>) -> Option<EventStatus> {
    if u == "TENTATIVE"@ {
        Some(EventStatus::Tentative)
    } else if u == "CONFIRMED"@ {
        Some(EventStatus::Confirmed)
    } else if u == "CANCELLED"@ {
        Some(EventStatus::Cancelled)
    } else {
        None
    }
}

/// The transparency a fully uppercased token names, if any.
pub open spec fn transparency_of_token(u: Seq<char>) -> Option<EventTransparency> {
    if u == "OPAQUE"@ {
        Some(EventTransparency::Opaque)
    } else if u == "TRANSPARENT"@ {
        Some(EventTransparency::Transparent)
    } else {
        None
    }
}

impl EventStatus {
    /// Classifies an already-uppercased token.
    pub fn from_token(u: &str) -> (r: Option<EventStatus>)
        ensures
            r == status_of_token(u@),
    {
        if str_eq(u, "TENTATIVE") {
            Some(EventStatus::Tentative)
        } else if str_eq(u, "CONFIRMED") {
            Some(EventStatus::Confirmed)
        } else if str_eq(u, "CANCELLED") {
            Some(EventStatus::Cancelled)
        } else {
            None
        }
    }

    /// Parses a status token case-insensitively.
    pub fn from_str(s: &str) -> (r: Result<EventStatus, ()>)
        ensures
            match status_of_token(upper_of(s@)) {
                Some(st) => r == Ok::<EventStatus, ()>(st),
                None => r == Err::<EventStatus, ()>(()),
            },
    {
        let up = to_upper(s);
        match Self::from_token(up.as_str()) {
            Some(st) => Ok(st),
            None => Err(()),
        }
    }
}

impl EventTransparency {
    /// Classifies an already-uppercased token.
    pub fn from_token(u: &str) -> (r: Option<EventTransparency>)
        ensures
            r == transparency_of_token(u@),
    {
        if str_eq(u, "OPAQUE") {
            Some(EventTransparency::Opaque)
        } else if str_eq(u, "TRANSPARENT") {
            Some(EventTransparency::Transparent)
        } else {
            None
        }
    }

    /// Parses a transparency token case-insensitively.
    pub fn from_str(s: &str) -> (r: Result<EventTransparency, ()>)
        ensures
            match transparency_of_token(upper_of(s@)) {
                Some(t) => r == Ok::<EventTransparency, ()>(t),
                None => r == Err::<EventTransparency, ()>(()),
            },
    {
        let up = to_upper(s);
        match Self::from_token(up.as_str()) {
            Some(t) => Ok(t),
            None => Err(()),
        }
    }
}

} // verus!
