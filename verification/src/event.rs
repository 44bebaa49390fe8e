//! The aggregate event record, with fitting datatypes for the RFC 5545
//! fields. Every field is optional: absent means the property was not present
//! in the source component.

use vstd::prelude::*;
use crate::datetime::DateMaybeTime;
use crate::duration::Span;
use crate::enums::{EventStatus, EventTransparency};

verus! {

/// An event as described in RFC 5545, with fitting datatypes. Built once,
/// fully, from one component's property list; never mutated afterwards.
#[derive(Debug)]
pub struct Event {
    /// Matches UID.
    pub uid: Option<String>,
    /// Matches CREATED.
    pub created: Option<DateMaybeTime>,
    /// Matches SUMMARY.
    pub summary: Option<String>,
    /// Matches DTSTART.
    pub start: Option<DateMaybeTime>,
    /// Matches DTEND.
    pub end: Option<DateMaybeTime>,
    /// Matches DURATION.
    pub duration: Option<Span>,
    /// Matches LOCATION.
    pub location: Option<String>,
    /// Matches DESCRIPTION.
    pub description: Option<String>,
    /// Matches STATUS.
    pub status: Option<EventStatus>,
    /// Matches TRANSPARENCY.
    pub transparency: Option<EventTransparency>,
    /// Matches CATEGORIES.
    pub categories: Option<Vec<String>>,
    /// Matches ATTENDEE.
    pub attendees: Option<Vec<String>>,
    /// Matches ORGANIZER.
    pub organizer: Option<String>,
    /// Matches PRIORITY.
    pub priority: Option<u8>,
    /// Matches SEQUENCE.
    pub sequence: Option<i32>,
    /// Matches DTSTAMP.
    pub dtstamp: Option<DateMaybeTime>,
    /// Matches RECURRENCE-ID.
    pub recurrence_id: Option<DateMaybeTime>,
    /// Holds the assembled information from RRULE, RDATE, EXDATE, EXRULE and
    /// DTSTART; present exactly when an RRULE property was seen.
    pub rrule: Option<rrule::RRuleSet>,
    /// Matches COMMENT.
    pub comment: Option<String>,
    /// Matches ATTACH.
    pub attach: Option<Vec<String>>,
    /// Matches ALARM.
    pub alarms: Option<Vec<String>>,
    /// Matches LAST-MODIFIED.
    pub last_modified: Option<DateMaybeTime>,
}

impl Event {
    /// An event with every field absent.
    pub open spec fn all_absent(self) -> bool {
        &&& self.uid is None
        &&& self.created is None
        &&& self.summary is None
        &&& self.start is None
        &&& self.end is None
        &&& self.duration is None
        &&& self.location is None
        &&& self.description is None
        &&& self.status is None
        &&& self.transparency is None
        &&& self.categories is None
        &&& self.attendees is None
        &&& self.organizer is None
        &&& self.priority is None
        &&& self.sequence is None
        &&& self.dtstamp is None
        &&& self.recurrence_id is None
        &&& self.rrule is None
        &&& self.comment is None
        &&& self.attach is None
        &&& self.alarms is None
        &&& self.last_modified is None
    }

    /// Builds the event with every field absent.
    pub fn new() -> (r: Event)
        ensures
            r.all_absent(),
    {
        Event {
            uid: None,
            created: None,
            summary: None,
            start: None,
            end: None,
            duration: None,
            location: None,
            description: None,
            status: None,
            transparency: None,
            categories: None,
            attendees: None,
            organizer: None,
            priority: None,
            sequence: None,
            dtstamp: None,
            recurrence_id: None,
            rrule: None,
            comment: None,
            attach: None,
            alarms: None,
            last_modified: None,
        }
    }
}

impl Default for Event {
    /// The default event has every field absent.
    fn default() -> (r: Event)
        ensures
            r.all_absent(),
    {
        Event::new()
    }
}

} // verus!
