//! The event builder: dispatch, accumulation, no-ops, failures and the
//! recurrence block.

use ical_event::{map_ical_event, DateMaybeTime, EventError, EventStatus, Instant, Property, Span};

fn prop(name: &str, value: &str) -> Property {
    Property {
        name: name.to_string(),
        value: Some(value.to_string()),
    }
}

fn valueless(name: &str) -> Property {
    Property {
        name: name.to_string(),
        value: None,
    }
}

#[test]
fn full_event_maps_every_field() {
    let props = vec![
        prop("UID", "abc-123"),
        prop("SUMMARY", "Standup"),
        prop("DTSTART", "20230115T103000Z"),
        prop("DTEND", "20230115"),
        prop("CREATED", "20230101T000000Z"),
        prop("DURATION", "PT30M"),
        prop("LOCATION", "Room 1"),
        prop("DESCRIPTION", "Daily standup"),
        prop("STATUS", "confirmed"),
        prop("LAST-MODIFIED", "20230102T000000Z"),
        prop("TRANSPARENCY", "OPAQUE"),
        prop("ORGANIZER", "mailto:boss@example.com"),
        prop("PRIORITY", "5"),
        prop("SEQUENCE", "-2"),
        prop("DTSTAMP", "20230103T000000Z"),
        prop("RECURRENCE-ID", "20230104T000000Z"),
        prop("COMMENT", "bring coffee"),
        prop("ATTACH", "http://example.com/a.pdf"),
        prop("ALARM", "10m"),
    ];
    let e = map_ical_event(&props).unwrap();
    assert_eq!(e.uid.as_deref(), Some("abc-123"));
    assert_eq!(e.summary.as_deref(), Some("Standup"));
    assert_eq!(
        e.start,
        Some(DateMaybeTime::DateTime(Instant {
            year: 2023,
            month: 1,
            day: 15,
            hour: 10,
            minute: 30,
            second: 0,
        }))
    );
    assert!(matches!(e.end, Some(DateMaybeTime::Date(_))));
    assert_eq!(e.duration, Some(Span { seconds: 1800 }));
    assert_eq!(e.location.as_deref(), Some("Room 1"));
    assert_eq!(e.description.as_deref(), Some("Daily standup"));
    assert_eq!(e.status, Some(EventStatus::Confirmed));
    assert_eq!(e.priority, Some(5));
    assert_eq!(e.sequence, Some(-2));
    assert_eq!(e.comment.as_deref(), Some("bring coffee"));
    assert_eq!(e.attach, Some(vec!["http://example.com/a.pdf".to_string()]));
    assert_eq!(e.alarms, Some(vec!["10m".to_string()]));
    assert!(e.organizer.is_some());
    assert!(e.created.is_some());
    assert!(e.last_modified.is_some());
    assert!(e.dtstamp.is_some());
    assert!(e.recurrence_id.is_some());
    assert!(e.transparency.is_some());
    assert!(e.rrule.is_none());
    assert!(e.categories.is_none());
    assert!(e.attendees.is_none());
}

#[test]
fn parsing_twice_is_field_for_field_equal() {
    let props = vec![
        prop("UID", "abc"),
        prop("DTSTART", "20230115T103000Z"),
        prop("CATEGORIES", "work"),
        prop("DURATION", "P1D"),
        prop("STATUS", "tentative"),
    ];
    let a = map_ical_event(&props).unwrap();
    let b = map_ical_event(&props).unwrap();
    assert_eq!(a.uid, b.uid);
    assert_eq!(a.summary, b.summary);
    assert_eq!(a.start, b.start);
    assert_eq!(a.end, b.end);
    assert_eq!(a.created, b.created);
    assert_eq!(a.duration, b.duration);
    assert_eq!(a.location, b.location);
    assert_eq!(a.description, b.description);
    assert_eq!(a.status, b.status);
    assert_eq!(a.transparency, b.transparency);
    assert_eq!(a.categories, b.categories);
    assert_eq!(a.attendees, b.attendees);
    assert_eq!(a.organizer, b.organizer);
    assert_eq!(a.priority, b.priority);
    assert_eq!(a.sequence, b.sequence);
    assert_eq!(a.dtstamp, b.dtstamp);
    assert_eq!(a.recurrence_id, b.recurrence_id);
    assert_eq!(a.comment, b.comment);
    assert_eq!(a.attach, b.attach);
    assert_eq!(a.alarms, b.alarms);
    assert!(a.rrule.is_none() && b.rrule.is_none());
}

#[test]
fn multi_valued_keeps_order_and_duplicates() {
    let props = vec![
        prop("CATEGORIES", "A"),
        prop("CATEGORIES", "B"),
        prop("CATEGORIES", "A"),
    ];
    let e = map_ical_event(&props).unwrap();
    assert_eq!(
        e.categories,
        Some(vec!["A".to_string(), "B".to_string(), "A".to_string()])
    );
}

#[test]
fn attendees_accumulate() {
    let props = vec![prop("ATTENDEE", "a@x"), prop("ATTENDEE", "b@x")];
    let e = map_ical_event(&props).unwrap();
    assert_eq!(e.attendees, Some(vec!["a@x".to_string(), "b@x".to_string()]));
}

#[test]
fn last_write_wins_for_scalars() {
    let props = vec![prop("SUMMARY", "first"), prop("SUMMARY", "second")];
    let e = map_ical_event(&props).unwrap();
    assert_eq!(e.summary.as_deref(), Some("second"));
}

#[test]
fn unknown_property_fails_whole_conversion() {
    let props = vec![
        prop("UID", "abc"),
        prop("SUMMARY", "fine"),
        prop("FOO", "bar"),
    ];
    let err = map_ical_event(&props).unwrap_err();
    assert_eq!(err, EventError::UnknownPropertyError("FOO".to_string()));
}

#[test]
fn field_parse_failure_aborts_conversion() {
    let props = vec![prop("UID", "abc"), prop("DURATION", "P1DX")];
    assert_eq!(map_ical_event(&props).unwrap_err(), EventError::FormatError);
    let props = vec![prop("STATUS", "maybe")];
    assert_eq!(map_ical_event(&props).unwrap_err(), EventError::FormatError);
    let props = vec![prop("PRIORITY", "300")];
    assert_eq!(map_ical_event(&props).unwrap_err(), EventError::FormatError);
    let props = vec![prop("SEQUENCE", "9999999999999")];
    assert_eq!(map_ical_event(&props).unwrap_err(), EventError::FormatError);
}

#[test]
fn valueless_properties_are_skipped() {
    let props = vec![valueless("SUMMARY"), valueless("NO-SUCH-NAME"), prop("UID", "u")];
    let e = map_ical_event(&props).unwrap();
    assert!(e.summary.is_none());
    assert_eq!(e.uid.as_deref(), Some("u"));
}

#[test]
fn benign_properties_change_nothing() {
    let plain = vec![prop("UID", "u"), prop("SUMMARY", "s")];
    let noisy = vec![
        prop("X-ANYTHING", "zzz"),
        prop("UID", "u"),
        prop("TRANSP", "OPAQUE"),
        prop("SUMMARY", "s"),
        prop("CLASS", "PUBLIC"),
        prop("X-APPLE-THING", "1"),
    ];
    let a = map_ical_event(&plain).unwrap();
    let b = map_ical_event(&noisy).unwrap();
    assert_eq!(a.uid, b.uid);
    assert_eq!(a.summary, b.summary);
    assert_eq!(a.status, b.status);
    assert_eq!(a.transparency, b.transparency);
    assert!(b.rrule.is_none());
    assert!(b.categories.is_none());
}

#[test]
fn rrule_with_dtstart_gives_recurrence() {
    let props = vec![
        prop("DTSTART", "20120201T093000Z"),
        prop("RRULE", "FREQ=DAILY;COUNT=3"),
    ];
    let e = map_ical_event(&props).unwrap();
    assert!(e.rrule.is_some());
}

#[test]
fn recurrence_enumeration_is_restartable() {
    let props = vec![
        prop("DTSTART", "20120201T093000Z"),
        prop("RRULE", "FREQ=DAILY;COUNT=10"),
    ];
    let e = map_ical_event(&props).unwrap();
    let set = e.rrule.unwrap();
    let first: Vec<_> = set.clone().into_iter().take(5).collect();
    let again: Vec<_> = set.into_iter().take(5).collect();
    assert_eq!(first.len(), 5);
    assert_eq!(first, again);
}

#[test]
fn dtstart_alone_gives_no_recurrence() {
    let props = vec![prop("DTSTART", "20120201T093000Z")];
    let e = map_ical_event(&props).unwrap();
    assert!(e.rrule.is_none());
    let props = vec![
        prop("DTSTART", "20120201T093000Z"),
        prop("RDATE", "20120701T093000Z"),
        prop("EXDATE", "20120702T093000Z"),
    ];
    let e = map_ical_event(&props).unwrap();
    assert!(e.rrule.is_none());
}

#[test]
fn bad_recurrence_block_is_recurrence_error() {
    let props = vec![
        prop("DTSTART", "20120201T093000Z"),
        prop("RRULE", "FREQ=NEVERLY"),
    ];
    assert_eq!(
        map_ical_event(&props).unwrap_err(),
        EventError::RecurrenceFormatError
    );
}

#[test]
fn empty_list_gives_empty_event() {
    let props: Vec<Property> = vec![];
    let e = map_ical_event(&props).unwrap();
    assert!(e.uid.is_none());
    assert!(e.start.is_none());
    assert!(e.rrule.is_none());
}
