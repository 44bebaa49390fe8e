//! The event builder: a single-pass reducer over an ordered property list.
//! Each property either stores a scalar (last write wins), appends to a
//! multi-valued field (order and duplicates preserved), feeds the recurrence
//! line buffer, is a known no-op, or fails the whole conversion.

use vstd::prelude::*;
use crate::datetime::{
    date8_value, datetime_utc_value, is_date8, is_datetime_local, is_datetime_utc, parse_datetime,
    DateMaybeTime,
};
use crate::duration::{duration_parts, duration_total, lemma_parts_nonneg, parse_duration, Span};
use crate::enums::{
    status_of_token, transparency_of_token, upper_of, EventStatus, EventTransparency,
};
use crate::error::EventError;
use crate::event::Event;
use crate::recurrence::{join_lines, make_line, parse_recurrence, spec_line};
use crate::text::{
    parse_i32_value, parse_u8_value, parses_signed, parses_unsigned, signed_val, str_eq,
    unsigned_val,
};

verus! {

/// One property record of a parsed calendar component: a name and an
/// optional value. A record with no value is skipped by the builder.
#[derive(Debug, Clone)]
pub struct Property {
    pub name: String,
    pub value: Option<String>,
}

/// The value of the last property named `name` that carries one.
pub open spec fn spec_last(ps: Seq<Property>, name: Seq<char>) -> Option<Seq<char>>
    decreases ps.len(),
{
    if ps.len() == 0 {
        None
    } else {
        match ps.last().value {
            Some(v) => if ps.last().name@ == name {
                Some(v@)
            } else {
                spec_last(ps.drop_last(), name)
            },
            None => spec_last(ps.drop_last(), name),
        }
    }
}

/// All values carried by properties named `name`, in their original order,
/// duplicates retained.
pub open spec fn spec_all(ps: Seq<Property>, name: Seq<char>) -> Seq<Seq<char>>
    decreases ps.len(),
{
    if ps.len() == 0 {
        Seq::empty()
    } else {
        let rest = spec_all(ps.drop_last(), name);
        match ps.last().value {
            Some(v) => if ps.last().name@ == name {
                rest.push(v@)
            } else {
                rest
            },
            None => rest,
        }
    }
}

/// Whether some property named `name` carries a value.
pub open spec fn spec_has(ps: Seq<Property>, name: Seq<char>) -> bool {
    spec_last(ps, name) is Some
}

/// The recurrence-defining names, whose `NAME:value` lines are buffered in
/// property order for the external recurrence engine.
pub open spec fn is_rec_name(name: Seq<char>) -> bool {
    name == "RDATE"@ || name == "RRULE"@ || name == "EXDATE"@ || name == "EXRULE"@ || name
        == "DTSTART"@
}

/// The reconstructed recurrence lines, in property order.
pub open spec fn spec_rec_lines(ps: Seq<Property>) -> Seq<Seq<char>>
    decreases ps.len(),
{
    if ps.len() == 0 {
        Seq::empty()
    } else {
        let rest = spec_rec_lines(ps.drop_last());
        match ps.last().value {
            Some(v) => if is_rec_name(ps.last().name@) {
                rest.push(spec_line(ps.last().name@, v@))
            } else {
                rest
            },
            None => rest,
        }
    }
}

/// The six properties parsed as dates or date-times.
pub open spec fn is_date_name(name: Seq<char>) -> bool {
    name == "DTSTART"@ || name == "DTEND"@ || name == "CREATED"@ || name == "LAST-MODIFIED"@
        || name == "DTSTAMP"@ || name == "RECURRENCE-ID"@
}

/// The properties stored as plain text scalars.
pub open spec fn is_text_name(name: Seq<char>) -> bool {
    name == "UID"@ || name == "SUMMARY"@ || name == "LOCATION"@ || name == "DESCRIPTION"@ || name
        == "ORGANIZER"@ || name == "COMMENT"@
}

/// The multi-valued properties.
pub open spec fn is_multi_name(name: Seq<char>) -> bool {
    name == "CATEGORIES"@ || name == "ATTENDEE"@ || name == "ATTACH"@ || name == "ALARM"@
}

/// The known-benign names: vendor extensions and the two deliberate no-ops.
pub open spec fn is_benign_name(name: Seq<char>) -> bool {
    (name.len() >= 2 && name[0] == 'X' && name[1] == '-') || name == "TRANSP"@ || name == "CLASS"@
}

/// Every property name the builder recognizes; anything else fails the
/// conversion.
pub open spec fn is_known_name(name: Seq<char>) -> bool {
    is_date_name(name) || is_text_name(name) || is_multi_name(name) || is_benign_name(name) || name
        == "DURATION"@ || name == "STATUS"@ || name == "TRANSPARENCY"@ || name == "PRIORITY"@
        || name == "SEQUENCE"@ || name == "RRULE"@ || name == "RDATE"@ || name == "EXRULE"@ || name
        == "EXDATE"@
}

/// A property the pass is certain to get past, whatever the machine's time
/// zone: it carries no value, needs no parsing, or parses deterministically.
pub open spec fn prop_safe(p: Property) -> bool {
    match p.value {
        None => true,
        Some(v) => {
            let name = p.name@;
            if is_text_name(name) || is_multi_name(name) || is_benign_name(name) {
                true
            } else if name == "RRULE"@ || name == "RDATE"@ || name == "EXRULE"@ || name
                == "EXDATE"@ {
                true
            } else if is_date_name(name) {
                is_date8(v@) || is_datetime_utc(v@)
            } else if name == "STATUS"@ {
                status_of_token(upper_of(v@)) is Some
            } else if name == "TRANSPARENCY"@ {
                transparency_of_token(upper_of(v@)) is Some
            } else if name == "DURATION"@ {
                duration_parts(v@) matches Some(p4) && duration_total(p4) <= i64::MAX
            } else if name == "PRIORITY"@ {
                parses_unsigned(v@) && unsigned_val(v@) <= 255
            } else if name == "SEQUENCE"@ {
                parses_signed(v@) && -0x8000_0000 <= signed_val(v@) <= 0x7fff_ffff
            } else {
                false
            }
        },
    }
}

/// A property on which the pass is certain to fail, whatever the machine's
/// time zone.
pub open spec fn prop_fails(p: Property) -> bool {
    match p.value {
        None => false,
        Some(v) => {
            let name = p.name@;
            if !is_known_name(name) {
                true
            } else if name == "STATUS"@ {
                status_of_token(upper_of(v@)) is None
            } else if name == "TRANSPARENCY"@ {
                transparency_of_token(upper_of(v@)) is None
            } else if name == "DURATION"@ {
                !(duration_parts(v@) matches Some(p4) && duration_total(p4) <= i64::MAX)
            } else if name == "PRIORITY"@ {
                !(parses_unsigned(v@) && unsigned_val(v@) <= 255)
            } else if name == "SEQUENCE"@ {
                !(parses_signed(v@) && -0x8000_0000 <= signed_val(v@) <= 0x7fff_ffff)
            } else {
                false
            }
        },
    }
}

/// The error a certainly-failing property produces: an unknown name carries
/// the name; every other deterministic failure is a format error.
pub open spec fn fault_matches(p: Property, e: EventError) -> bool {
    match p.value {
        None => false,
        Some(v) => if !is_known_name(p.name@) {
            e matches EventError::UnknownPropertyError(n) && n@ == p.name@
        } else {
            prop_fails(p) && e == EventError::FormatError
        },
    }
}

/// A property whose handling can end in a format error in some environment.
pub open spec fn may_format_fail(p: Property) -> bool {
    match p.value {
        None => false,
        Some(v) => {
            let name = p.name@;
            ||| (name == "STATUS"@ && status_of_token(upper_of(v@)) is None)
            ||| (name == "TRANSPARENCY"@ && transparency_of_token(upper_of(v@)) is None)
            ||| (name == "DURATION"@ && !(duration_parts(v@) matches Some(p4) && duration_total(p4)
                <= i64::MAX))
            ||| (name == "PRIORITY"@ && !(parses_unsigned(v@) && unsigned_val(v@) <= 255))
            ||| (name == "SEQUENCE"@ && !(parses_signed(v@) && -0x8000_0000 <= signed_val(v@)
                <= 0x7fff_ffff))
            ||| (is_date_name(name) && !is_date8(v@) && !is_datetime_utc(v@) && !is_datetime_local(
                v@,
            ))
        },
    }
}

/// A property whose handling can end in a time-zone error: a zoneless
/// date-time, whose local reading may be ambiguous or nonexistent.
pub open spec fn may_tz_fail(p: Property) -> bool {
    match p.value {
        None => false,
        Some(v) => is_date_name(p.name@) && !is_date8(v@) && !is_datetime_utc(v@)
            && is_datetime_local(v@),
    }
}

/// An optional text field holds exactly the modelled value.
pub open spec fn opt_text_is(o: Option<String>, m: Option<Seq<char>>) -> bool {
    match (o, m) {
        (None, None) => true,
        (Some(a), Some(b)) => a@ == b,
        _ => false,
    }
}

/// A parsed date agrees with its source text: well-formed, and pinned down
/// exactly wherever the source is one of the two deterministic forms.
pub open spec fn date_matches(d: DateMaybeTime, src: Seq<char>) -> bool {
    &&& d.wf()
    &&& is_date8(src) ==> d == DateMaybeTime::Date(date8_value(src))
    &&& (!is_date8(src) && is_datetime_utc(src)) ==> d == DateMaybeTime::DateTime(
        datetime_utc_value(src),
    )
    &&& (!is_date8(src) && !is_datetime_utc(src)) ==> d matches DateMaybeTime::DateTime(_)
}

pub open spec fn opt_date_is(o: Option<DateMaybeTime>, m: Option<Seq<char>>) -> bool {
    match (o, m) {
        (None, None) => true,
        (Some(d), Some(src)) => date_matches(d, src),
        _ => false,
    }
}

pub open spec fn opt_status_is(o: Option<EventStatus>, m: Option<Seq<char>>) -> bool {
    match (o, m) {
        (None, None) => true,
        (Some(st), Some(src)) => status_of_token(upper_of(src)) == Some(st),
        _ => false,
    }
}

pub open spec fn opt_transp_is(o: Option<EventTransparency>, m: Option<Seq<char>>) -> bool {
    match (o, m) {
        (None, None) => true,
        (Some(t), Some(src)) => transparency_of_token(upper_of(src)) == Some(t),
        _ => false,
    }
}

pub open spec fn opt_span_is(o: Option<Span>, m: Option<Seq<char>>) -> bool {
    match (o, m) {
        (None, None) => true,
        (Some(sp), Some(src)) => duration_parts(src) matches Some(p4) && duration_total(p4)
            <= i64::MAX && sp.seconds == duration_total(p4),
        _ => false,
    }
}

pub open spec fn opt_u8_is(o: Option<u8>, m: Option<Seq<char>>) -> bool {
    match (o, m) {
        (None, None) => true,
        (Some(x), Some(src)) => parses_unsigned(src) && unsigned_val(src) == x,
        _ => false,
    }
}

pub open spec fn opt_i32_is(o: Option<i32>, m: Option<Seq<char>>) -> bool {
    match (o, m) {
        (None, None) => true,
        (Some(x), Some(src)) => parses_signed(src) && signed_val(src) == x,
        _ => false,
    }
}

/// The element-wise views of a list of strings.
pub open spec fn vec_views(v: Seq<String>) -> Seq<Seq<char>> {
    Seq::new(v.len(), |j: int| v[j]@)
}

/// An optional multi-valued field holds exactly the modelled values: absent
/// when no property contributed, else every value in order.
pub open spec fn opt_list_is(o: Option<Vec<String>>, m: Seq<Seq<char>>) -> bool {
    match o {
        None => m.len() == 0,
        Some(vs) => m.len() > 0 && vec_views(vs@) == m,
    }
}

/// The scalar fields of `e` hold exactly what the property list's last
/// relevant writes say.
pub open spec fn scalars_match(e: Event, ps: Seq<Property>) -> bool {
    &&& opt_text_is(e.uid, spec_last(ps, "UID"@))
    &&& opt_text_is(e.summary, spec_last(ps, "SUMMARY"@))
    &&& opt_date_is(e.start, spec_last(ps, "DTSTART"@))
    &&& opt_date_is(e.end, spec_last(ps, "DTEND"@))
    &&& opt_date_is(e.created, spec_last(ps, "CREATED"@))
    &&& opt_span_is(e.duration, spec_last(ps, "DURATION"@))
    &&& opt_text_is(e.location, spec_last(ps, "LOCATION"@))
    &&& opt_text_is(e.description, spec_last(ps, "DESCRIPTION"@))
    &&& opt_status_is(e.status, spec_last(ps, "STATUS"@))
    &&& opt_date_is(e.last_modified, spec_last(ps, "LAST-MODIFIED"@))
    &&& opt_transp_is(e.transparency, spec_last(ps, "TRANSPARENCY"@))
    &&& opt_text_is(e.organizer, spec_last(ps, "ORGANIZER"@))
    &&& opt_u8_is(e.priority, spec_last(ps, "PRIORITY"@))
    &&& opt_i32_is(e.sequence, spec_last(ps, "SEQUENCE"@))
    &&& opt_date_is(e.dtstamp, spec_last(ps, "DTSTAMP"@))
    &&& opt_date_is(e.recurrence_id, spec_last(ps, "RECURRENCE-ID"@))
    &&& opt_text_is(e.comment, spec_last(ps, "COMMENT"@))
}

/// Every field of `e` except the recurrence specification holds exactly what
/// the property list says.
pub open spec fn fields_match(e: Event, ps: Seq<Property>) -> bool {
    &&& scalars_match(e, ps)
    &&& opt_list_is(e.categories, spec_all(ps, "CATEGORIES"@))
    &&& opt_list_is(e.attendees, spec_all(ps, "ATTENDEE"@))
    &&& opt_list_is(e.attach, spec_all(ps, "ATTACH"@))
    &&& opt_list_is(e.alarms, spec_all(ps, "ALARM"@))
}

/// A successfully built event against its property list: every field is
/// pinned by the model, and the recurrence specification is present exactly
/// when an RRULE property was seen.
pub open spec fn event_matches(e: Event, ps: Seq<Property>) -> bool {
    fields_match(e, ps) && (e.rrule is Some <==> spec_has(ps, "RRULE"@))
}

/// All properties before position `k` are certainly-safe ones.
pub open spec fn safe_before(ps: Seq<Property>, k: int) -> bool {
    forall|i: int| 0 <= i < k ==> prop_safe(#[trigger] ps[i])
}

/// What `map_ical_event` returns. On success every field matches the model
/// and no property was a certain failure. Each error kind names a property
/// (or the recurrence block) able to produce it. The first certainly-failing
/// property after a certainly-safe prefix decides the outcome, and a list of
/// only certainly-safe properties with no RRULE is owed success.
pub open spec fn build_post(ps: Seq<Property>, r: Result<Event, EventError>) -> bool {
    &&& match r {
        Ok(e) => event_matches(e, ps) && (forall|i: int|
            0 <= i < ps.len() ==> !prop_fails(#[trigger] ps[i])),
        Err(er) => match er {
            EventError::FormatError => exists|i: int|
                0 <= i < ps.len() && may_format_fail(#[trigger] ps[i]),
            EventError::TimeZoneError => exists|i: int|
                0 <= i < ps.len() && may_tz_fail(#[trigger] ps[i]),
            EventError::UnknownPropertyError(n) => exists|i: int|
                0 <= i < ps.len() && (#[trigger] ps[i]).value is Some && !is_known_name(
                    ps[i].name@,
                ) && n@ == ps[i].name@,
            EventError::RecurrenceFormatError => spec_has(ps, "RRULE"@),
        },
    }
    &&& forall|k: int|
        0 <= k < ps.len() && safe_before(ps, k) && prop_fails(#[trigger] ps[k]) ==> (
        r matches Err(er) && fault_matches(ps[k], er))
    &&& (safe_before(ps, ps.len() as int) && !spec_has(ps, "RRULE"@) ==> r is Ok)
}

/// How one step extends the model: the property at `i` overwrites or appends
/// under its own name and leaves every other name untouched.
proof fn lemma_build_step(ps: Seq<Property>, i: int)
    requires
        0 <= i < ps.len(),
    ensures
        ps[i].value is None ==> forall|name: Seq<char>| #[trigger]
            spec_last(ps.take(i + 1), name) == spec_last(ps.take(i), name),
        ps[i].value is None ==> forall|name: Seq<char>| #[trigger]
            spec_all(ps.take(i + 1), name) == spec_all(ps.take(i), name),
        ps[i].value is None ==> spec_rec_lines(ps.take(i + 1)) == spec_rec_lines(ps.take(i)),
        ps[i].value matches Some(v) ==> {
            &&& forall|name: Seq<char>|
                name != ps[i].name@ ==> #[trigger] spec_last(ps.take(i + 1), name) == spec_last(
                    ps.take(i),
                    name,
                )
            &&& forall|name: Seq<char>|
                name != ps[i].name@ ==> #[trigger] spec_all(ps.take(i + 1), name) == spec_all(
                    ps.take(i),
                    name,
                )
            &&& spec_last(ps.take(i + 1), ps[i].name@) == Some(v@)
            &&& spec_all(ps.take(i + 1), ps[i].name@) == spec_all(ps.take(i), ps[i].name@).push(
                v@,
            )
            &&& is_rec_name(ps[i].name@) ==> spec_rec_lines(ps.take(i + 1)) == spec_rec_lines(
                ps.take(i),
            ).push(spec_line(ps[i].name@, v@))
            &&& !is_rec_name(ps[i].name@) ==> spec_rec_lines(ps.take(i + 1)) == spec_rec_lines(
                ps.take(i),
            )
        },
{
    assert(ps.take(i + 1).drop_last() =~= ps.take(i));
    assert(ps.take(i + 1).last() == ps[i]);
}

/// Converts one component's ordered property list into a typed event: the
/// single reducer pass over the records. Valueless properties are skipped;
/// recurrence-defining lines are buffered in order and, when an RRULE was
/// seen, assembled and handed to the external engine. Fail-fast: the first
/// failing property aborts the conversion; no partial event is returned.
#[verifier::rlimit(100)]
pub fn map_ical_event(props: &Vec<Property>) -> (r: Result<Event, EventError>)
    ensures
        build_post(props@, r),
{
    let ghost ps = props@;
    let mut event = Event::new();
    let mut lines: Vec<String> = Vec::new();
    let mut categories: Vec<String> = Vec::new();
    let mut attendees: Vec<String> = Vec::new();
    let mut attach: Vec<String> = Vec::new();
    let mut alarms: Vec<String> = Vec::new();
    let mut has_rrules = false;
    let mut idx: usize = 0;
    while idx < props.len()
        invariant
            0 <= idx <= ps.len(),
            ps == props@,
            scalars_match(event, ps.take(idx as int)),
            event.categories is None,
            event.attendees is None,
            event.attach is None,
            event.alarms is None,
            event.rrule is None,
            vec_views(categories@) == spec_all(ps.take(idx as int), "CATEGORIES"@),
            vec_views(attendees@) == spec_all(ps.take(idx as int), "ATTENDEE"@),
            vec_views(attach@) == spec_all(ps.take(idx as int), "ATTACH"@),
            vec_views(alarms@) == spec_all(ps.take(idx as int), "ALARM"@),
            has_rrules == spec_has(ps.take(idx as int), "RRULE"@),
            vec_views(lines@) == spec_rec_lines(ps.take(idx as int)),
            forall|i: int| 0 <= i < idx ==> !prop_fails(#[trigger] ps[i]),
        decreases props.len() - idx,
    {
        proof {
            lemma_distinct_names();
        }
        let ghost prev = ps.take(idx as int);
        let ghost cur = ps.take(idx as int + 1);
        proof {
            lemma_build_step(ps, idx as int);
            assert(cur.drop_last() =~= prev);
            assert(cur.last() == ps[idx as int]);
        }
        let prop = &props[idx];
        match &prop.value {
            None => {
                // A name-only property is not an error; it is simply skipped.
            },
            Some(value) => {
                let key = prop.name.as_str();
                let is_rdate = str_eq(key, "RDATE");
                let is_rrule = str_eq(key, "RRULE");
                let is_exdate = str_eq(key, "EXDATE");
                let is_exrule = str_eq(key, "EXRULE");
                let is_dtstart = str_eq(key, "DTSTART");
                if is_rdate || is_rrule || is_exdate || is_exrule || is_dtstart {
                    let line = make_line(key, value.as_str());
                    lines.push(line);
                    proof {
                        assert(vec_views(lines@) =~= spec_rec_lines(cur));
                    }
                }
                if str_eq(key, "UID") {
                    event.uid = Some(value.clone());
                } else if str_eq(key, "SUMMARY") {
                    event.summary = Some(value.clone());
                } else if is_dtstart {
                    match parse_datetime(value.as_str()) {
                        Ok(d) => {
                            event.start = Some(d);
                        },
                        Err(e) => {
                            proof {
                                lemma_date_error(ps, idx as int);
                            }
                            return Err(e);
                        },
                    }
                } else if str_eq(key, "DTEND") {
                    match parse_datetime(value.as_str()) {
                        Ok(d) => {
                            event.end = Some(d);
                        },
                        Err(e) => {
                            proof {
                                lemma_date_error(ps, idx as int);
                            }
                            return Err(e);
                        },
                    }
                } else if str_eq(key, "CREATED") {
                    match parse_datetime(value.as_str()) {
                        Ok(d) => {
                            event.created = Some(d);
                        },
                        Err(e) => {
                            proof {
                                lemma_date_error(ps, idx as int);
                            }
                            return Err(e);
                        },
                    }
                } else if str_eq(key, "DURATION") {
                    match parse_duration(value.as_str()) {
                        Ok(sp) => {
                            proof {
                                lemma_parts_nonneg(value@);
                            }
                            event.duration = Some(sp);
                        },
                        Err(e) => {
                            proof {
                                lemma_det_error(ps, idx as int);
                            }
                            return Err(EventError::FormatError);
                        },
                    }
                } else if str_eq(key, "LOCATION") {
                    event.location = Some(value.clone());
                } else if str_eq(key, "DESCRIPTION") {
                    event.description = Some(value.clone());
                } else if str_eq(key, "STATUS") {
                    match EventStatus::from_str(value.as_str()) {
                        Ok(st) => {
                            event.status = Some(st);
                        },
                        Err(_) => {
                            proof {
                                lemma_det_error(ps, idx as int);
                            }
                            return Err(EventError::FormatError);
                        },
                    }
                } else if str_eq(key, "LAST-MODIFIED") {
                    match parse_datetime(value.as_str()) {
                        Ok(d) => {
                            event.last_modified = Some(d);
                        },
                        Err(e) => {
                            proof {
                                lemma_date_error(ps, idx as int);
                            }
                            return Err(e);
                        },
                    }
                } else if str_eq(key, "TRANSPARENCY") {
                    match EventTransparency::from_str(value.as_str()) {
                        Ok(t) => {
                            event.transparency = Some(t);
                        },
                        Err(_) => {
                            proof {
                                lemma_det_error(ps, idx as int);
                            }
                            return Err(EventError::FormatError);
                        },
                    }
                } else if str_eq(key, "CATEGORIES") {
                    categories.push(value.clone());
                    proof {
                        assert(vec_views(categories@) =~= spec_all(cur, "CATEGORIES"@));
                    }
                } else if str_eq(key, "ATTENDEE") {
                    attendees.push(value.clone());
                    proof {
                        assert(vec_views(attendees@) =~= spec_all(cur, "ATTENDEE"@));
                    }
                } else if str_eq(key, "ORGANIZER") {
                    event.organizer = Some(value.clone());
                } else if str_eq(key, "PRIORITY") {
                    match parse_u8_value(value.as_str()) {
                        Some(p) => {
                            event.priority = Some(p);
                        },
                        None => {
                            proof {
                                lemma_det_error(ps, idx as int);
                            }
                            return Err(EventError::FormatError);
                        },
                    }
                } else if str_eq(key, "SEQUENCE") {
                    match parse_i32_value(value.as_str()) {
                        Some(q) => {
                            event.sequence = Some(q);
                        },
                        None => {
                            proof {
                                lemma_det_error(ps, idx as int);
                            }
                            return Err(EventError::FormatError);
                        },
                    }
                } else if str_eq(key, "DTSTAMP") {
                    match parse_datetime(value.as_str()) {
                        Ok(d) => {
                            event.dtstamp = Some(d);
                        },
                        Err(e) => {
                            proof {
                                lemma_date_error(ps, idx as int);
                            }
                            return Err(e);
                        },
                    }
                } else if str_eq(key, "RECURRENCE-ID") {
                    match parse_datetime(value.as_str()) {
                        Ok(d) => {
                            event.recurrence_id = Some(d);
                        },
                        Err(e) => {
                            proof {
                                lemma_date_error(ps, idx as int);
                            }
                            return Err(e);
                        },
                    }
                } else if is_rrule {
                    has_rrules = true;
                } else if is_rdate || is_exrule || is_exdate {
                    // Buffered above; no direct field effect.
                } else if str_eq(key, "COMMENT") {
                    event.comment = Some(value.clone());
                } else if str_eq(key, "ATTACH") {
                    attach.push(value.clone());
                    proof {
                        assert(vec_views(attach@) =~= spec_all(cur, "ATTACH"@));
                    }
                } else if str_eq(key, "ALARM") {
                    alarms.push(value.clone());
                    proof {
                        assert(vec_views(alarms@) =~= spec_all(cur, "ALARM"@));
                    }
                } else {
                    let klen = key.unicode_len();
                    if klen >= 2 && key.get_char(0) == 'X' && key.get_char(1) == '-' {
                        // Vendor extension: deliberately ignored.
                    } else if str_eq(key, "TRANSP") || str_eq(key, "CLASS") {
                        // Deliberately ignored.
                    } else {
                        proof {
                            lemma_det_error(ps, idx as int);
                        }
                        return Err(EventError::UnknownPropertyError(prop.name.clone()));
                    }
                }
            },
        }
        idx += 1;
    }
    proof {
        assert(ps.take(ps.len() as int) =~= ps);
    }
    event.categories = if categories.len() == 0 {
        None
    } else {
        Some(categories)
    };
    event.attendees = if attendees.len() == 0 {
        None
    } else {
        Some(attendees)
    };
    event.attach = if attach.len() == 0 {
        None
    } else {
        Some(attach)
    };
    event.alarms = if alarms.len() == 0 {
        None
    } else {
        Some(alarms)
    };
    if has_rrules {
        let block = join_lines(&lines);
        match parse_recurrence(block.as_str()) {
            Ok(set) => {
                event.rrule = Some(set);
                Ok(event)
            },
            Err(e) => Err(e),
        }
    } else {
        Ok(event)
    }
}

/// At an error raised by a property whose failure no environment can avert:
/// every certainly-failing position after a certainly-safe prefix is this
/// one.
proof fn lemma_det_error(ps: Seq<Property>, at: int)
    requires
        0 <= at < ps.len(),
        forall|i: int| 0 <= i < at ==> !prop_fails(#[trigger] ps[i]),
        !prop_safe(ps[at]),
    ensures
        forall|k: int|
            0 <= k < ps.len() && safe_before(ps, k) && prop_fails(#[trigger] ps[k]) ==> k == at,
        !safe_before(ps, ps.len() as int),
{
    assert forall|k: int|
        0 <= k < ps.len() && safe_before(ps, k) && prop_fails(#[trigger] ps[k]) implies k
        == at by {
        if k > at {
            assert(prop_safe(ps[at]));
        }
    }
    assert(!safe_before(ps, ps.len() as int)) by {
        if safe_before(ps, ps.len() as int) {
            assert(prop_safe(ps[at]));
        }
    }
}

/// At an error raised by a date property whose outcome the environment
/// decides: no position is a certain failure, and the list is not certainly
/// safe throughout.
proof fn lemma_date_error(ps: Seq<Property>, at: int)
    requires
        0 <= at < ps.len(),
        forall|i: int| 0 <= i < at ==> !prop_fails(#[trigger] ps[i]),
        !prop_safe(ps[at]),
        !prop_fails(ps[at]),
    ensures
        forall|k: int|
            0 <= k < ps.len() && safe_before(ps, k) ==> !prop_fails(#[trigger] ps[k]),
        !safe_before(ps, ps.len() as int),
{
    assert forall|k: int|
        0 <= k < ps.len() && safe_before(ps, k) implies !prop_fails(#[trigger] ps[k]) by {
        if k > at {
            assert(prop_safe(ps[at]));
        }
    }
    assert(!safe_before(ps, ps.len() as int)) by {
        if safe_before(ps, ps.len() as int) {
            assert(prop_safe(ps[at]));
        }
    }
}

/// The concrete length and leading characters of each recognized property
/// name literal; enough to tell any two of them apart.
proof fn lemma_distinct_names()
    ensures
        "UID"@.len() == 3,
        "UID"@[0] == 'U',
        "SUMMARY"@.len() == 7,
        "SUMMARY"@[0] == 'S',
        "DTSTART"@.len() == 7,
        "DTSTART"@[0] == 'D',
        "DTSTART"@[5] == 'R',
        "DTEND"@.len() == 5,
        "DTEND"@[0] == 'D',
        "CREATED"@.len() == 7,
        "CREATED"@[0] == 'C',
        "CREATED"@[1] == 'R',
        "DURATION"@.len() == 8,
        "DURATION"@[0] == 'D',
        "LOCATION"@.len() == 8,
        "LOCATION"@[0] == 'L',
        "DESCRIPTION"@.len() == 11,
        "DESCRIPTION"@[0] == 'D',
        "STATUS"@.len() == 6,
        "STATUS"@[0] == 'S',
        "LAST-MODIFIED"@.len() == 13,
        "LAST-MODIFIED"@[0] == 'L',
        "TRANSPARENCY"@.len() == 12,
        "TRANSPARENCY"@[0] == 'T',
        "CATEGORIES"@.len() == 10,
        "CATEGORIES"@[0] == 'C',
        "ATTENDEE"@.len() == 8,
        "ATTENDEE"@[0] == 'A',
        "ORGANIZER"@.len() == 9,
        "ORGANIZER"@[0] == 'O',
        "PRIORITY"@.len() == 8,
        "PRIORITY"@[0] == 'P',
        "SEQUENCE"@.len() == 8,
        "SEQUENCE"@[0] == 'S',
        "DTSTAMP"@.len() == 7,
        "DTSTAMP"@[0] == 'D',
        "DTSTAMP"@[5] == 'M',
        "RECURRENCE-ID"@.len() == 13,
        "RECURRENCE-ID"@[0] == 'R',
        "RRULE"@.len() == 5,
        "RRULE"@[0] == 'R',
        "RRULE"@[1] == 'R',
        "RDATE"@.len() == 5,
        "RDATE"@[0] == 'R',
        "RDATE"@[1] == 'D',
        "EXRULE"@.len() == 6,
        "EXRULE"@[0] == 'E',
        "EXRULE"@[2] == 'R',
        "EXDATE"@.len() == 6,
        "EXDATE"@[0] == 'E',
        "EXDATE"@[2] == 'D',
        "COMMENT"@.len() == 7,
        "COMMENT"@[0] == 'C',
        "COMMENT"@[1] == 'O',
        "ATTACH"@.len() == 6,
        "ATTACH"@[0] == 'A',
        "ALARM"@.len() == 5,
        "ALARM"@[0] == 'A',
        "TRANSP"@.len() == 6,
        "TRANSP"@[0] == 'T',
        "CLASS"@.len() == 5,
        "CLASS"@[0] == 'C',
{
    reveal_strlit("UID");
    reveal_strlit("SUMMARY");
    reveal_strlit("DTSTART");
    reveal_strlit("DTEND");
    reveal_strlit("CREATED");
    reveal_strlit("DURATION");
    reveal_strlit("LOCATION");
    reveal_strlit("DESCRIPTION");
    reveal_strlit("STATUS");
    reveal_strlit("LAST-MODIFIED");
    reveal_strlit("TRANSPARENCY");
    reveal_strlit("CATEGORIES");
    reveal_strlit("ATTENDEE");
    reveal_strlit("ORGANIZER");
    reveal_strlit("PRIORITY");
    reveal_strlit("SEQUENCE");
    reveal_strlit("DTSTAMP");
    reveal_strlit("RECURRENCE-ID");
    reveal_strlit("RRULE");
    reveal_strlit("RDATE");
    reveal_strlit("EXRULE");
    reveal_strlit("EXDATE");
    reveal_strlit("COMMENT");
    reveal_strlit("ATTACH");
    reveal_strlit("ALARM");
    reveal_strlit("TRANSP");
    reveal_strlit("CLASS");
}


/// Two optional text fields hold the same characters.
pub open spec fn opt_text_eq(a: Option<String>, b: Option<String>) -> bool {
    match (a, b) {
        (None, None) => true,
        (Some(x), Some(y)) => x@ == y@,
        _ => false,
    }
}

/// Two optional list fields hold the same values in the same order.
pub open spec fn opt_list_eq(a: Option<Vec<String>>, b: Option<Vec<String>>) -> bool {
    match (a, b) {
        (None, None) => true,
        (Some(x), Some(y)) => vec_views(x@) == vec_views(y@),
        _ => false,
    }
}

/// Two events with field-for-field equal values, neither carrying a
/// recurrence specification.
pub open spec fn events_agree(a: Event, b: Event) -> bool {
    &&& opt_text_eq(a.uid, b.uid)
    &&& opt_text_eq(a.summary, b.summary)
    &&& a.start == b.start
    &&& a.end == b.end
    &&& a.created == b.created
    &&& a.duration == b.duration
    &&& opt_text_eq(a.location, b.location)
    &&& opt_text_eq(a.description, b.description)
    &&& a.status == b.status
    &&& a.last_modified == b.last_modified
    &&& a.transparency == b.transparency
    &&& opt_list_eq(a.categories, b.categories)
    &&& opt_list_eq(a.attendees, b.attendees)
    &&& opt_text_eq(a.organizer, b.organizer)
    &&& a.priority == b.priority
    &&& a.sequence == b.sequence
    &&& a.dtstamp == b.dtstamp
    &&& a.recurrence_id == b.recurrence_id
    &&& a.rrule is None && b.rrule is None
    &&& opt_text_eq(a.comment, b.comment)
    &&& opt_list_eq(a.attach, b.attach)
    &&& opt_list_eq(a.alarms, b.alarms)
}

/// A modelled last value comes from an actual property of the list.
proof fn lemma_spec_last_witness(ps: Seq<Property>, name: Seq<char>)
    ensures
        spec_last(ps, name) matches Some(v) ==> exists|i: int|
            0 <= i < ps.len() && (#[trigger] ps[i]).name@ == name && (ps[i].value matches Some(x)
                && x@ == v),
    decreases ps.len(),
{
    if ps.len() > 0 {
        lemma_spec_last_witness(ps.drop_last(), name);
        let last = ps.last();
        if last.value is Some && last.name@ == name {
            assert(ps[ps.len() - 1] == last);
        } else {
            match spec_last(ps, name) {
                Some(v) => {
                    let i = choose|i: int|
                        0 <= i < ps.drop_last().len() && (#[trigger] ps.drop_last()[i]).name@
                            == name && (ps.drop_last()[i].value matches Some(x) && x@ == v);
                    assert(ps[i] == ps.drop_last()[i]);
                },
                None => {},
            }
        }
    }
}

/// A date field built from a list of certainly-safe properties is pinned
/// down: its source was one of the two deterministic forms.
proof fn lemma_date_field_det(
    ps: Seq<Property>,
    name: Seq<char>,
    d1: Option<DateMaybeTime>,
    d2: Option<DateMaybeTime>,
)
    requires
        is_date_name(name),
        safe_before(ps, ps.len() as int),
        opt_date_is(d1, spec_last(ps, name)),
        opt_date_is(d2, spec_last(ps, name)),
    ensures
        d1 == d2,
{
    lemma_distinct_names();
    match spec_last(ps, name) {
        Some(src) => {
            lemma_spec_last_witness(ps, name);
            let i = choose|i: int|
                0 <= i < ps.len() && (#[trigger] ps[i]).name@ == name && (
                ps[i].value matches Some(x) && x@ == src);
            assert(prop_safe(ps[i]));
            assert(is_date8(src) || is_datetime_utc(src));
        },
        None => {},
    }
}

/// Conversion is deterministic wherever no step consults the machine's
/// environment: on a list of certainly-safe properties with no RRULE, any
/// two runs both succeed and their events agree field for field.
pub proof fn lemma_conversion_deterministic(
    ps: Seq<Property>,
    r1: Result<Event, EventError>,
    r2: Result<Event, EventError>,
)
    requires
        build_post(ps, r1),
        build_post(ps, r2),
        safe_before(ps, ps.len() as int),
        !spec_has(ps, "RRULE"@),
    ensures
        r1 matches Ok(e1) && r2 matches Ok(e2) && events_agree(e1, e2),
{
    let e1 = match r1 {
        Ok(e) => e,
        Err(_) => arbitrary(),
    };
    let e2 = match r2 {
        Ok(e) => e,
        Err(_) => arbitrary(),
    };
    lemma_date_field_det(ps, "DTSTART"@, e1.start, e2.start);
    lemma_date_field_det(ps, "DTEND"@, e1.end, e2.end);
    lemma_date_field_det(ps, "CREATED"@, e1.created, e2.created);
    lemma_date_field_det(ps, "LAST-MODIFIED"@, e1.last_modified, e2.last_modified);
    lemma_date_field_det(ps, "DTSTAMP"@, e1.dtstamp, e2.dtstamp);
    lemma_date_field_det(ps, "RECURRENCE-ID"@, e1.recurrence_id, e2.recurrence_id);
}

/// Inserting a property under `name` leaves the last value of any other
/// name untouched; so does inserting a valueless one.
proof fn lemma_spec_last_insert(ps: Seq<Property>, i: int, p: Property, name: Seq<char>)
    requires
        0 <= i <= ps.len(),
        p.value is Some ==> p.name@ != name,
    ensures
        spec_last(ps.insert(i, p), name) == spec_last(ps, name),
    decreases ps.len(),
{
    let q = ps.insert(i, p);
    if i == ps.len() {
        assert(q.drop_last() =~= ps);
        assert(q.last() == p);
    } else {
        assert(q.last() == ps.last());
        assert(q.drop_last() =~= ps.drop_last().insert(i, p));
        lemma_spec_last_insert(ps.drop_last(), i, p, name);
    }
}

/// The same, for the accumulated values of a multi-valued name.
proof fn lemma_spec_all_insert(ps: Seq<Property>, i: int, p: Property, name: Seq<char>)
    requires
        0 <= i <= ps.len(),
        p.value is Some ==> p.name@ != name,
    ensures
        spec_all(ps.insert(i, p), name) == spec_all(ps, name),
    decreases ps.len(),
{
    let q = ps.insert(i, p);
    if i == ps.len() {
        assert(q.drop_last() =~= ps);
        assert(q.last() == p);
    } else {
        assert(q.last() == ps.last());
        assert(q.drop_last() =~= ps.drop_last().insert(i, p));
        lemma_spec_all_insert(ps.drop_last(), i, p, name);
    }
}

/// The same, for the recurrence line buffer.
proof fn lemma_spec_rec_lines_insert(ps: Seq<Property>, i: int, p: Property)
    requires
        0 <= i <= ps.len(),
        p.value is Some ==> !is_rec_name(p.name@),
    ensures
        spec_rec_lines(ps.insert(i, p)) == spec_rec_lines(ps),
    decreases ps.len(),
{
    let q = ps.insert(i, p);
    if i == ps.len() {
        assert(q.drop_last() =~= ps);
        assert(q.last() == p);
    } else {
        assert(q.last() == ps.last());
        assert(q.drop_last() =~= ps.drop_last().insert(i, p));
        lemma_spec_rec_lines_insert(ps.drop_last(), i, p);
    }
}

/// Vendor-extension properties and the TRANSP/CLASS no-ops — and valueless
/// properties — never cause failure and never alter any field: inserting one
/// anywhere leaves the whole model, the recurrence buffer and the safety of
/// the list unchanged.
pub proof fn lemma_benign_invisible(ps: Seq<Property>, i: int, p: Property, e: Event)
    requires
        0 <= i <= ps.len(),
        p.value is None || is_benign_name(p.name@),
    ensures
        prop_safe(p),
        !prop_fails(p),
        event_matches(e, ps.insert(i, p)) == event_matches(e, ps),
        spec_rec_lines(ps.insert(i, p)) == spec_rec_lines(ps),
{
    lemma_distinct_names();
    if p.value is Some {
        assert(p.name@ != "UID"@ && p.name@ != "SUMMARY"@ && p.name@ != "DTSTART"@ && p.name@
            != "DTEND"@ && p.name@ != "CREATED"@ && p.name@ != "DURATION"@ && p.name@
            != "LOCATION"@ && p.name@ != "DESCRIPTION"@ && p.name@ != "STATUS"@ && p.name@
            != "LAST-MODIFIED"@ && p.name@ != "TRANSPARENCY"@ && p.name@ != "CATEGORIES"@
            && p.name@ != "ATTENDEE"@ && p.name@ != "ORGANIZER"@ && p.name@ != "PRIORITY"@
            && p.name@ != "SEQUENCE"@ && p.name@ != "DTSTAMP"@ && p.name@ != "RECURRENCE-ID"@
            && p.name@ != "RRULE"@ && p.name@ != "RDATE"@ && p.name@ != "EXRULE"@ && p.name@
            != "EXDATE"@ && p.name@ != "COMMENT"@ && p.name@ != "ATTACH"@ && p.name@
            != "ALARM"@);
    }
    lemma_spec_last_insert(ps, i, p, "UID"@);
    lemma_spec_last_insert(ps, i, p, "SUMMARY"@);
    lemma_spec_last_insert(ps, i, p, "DTSTART"@);
    lemma_spec_last_insert(ps, i, p, "DTEND"@);
    lemma_spec_last_insert(ps, i, p, "CREATED"@);
    lemma_spec_last_insert(ps, i, p, "DURATION"@);
    lemma_spec_last_insert(ps, i, p, "LOCATION"@);
    lemma_spec_last_insert(ps, i, p, "DESCRIPTION"@);
    lemma_spec_last_insert(ps, i, p, "STATUS"@);
    lemma_spec_last_insert(ps, i, p, "LAST-MODIFIED"@);
    lemma_spec_last_insert(ps, i, p, "TRANSPARENCY"@);
    lemma_spec_last_insert(ps, i, p, "ORGANIZER"@);
    lemma_spec_last_insert(ps, i, p, "PRIORITY"@);
    lemma_spec_last_insert(ps, i, p, "SEQUENCE"@);
    lemma_spec_last_insert(ps, i, p, "DTSTAMP"@);
    lemma_spec_last_insert(ps, i, p, "RECURRENCE-ID"@);
    lemma_spec_last_insert(ps, i, p, "COMMENT"@);
    lemma_spec_last_insert(ps, i, p, "RRULE"@);
    lemma_spec_all_insert(ps, i, p, "CATEGORIES"@);
    lemma_spec_all_insert(ps, i, p, "ATTENDEE"@);
    lemma_spec_all_insert(ps, i, p, "ATTACH"@);
    lemma_spec_all_insert(ps, i, p, "ALARM"@);
    lemma_spec_rec_lines_insert(ps, i, p);
}

/// An unknown property name fails the whole conversion with the
/// unknown-property error carrying that name, however many valid properties
/// stand before it.
pub proof fn lemma_unknown_property_fails(
    ps: Seq<Property>,
    k: int,
    r: Result<Event, EventError>,
)
    requires
        build_post(ps, r),
        0 <= k < ps.len(),
        safe_before(ps, k),
        ps[k].value is Some,
        !is_known_name(ps[k].name@),
    ensures
        r matches Err(e) && e matches EventError::UnknownPropertyError(n) && n@ == ps[k].name@,
{
    assert(prop_fails(ps[k]));
    assert(r matches Err(e) && fault_matches(ps[k], e));
}

/// With an RRULE property seen, a successful conversion carries a recurrence
/// specification; with none — even with DTSTART, RDATE or exclusions seen —
/// the recurrence field stays absent.
pub proof fn lemma_recurrence_presence(ps: Seq<Property>, r: Result<Event, EventError>)
    requires
        build_post(ps, r),
    ensures
        r matches Ok(e) ==> (e.rrule is Some <==> spec_has(ps, "RRULE"@)),
{
}

} // verus!
