//! Conversion of a parsed iCalendar component's property list into a
//! strongly-typed, validated calendar event, following the field semantics of
//! RFC 5545.
//!
//! The input is an ordered sequence of name/value property records (as a
//! tokenizer produces them); the output is an [`Event`] or a typed error.
//! Scalar values are parsed by verified date, duration and integer parsers;
//! recurrence-related lines are buffered in order and handed to the external
//! recurrence engine.

pub mod builder;
pub mod datetime;
pub mod duration;
pub mod enums;
pub mod error;
pub mod event;
pub mod recurrence;
pub mod text;

pub use builder::map_ical_event;
pub use builder::Property;
pub use datetime::CivilDate;
pub use datetime::DateMaybeTime;
pub use datetime::Instant;
pub use duration::Span;
pub use enums::EventStatus;
pub use enums::EventTransparency;
pub use error::EventError;
pub use event::Event;
