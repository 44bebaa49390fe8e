use vstd::prelude::*;

verus! {

/// The reasons a conversion can fail. The whole conversion is all-or-nothing:
/// the first failing property aborts it, and no partial event is returned.
#[derive(Debug, Clone, PartialEq, Eq)]
pub enum EventError {
    /// A scalar value did not match its expected grammar (date, duration,
    /// integer or enumerated token), or was too large to represent.
    FormatError,
    /// A local-time value could not be unambiguously resolved to an instant.
    TimeZoneError,
    /// A property name outside the recognized set; carries the name.
    UnknownPropertyError(String),
    /// The reconstructed recurrence text block failed external parsing.
    RecurrenceFormatError,
}

} // verus!
