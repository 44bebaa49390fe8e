//! The recurrence text block: reconstructed `NAME:value` lines, joined with
//! newlines and handed to the external recurrence engine. The engine's
//! specification type is kept opaque; only its presence is reasoned about.

use vstd::prelude::*;

verus! {

#[verifier::external_type_specification]
#[verifier::external_body]
pub struct ExRRuleSet(rrule::RRuleSet);

#[verifier::external_type_specification]
#[verifier::external_body]
pub struct ExRRuleError(rrule::RRuleError);

/// Relies on `RRuleSet`'s `FromStr`: parses an iCalendar recurrence text
/// block (DTSTART and RRULE/RDATE/EXRULE/EXDATE lines) into a queryable set
/// of occurrences, or reports why the block is invalid.
#[verifier::external_body]
fn parse_rrule_block(s: &str) -> (r: Result<rrule::RRuleSet, rrule::RRuleError>) {
    s.parse()
}

/// Parses the recurrence block and maps the engine's error into the
/// library's own.
pub fn parse_recurrence(s: &str) -> (r: Result<rrule::RRuleSet, crate::error::EventError>)
    ensures
        r is Err ==> r == Err::<rrule::RRuleSet, crate::error::EventError>(
            crate::error::EventError::RecurrenceFormatError,
        ),
{
    match parse_rrule_block(s) {
        Ok(set) => Ok(set),
        Err(_) => Err(crate::error::EventError::RecurrenceFormatError),
    }
}

/// One reconstructed recurrence line: the property name, a colon, the value.
pub open spec fn spec_line(name: Seq<char>, value: Seq<char>) -> Seq<char> {
    name + ":"@ + value
}

/// The reconstructed lines joined with newline separators, in order.
pub open spec fn spec_joined(ls: Seq<Seq<char>>) -> Seq<char>
    decreases ls.len(),
{
    if ls.len() == 0 {
        Seq::empty()
    } else if ls.len() == 1 {
        ls[0]
    } else {
        spec_joined(ls.drop_last()) + "\n"@ + ls.last()
    }
}

/// Builds one `NAME:value` line.
pub fn make_line(name: &str, value: &str) -> (r: String)
    ensures
        r@ == spec_line(name@, value@),
{
    let mut out = String::from_str(name);
    out.append(":");
    out.append(value);
    out
}

/// Joins the buffered lines with newline separators, preserving their order;
/// the downstream engine's input is order-sensitive.
pub fn join_lines(lines: &Vec<String>) -> (r: String)
    ensures
        r@ == spec_joined(lines@.map_values(|l: String| l@)),
{
    let ghost views = lines@.map_values(|l: String| l@);
    let mut out = String::new();
    let mut i: usize = 0;
    while i < lines.len()
        invariant
            0 <= i <= lines.len(),
            views == lines@.map_values(|l: String| l@),
            out@ == spec_joined(views.take(i as int)),
        decreases lines.len() - i,
    {
        if i > 0 {
            out.append("\n");
        }
        out.append(lines[i].as_str());
        proof {
            let t = views.take(i + 1);
            assert(t.drop_last() =~= views.take(i as int));
            assert(t.last() == views[i as int]);
            if i == 0 {
                assert(out@ =~= spec_joined(t));
            } else {
                assert(out@ =~= spec_joined(t));
            }
        }
        i += 1;
    }
    proof {
        assert(views.take(lines@.len() as int) =~= views);
    }
    out
}

} // verus!
