//! The ISO-8601-subset duration grammar `P[nD][T[nH][nM][nS]]` and its
//! verified parser. The grammar is anchored at both ends: any extra character
//! before or after the pattern rejects the whole string.

use vstd::prelude::*;
use crate::error::EventError;
use crate::text::{
    all_digits, digits_end, digits_val, is_digit, lemma_digits_end, lemma_digits_val_bounds,
    lemma_digits_val_take, scan_digits,
};

verus! {

/// A signed span of time, stored as whole seconds.
#[derive(Clone, Copy, Debug, PartialEq, Eq, Structural)]
pub struct Span {
    pub seconds: i64,
}

/// One duration component: a non-empty digit run directly followed by the
/// given marker letter. Yields the component's value and the position after
/// the letter, or nothing when no such component starts at `i`.
pub open spec fn comp_at(s: Seq<char>, i: int, letter: char) -> Option<(int, int)> {
    let j = digits_end(s, i);
    if j > i && 0 <= j < s.len() && s[j] == letter {
        Some((digits_val(s.subrange(i, j)), j + 1))
    } else {
        None
    }
}

/// Parses the duration grammar: `'P'`, an optional days component `nD`, then
/// an optional time part `'T'` with optional `nH`, `nM`, `nS` components, in
/// that order, consuming the whole string. Yields days, hours, minutes and
/// seconds; absent components are zero.
pub open spec fn duration_parts(s: Seq<char>) -> Option<(int, int, int, int)> {
    if s.len() == 0 || s[0] != 'P' {
        None
    } else {
        let (d, p1) = match comp_at(s, 1, 'D') {
            Some(x) => x,
            None => (0, 1),
        };
        if p1 == s.len() {
            Some((d, 0, 0, 0))
        } else if s[p1] == 'T' {
            let (h, p2) = match comp_at(s, p1 + 1, 'H') {
                Some(x) => x,
                None => (0, p1 + 1),
            };
            let (m, p3) = match comp_at(s, p2, 'M') {
                Some(x) => x,
                None => (0, p2),
            };
            let (sec, p4) = match comp_at(s, p3, 'S') {
                Some(x) => x,
                None => (0, p3),
            };
            if p4 == s.len() {
                Some((d, h, m, sec))
            } else {
                None
            }
        } else {
            None
        }
    }
}

/// The total of a parsed duration, in seconds.
pub open spec fn duration_total(p: (int, int, int, int)) -> int {
    p.0 * 86400 + p.1 * 3600 + p.2 * 60 + p.3
}

/// What `parse_duration` returns: the grammar decides acceptance; a value
/// whose total does not fit a signed 64-bit count of seconds is rejected as a
/// format error as well.
pub open spec fn duration_post(s: Seq<char>, r: Result<Span, EventError>) -> bool {
    match duration_parts(s) {
        Some(p) => if duration_total(p) <= i64::MAX {
            r == Ok::<Span, EventError>(Span { seconds: duration_total(p) as i64 })
        } else {
            r == Err::<Span, EventError>(EventError::FormatError)
        },
        None => r == Err::<Span, EventError>(EventError::FormatError),
    }
}

/// Reads the value of the all-digit range `[from, to)`, capped: yields
/// nothing when the value exceeds `i64::MAX`.
fn read_component(s: &str, from: usize, to: usize) -> (r: Option<u64>)
    requires
        from <= to <= s@.len(),
        forall|k: int| from <= k < to ==> is_digit(#[trigger] s@[k]),
    ensures
        r matches Some(v) ==> v as int == digits_val(s@.subrange(from as int, to as int)) && v
            <= i64::MAX,
        r is None ==> digits_val(s@.subrange(from as int, to as int)) > i64::MAX,
{
    let ghost whole = s@.subrange(from as int, to as int);
    proof {
        assert forall|k: int| 0 <= k < whole.len() implies is_digit(#[trigger] whole[k]) by {
            assert(whole[k] == s@[from + k]);
        }
    }
    let mut acc: u128 = 0;
    let mut j: usize = from;
    while j < to
        invariant
            from <= j <= to,
            to <= s@.len(),
            whole == s@.subrange(from as int, to as int),
            all_digits(whole),
            forall|k: int| from <= k < to ==> is_digit(#[trigger] s@[k]),
            acc as int == digits_val(s@.subrange(from as int, j as int)),
            acc <= i64::MAX,
        decreases to - j,
    {
        let c = s.get_char(j);
        proof {
            let pre = s@.subrange(from as int, j as int);
            let post = s@.subrange(from as int, j + 1);
            assert(post.drop_last() =~= pre);
            assert(post.last() == s@[j as int]);
            assert(is_digit(s@[j as int]));
        }
        acc = acc * 10 + ((c as u128) - 48);
        if acc > i64::MAX as u128 {
            proof {
                let post = s@.subrange(from as int, j + 1);
                assert(post =~= whole.take(j + 1 - from));
                lemma_digits_val_take(whole, j + 1 - from);
            }
            return None;
        }
        j += 1;
    }
    proof {
        assert(s@.subrange(from as int, j as int) =~= whole);
    }
    Some(acc as u64)
}

/// Parses an ISO-8601-subset duration of the form `P[nD][T[nH][nM][nS]]`.
/// Weeks, months and years are outside the accepted grammar. Absent
/// components default to zero; any character outside the pattern, or a total
/// beyond the representable range, is a format error.
pub fn parse_duration(s: &str) -> (r: Result<Span, EventError>)
    ensures
        duration_post(s@, r),
{
    let n: usize = s.unicode_len();
    if n == 0 || s.get_char(0) != 'P' {
        return Err(EventError::FormatError);
    }
    let mut days: u64 = 0;
    let mut hours: u64 = 0;
    let mut minutes: u64 = 0;
    let mut seconds: u64 = 0;
    let mut pos: usize = 1;
    // Optional days component.
    let j = scan_digits(s, 1);
    proof {
        lemma_digits_end(s@, 1);
    }
    if j > 1 && j < n && s.get_char(j) == 'D' {
        match read_component(s, 1, j) {
            Some(v) => {
                days = v;
                pos = j + 1;
            },
            None => {
                proof {
                    lemma_duration_component_overflow(s@);
                }
                return Err(EventError::FormatError);
            },
        }
    }
    assert(pos == 1 ==> comp_at(s@, 1, 'D') is None);
    if pos == n {
        let total = days as u128 * 86400;
        if total > i64::MAX as u128 {
            return Err(EventError::FormatError);
        }
        return Ok(Span { seconds: total as i64 });
    }
    if s.get_char(pos) != 'T' {
        return Err(EventError::FormatError);
    }
    let mut q: usize = pos + 1;
    // Optional hours component.
    let jh = scan_digits(s, q);
    proof {
        lemma_digits_end(s@, q as int);
    }
    if jh > q && jh < n && s.get_char(jh) == 'H' {
        match read_component(s, q, jh) {
            Some(v) => {
                hours = v;
                q = jh + 1;
            },
            None => {
                proof {
                    lemma_duration_component_overflow(s@);
                }
                return Err(EventError::FormatError);
            },
        }
    }
    // Optional minutes component.
    let jm = scan_digits(s, q);
    proof {
        lemma_digits_end(s@, q as int);
    }
    if jm > q && jm < n && s.get_char(jm) == 'M' {
        match read_component(s, q, jm) {
            Some(v) => {
                minutes = v;
                q = jm + 1;
            },
            None => {
                proof {
                    lemma_duration_component_overflow(s@);
                }
                return Err(EventError::FormatError);
            },
        }
    }
    // Optional seconds component.
    let js = scan_digits(s, q);
    proof {
        lemma_digits_end(s@, q as int);
    }
    if js > q && js < n && s.get_char(js) == 'S' {
        match read_component(s, q, js) {
            Some(v) => {
                seconds = v;
                q = js + 1;
            },
            None => {
                proof {
                    lemma_duration_component_overflow(s@);
                }
                return Err(EventError::FormatError);
            },
        }
    }
    if q != n {
        return Err(EventError::FormatError);
    }
    let total = days as u128 * 86400 + hours as u128 * 3600 + minutes as u128 * 60
        + seconds as u128;
    if total > i64::MAX as u128 {
        return Err(EventError::FormatError);
    }
    Ok(Span { seconds: total as i64 })
}

/// When any single component of a parsed duration exceeds `i64::MAX`, so does
/// the total: every coefficient is at least one and every component is
/// non-negative.
proof fn lemma_duration_component_overflow(s: Seq<char>)
    ensures
        duration_parts(s) matches Some(p) ==> duration_total(p) >= p.0 && duration_total(p) >= p.1
            && duration_total(p) >= p.2 && duration_total(p) >= p.3,
{
    lemma_parts_nonneg(s);
}

/// All components a successful parse yields are non-negative.
pub proof fn lemma_parts_nonneg(s: Seq<char>)
    ensures
        duration_parts(s) matches Some(p) ==> p.0 >= 0 && p.1 >= 0 && p.2 >= 0 && p.3 >= 0,
{
    if s.len() > 0 && s[0] == 'P' {
        lemma_comp_nonneg(s, 1, 'D');
        let p1 = match comp_at(s, 1, 'D') {
            Some(x) => x.1,
            None => 1,
        };
        if p1 < s.len() && s[p1] == 'T' {
            lemma_comp_nonneg(s, p1 + 1, 'H');
            let p2 = match comp_at(s, p1 + 1, 'H') {
                Some(x) => x.1,
                None => p1 + 1,
            };
            lemma_comp_nonneg(s, p2, 'M');
            let p3 = match comp_at(s, p2, 'M') {
                Some(x) => x.1,
                None => p2,
            };
            lemma_comp_nonneg(s, p3, 'S');
        }
    }
}

/// A present component's value is non-negative.
proof fn lemma_comp_nonneg(s: Seq<char>, i: int, letter: char)
    requires
        0 <= i,
    ensures
        comp_at(s, i, letter) matches Some(x) ==> x.0 >= 0 && i < x.1 <= s.len(),
{
    if comp_at(s, i, letter) is Some {
        let j = digits_end(s, i);
        if 0 <= i <= s.len() {
            lemma_digits_end(s, i);
            let run = s.subrange(i, j);
            assert forall|k: int| 0 <= k < run.len() implies is_digit(#[trigger] run[k]) by {
                assert(run[k] == s[i + k]);
            }
            lemma_digits_val_bounds(run);
        }
    }
}

} // verus!
