//! Character-level helpers: digit runs, decimal values, string equality and
//! the decimal integer grammars used by PRIORITY and SEQUENCE.

use vstd::prelude::*;

verus! {

/// True when `c` is an ASCII decimal digit.
pub open spec fn is_digit(c: char) -> bool {
    48 <= c as u32 && c as u32 <= 57
}

/// The numeric value of an ASCII decimal digit.
pub open spec fn digit_val(c: char) -> int {
    c as u32 - 48
}

/// Every character of `s` is an ASCII decimal digit.
pub open spec fn all_digits(s: Seq<char>) -> bool {
    forall|i: int| 0 <= i < s.len() ==> is_digit(#[trigger] s[i])
}

/// The number denoted by a run of decimal digits, most significant first.
pub open spec fn digits_val(s: Seq<char>) -> int
    decreases s.len(),
{
    if s.len() == 0 {
        0
    } else {
        digits_val(s.drop_last()) * 10 + digit_val(s.last())
    }
}

/// Powers of ten, to bound the value of a digit run by its length.
pub open spec fn pow10(n: nat) -> int
    decreases n,
{
    if n == 0 {
        1
    } else {
        10 * pow10((n - 1) as nat)
    }
}

pub proof fn lemma_digits_val_bounds(s: Seq<char>)
    requires
        all_digits(s),
    ensures
        0 <= digits_val(s) < pow10(s.len()),
    decreases s.len(),
{
    if s.len() > 0 {
        assert forall|i: int| 0 <= i < s.drop_last().len() implies is_digit(
            #[trigger] s.drop_last()[i],
        ) by {
            assert(s.drop_last()[i] == s[i]);
        }
        lemma_digits_val_bounds(s.drop_last());
        assert(is_digit(s[s.len() - 1]));
    }
}

/// A digit run is worth at least as much as any of its prefixes.
pub proof fn lemma_digits_val_take(s: Seq<char>, i: int)
    requires
        all_digits(s),
        0 <= i <= s.len(),
    ensures
        digits_val(s.take(i)) <= digits_val(s),
    decreases s.len() - i,
{
    assert forall|j: int| 0 <= j < s.take(i).len() implies is_digit(#[trigger] s.take(i)[j]) by {
        assert(s.take(i)[j] == s[j]);
    }
    if i < s.len() {
        lemma_digits_val_take(s, i + 1);
        assert(s.take(i + 1).drop_last() =~= s.take(i));
        assert(s.take(i + 1).last() == s[i]);
        lemma_digits_val_bounds(s.take(i));
        assert(is_digit(s[i]));
        assert(digits_val(s.take(i)) * 10 >= digits_val(s.take(i)));
    } else {
        assert(s.take(i) =~= s);
    }
}

/// Character-by-character equality of two string slices.
pub fn str_eq(a: &str, b: &str) -> (r: bool)
    ensures
        r == (a@ == b@),
{
    let alen: usize = a.unicode_len();
    let blen: usize = b.unicode_len();
    if alen != blen {
        return false;
    }
    let mut i: usize = 0;
    while i < alen
        invariant
            0 <= i <= alen,
            alen == a@.len(),
            blen == b@.len(),
            alen == blen,
            forall|j: int| 0 <= j < i ==> a@[j] == b@[j],
        decreases alen - i,
    {
        if a.get_char(i) != b.get_char(i) {
            return false;
        }
        i += 1;
    }
    proof {
        assert(a@ =~= b@);
    }
    true
}

/// Whether the character at position `j` is an ASCII decimal digit.
fn is_digit_at(s: &str, j: usize) -> (b: bool)
    requires
        j < s@.len(),
    ensures
        b == is_digit(s@[j as int]),
{
    let c = s.get_char(j);
    (c as u32) >= 48 && (c as u32) <= 57
}

/// The first position at or after `i` that does not hold a digit.
pub open spec fn digits_end(s: Seq<char>, i: int) -> int
    decreases s.len() - i,
{
    if i < s.len() && is_digit(s[i]) {
        digits_end(s, i + 1)
    } else {
        i
    }
}

pub proof fn lemma_digits_end(s: Seq<char>, i: int)
    requires
        0 <= i <= s.len(),
    ensures
        i <= digits_end(s, i) <= s.len(),
        forall|j: int| i <= j < digits_end(s, i) ==> is_digit(#[trigger] s[j]),
        digits_end(s, i) < s.len() ==> !is_digit(s[digits_end(s, i)]),
    decreases s.len() - i,
{
    if i < s.len() && is_digit(s[i]) {
        lemma_digits_end(s, i + 1);
    }
}

/// Scans the digit run beginning at `from`; returns its end position.
pub fn scan_digits(s: &str, from: usize) -> (j: usize)
    requires
        from <= s@.len(),
    ensures
        j == digits_end(s@, from as int),
        from <= j <= s@.len(),
{
    let n: usize = s.unicode_len();
    let mut j: usize = from;
    while j < n && is_digit_at(s, j)
        invariant
            from <= j <= n,
            n == s@.len(),
            digits_end(s@, from as int) == digits_end(s@, j as int),
        decreases n - j,
    {
        j += 1;
    }
    proof {
        lemma_digits_end(s@, from as int);
    }
    j
}

/// Reads the value of the all-digit range `[from, to)`; the range is at most
/// four digits long, so the value fits easily in a `u32`.
pub fn read_fixed(s: &str, from: usize, to: usize) -> (v: u32)
    requires
        from <= to <= s@.len(),
        to - from <= 4,
        forall|k: int| from <= k < to ==> is_digit(#[trigger] s@[k]),
    ensures
        v as int == digits_val(s@.subrange(from as int, to as int)),
        v < 10000,
{
    proof {
        lemma_digits_val_bounds(s@.subrange(from as int, to as int));
    }
    let mut acc: u32 = 0;
    let mut j: usize = from;
    while j < to
        invariant
            from <= j <= to,
            to <= s@.len(),
            to - from <= 4,
            forall|k: int| from <= k < to ==> is_digit(#[trigger] s@[k]),
            acc as int == digits_val(s@.subrange(from as int, j as int)),
            acc < 10000,
        decreases to - j,
    {
        let c = s.get_char(j);
        proof {
            let pre = s@.subrange(from as int, j as int);
            let post = s@.subrange(from as int, j + 1);
            assert(post.drop_last() =~= pre);
            assert(post.last() == s@[j as int]);
            lemma_digits_val_bounds(post);
            assert forall|k: int| 0 <= k < post.len() implies is_digit(#[trigger] post[k]) by {
                assert(post[k] == s@[from + k]);
            }
            assert(pow10(0) == 1);
            assert(pow10(1) == 10);
            assert(pow10(2) == 100);
            assert(pow10(3) == 1000);
            assert(pow10(4) == 10000);
            assert(digits_val(post) < 10000);
        }
        acc = acc * 10 + ((c as u32) - 48);
        j += 1;
    }
    proof {
        assert(s@.subrange(from as int, j as int) =~= s@.subrange(from as int, to as int));
    }
    acc
}

/// The digit characters of `s` with a single leading `'+'` removed.
pub open spec fn unsigned_body(s: Seq<char>) -> Seq<char> {
    if s.len() > 0 && s[0] == '+' {
        s.skip(1)
    } else {
        s
    }
}

/// The grammar `str::parse::<u8>` and friends accept, before range checks:
/// an optional `'+'`, then one or more decimal digits.
pub open spec fn parses_unsigned(s: Seq<char>) -> bool {
    unsigned_body(s).len() > 0 && all_digits(unsigned_body(s))
}

pub open spec fn unsigned_val(s: Seq<char>) -> int {
    digits_val(unsigned_body(s))
}

/// The digit characters of `s` with a single leading sign removed.
pub open spec fn signed_body(s: Seq<char>) -> Seq<char> {
    if s.len() > 0 && (s[0] == '+' || s[0] == '-') {
        s.skip(1)
    } else {
        s
    }
}

pub open spec fn parses_signed(s: Seq<char>) -> bool {
    signed_body(s).len() > 0 && all_digits(signed_body(s))
}

pub open spec fn signed_val(s: Seq<char>) -> int {
    if s.len() > 0 && s[0] == '-' {
        -digits_val(signed_body(s))
    } else {
        digits_val(signed_body(s))
    }
}

/// Parses a small non-negative decimal integer, as the PRIORITY property
/// holds one: an optional `'+'`, digits, value at most 255.
pub fn parse_u8_value(s: &str) -> (r: Option<u8>)
    ensures
        r is Some <==> parses_unsigned(s@) && unsigned_val(s@) <= 255,
        r matches Some(v) ==> v as int == unsigned_val(s@),
{
    let n: usize = s.unicode_len();
    let mut start: usize = 0;
    if n > 0 && s.get_char(0) == '+' {
        start = 1;
    }
    proof {
        assert(s@.subrange(start as int, n as int) =~= unsigned_body(s@));
    }
    let body_ghost = Ghost(unsigned_body(s@));
    if start == n {
        return None;
    }
    if scan_digits(s, start) != n {
        proof {
            let e = digits_end(s@, start as int);
            lemma_digits_end(s@, start as int);
            if parses_unsigned(s@) {
                assert(body_ghost@[e - start] == s@[e]);
                assert(is_digit(s@[e]));
            }
        }
        return None;
    }
    proof {
        lemma_digits_end(s@, start as int);
        assert forall|k: int| 0 <= k < body_ghost@.len() implies is_digit(
            #[trigger] body_ghost@[k],
        ) by {
            assert(body_ghost@[k] == s@[start + k]);
        }
    }
    let mut acc: u32 = 0;
    let mut j: usize = start;
    while j < n
        invariant
            start <= j <= n,
            n == s@.len(),
            body_ghost@ == unsigned_body(s@),
            body_ghost@ =~= s@.subrange(start as int, n as int),
            all_digits(body_ghost@),
            parses_unsigned(s@),
            acc as int == digits_val(s@.subrange(start as int, j as int)),
            acc <= 255,
        decreases n - j,
    {
        let c = s.get_char(j);
        proof {
            let pre = s@.subrange(start as int, j as int);
            let post = s@.subrange(start as int, j + 1);
            assert(post.drop_last() =~= pre);
            assert(post.last() == s@[j as int]);
            assert(is_digit(s@[j as int])) by {
                assert(body_ghost@[j - start] == s@[j as int]);
            }
        }
        acc = acc * 10 + ((c as u32) - 48);
        if acc > 255 {
            proof {
                let post = s@.subrange(start as int, j + 1);
                assert(post =~= body_ghost@.take(j + 1 - start));
                lemma_digits_val_take(body_ghost@, j + 1 - start);
            }
            return None;
        }
        j += 1;
    }
    proof {
        assert(s@.subrange(start as int, j as int) =~= body_ghost@);
    }
    Some(acc as u8)
}

/// Parses a signed decimal integer, as the SEQUENCE property holds one: an
/// optional sign, digits, value within `i32`.
pub fn parse_i32_value(s: &str) -> (r: Option<i32>)
    ensures
        r is Some <==> parses_signed(s@) && -0x8000_0000 <= signed_val(s@) <= 0x7fff_ffff,
        r matches Some(v) ==> v as int == signed_val(s@),
{
    let n: usize = s.unicode_len();
    let mut start: usize = 0;
    let mut negative: bool = false;
    if n > 0 {
        let c0 = s.get_char(0);
        if c0 == '+' {
            start = 1;
        } else if c0 == '-' {
            start = 1;
            negative = true;
        }
    }
    proof {
        assert(s@.subrange(start as int, n as int) =~= signed_body(s@));
    }
    let body_ghost = Ghost(signed_body(s@));
    if start == n {
        return None;
    }
    if scan_digits(s, start) != n {
        proof {
            let e = digits_end(s@, start as int);
            lemma_digits_end(s@, start as int);
            if parses_signed(s@) {
                assert(body_ghost@[e - start] == s@[e]);
                assert(is_digit(s@[e]));
            }
        }
        return None;
    }
    proof {
        lemma_digits_end(s@, start as int);
        assert forall|k: int| 0 <= k < body_ghost@.len() implies is_digit(
            #[trigger] body_ghost@[k],
        ) by {
            assert(body_ghost@[k] == s@[start + k]);
        }
    }
    let mut acc: u64 = 0;
    let mut j: usize = start;
    while j < n
        invariant
            start <= j <= n,
            n == s@.len(),
            body_ghost@ == signed_body(s@),
            body_ghost@ =~= s@.subrange(start as int, n as int),
            all_digits(body_ghost@),
            parses_signed(s@),
            acc as int == digits_val(s@.subrange(start as int, j as int)),
            acc <= 0x8000_0000,
        decreases n - j,
    {
        let c = s.get_char(j);
        proof {
            let pre = s@.subrange(start as int, j as int);
            let post = s@.subrange(start as int, j + 1);
            assert(post.drop_last() =~= pre);
            assert(post.last() == s@[j as int]);
            assert(is_digit(s@[j as int])) by {
                assert(body_ghost@[j - start] == s@[j as int]);
            }
        }
        acc = acc * 10 + ((c as u64) - 48);
        if acc > 0x8000_0000 {
            proof {
                let post = s@.subrange(start as int, j + 1);
                assert(post =~= body_ghost@.take(j + 1 - start));
                lemma_digits_val_take(body_ghost@, j + 1 - start);
            }
            return None;
        }
        j += 1;
    }
    proof {
        assert(s@.subrange(start as int, j as int) =~= body_ghost@);
    }
    if negative {
        Some((-(acc as i64)) as i32)
    } else {
        if acc == 0x8000_0000 {
            return None;
        }
        Some(acc as i32)
    }
}

} // verus!
