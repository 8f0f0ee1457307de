//! Filename classification: an ordered cascade of structural patterns that
//! turns a bare comic filename into a structured identity, or reports that
//! it matches nothing.
//!
//! Patterns, in priority order:
//! 1. `<name> <3-digit issue> ... (<4-digit year> ...)`
//! 2. `<name> <4-digit issue> ... (<4-digit year> ...)`
//! 3. `<name> v<2-digit volume> ... (<4-digit year> ...)`
//! 4. a permissive fallback: a 17-character name field immediately followed
//!    by a 3-digit issue, no year required (opt-in; it reports year 0).
//!
//! The name field is greedy: the separating space is the last one for which
//! the digits and the year part can still match. The year is taken from the
//! last 4-digit run that has an opening parenthesis before it and a closing
//! one after it.

use vstd::prelude::*;
use crate::text::{
    digits_in, digits_value, is_digit_char, trim_spec, digits_in_exec, exists_char_in,
    parse_digits, pow10, subvec, trim_exec,
};

verus! {

/// Which pattern of the cascade matched.
#[derive(Clone, Copy, PartialEq, Eq, Structural, Debug)]
pub enum MatchPattern {
    StandardIssue,
    BigIssue,
    Volume,
    Fallback,
}

/// Structured identity of one comic file, derived from its filename alone.
pub struct ComicIdentity {
    /// Series name, trimmed of surrounding whitespace.
    pub series: Vec<char>,
    /// Issue number, or volume index for a volume match.
    pub issue_number: u32,
    /// Embedded year; 0 for a fallback match, which carries none.
    pub year: u32,
    /// Whether the match was a volume/collected edition.
    pub is_volume: bool,
    /// Which pattern matched.
    pub pattern: MatchPattern,
}

impl ComicIdentity {
    /// The numbers an identity can carry: at most four digits each.
    pub open spec fn wf(self) -> bool {
        self.issue_number <= 9999 && self.year <= 9999
    }
}

/// A 4-digit year run at index `k`: four digits, an opening parenthesis
/// somewhere at or after `base` and before `k`, and a closing parenthesis
/// after the digits.
pub open spec fn year_at(s: Seq<char>, base: int, k: int) -> bool {
    &&& 0 <= base <= k
    &&& k + 4 <= s.len()
    &&& digits_in(s, k, k + 4)
    &&& exists|j: int| base <= j < k && s[j] == '('
    &&& exists|l: int| k + 4 <= l < s.len() && s[l] == ')'
}

/// A parenthesized year occurs at or after `base`.
pub open spec fn year_found(s: Seq<char>, base: int) -> bool {
    exists|k: int| year_at(s, base, k)
}

/// The last index below `n` holding a year run, if any.
pub open spec fn last_year(s: Seq<char>, base: int, n: int) -> Option<int>
    decreases n,
{
    if n <= base || n <= 0 {
        None
    } else if year_at(s, base, n - 1) {
        Some(n - 1)
    } else {
        last_year(s, base, n - 1)
    }
}

/// A separating space at `i` followed by exactly three digits, with a year
/// part after them.
pub open spec fn split3_at(s: Seq<char>, i: int) -> bool {
    &&& 0 <= i
    &&& i + 4 <= s.len()
    &&& s[i] == ' '
    &&& digits_in(s, i + 1, i + 4)
    &&& (i + 4 == s.len() || !is_digit_char(s[i + 4]))
    &&& year_found(s, i + 4)
}

/// A separating space at `i` followed by exactly four digits, with a year
/// part after them.
pub open spec fn split4_at(s: Seq<char>, i: int) -> bool {
    &&& 0 <= i
    &&& i + 5 <= s.len()
    &&& s[i] == ' '
    &&& digits_in(s, i + 1, i + 5)
    &&& (i + 5 == s.len() || !is_digit_char(s[i + 5]))
    &&& year_found(s, i + 5)
}

/// A separating space at `i` followed by `v` and exactly two digits, with a
/// year part after them.
pub open spec fn splitv_at(s: Seq<char>, i: int) -> bool {
    &&& 0 <= i
    &&& i + 4 <= s.len()
    &&& s[i] == ' '
    &&& s[i + 1] == 'v'
    &&& digits_in(s, i + 2, i + 4)
    &&& (i + 4 == s.len() || !is_digit_char(s[i + 4]))
    &&& year_found(s, i + 4)
}

/// The last index below `n` where pattern 1 can split, if any.
pub open spec fn last_split3(s: Seq<char>, n: int) -> Option<int>
    decreases n,
{
    if n <= 0 {
        None
    } else if split3_at(s, n - 1) {
        Some(n - 1)
    } else {
        last_split3(s, n - 1)
    }
}

/// The last index below `n` where pattern 2 can split, if any.
pub open spec fn last_split4(s: Seq<char>, n: int) -> Option<int>
    decreases n,
{
    if n <= 0 {
        None
    } else if split4_at(s, n - 1) {
        Some(n - 1)
    } else {
        last_split4(s, n - 1)
    }
}

/// The last index below `n` where pattern 3 can split, if any.
pub open spec fn last_splitv(s: Seq<char>, n: int) -> Option<int>
    decreases n,
{
    if n <= 0 {
        None
    } else if splitv_at(s, n - 1) {
        Some(n - 1)
    } else {
        last_splitv(s, n - 1)
    }
}

/// Result of pattern 1 on `s`: trimmed name, issue number, year.
pub open spec fn classify1_spec(s: Seq<char>) -> Option<(Seq<char>, int, int)> {
    match last_split3(s, s.len() as int) {
        None => None,
        Some(i) => match last_year(s, i + 4, s.len() as int) {
            None => None,
            Some(k) => Some(
                (
                    trim_spec(s.subrange(0, i)),
                    digits_value(s.subrange(i + 1, i + 4)),
                    digits_value(s.subrange(k, k + 4)),
                ),
            ),
        },
    }
}

/// Result of pattern 2 on `s`: trimmed name, issue number, year.
pub open spec fn classify2_spec(s: Seq<char>) -> Option<(Seq<char>, int, int)> {
    match last_split4(s, s.len() as int) {
        None => None,
        Some(i) => match last_year(s, i + 5, s.len() as int) {
            None => None,
            Some(k) => Some(
                (
                    trim_spec(s.subrange(0, i)),
                    digits_value(s.subrange(i + 1, i + 5)),
                    digits_value(s.subrange(k, k + 4)),
                ),
            ),
        },
    }
}

/// Result of pattern 3 on `s`: trimmed name, volume index, year.
pub open spec fn classifyv_spec(s: Seq<char>) -> Option<(Seq<char>, int, int)> {
    match last_splitv(s, s.len() as int) {
        None => None,
        Some(i) => match last_year(s, i + 4, s.len() as int) {
            None => None,
            Some(k) => Some(
                (
                    trim_spec(s.subrange(0, i)),
                    digits_value(s.subrange(i + 2, i + 4)),
                    digits_value(s.subrange(k, k + 4)),
                ),
            ),
        },
    }
}

/// Result of the fallback pattern on `s`: trimmed 17-character name field
/// and the 3-digit issue right after it. No year is required.
pub open spec fn fallback_spec(s: Seq<char>) -> Option<(Seq<char>, int)> {
    if s.len() >= 20 && digits_in(s, 17, 20) {
        Some((trim_spec(s.subrange(0, 17)), digits_value(s.subrange(17, 20))))
    } else {
        None
    }
}

/// The full cascade: the first pattern that matches wins. The tuple holds
/// trimmed name, number, year, whether it is a volume, and which pattern
/// matched. A fallback match reports year 0.
pub open spec fn classify_spec(s: Seq<char>, use_fallback: bool) -> Option<
    (Seq<char>, int, int, bool, MatchPattern),
> {
    match classify1_spec(s) {
        Some(t) => Some((t.0, t.1, t.2, false, MatchPattern::StandardIssue)),
        None => match classify2_spec(s) {
            Some(t) => Some((t.0, t.1, t.2, false, MatchPattern::BigIssue)),
            None => match classifyv_spec(s) {
                Some(t) => Some((t.0, t.1, t.2, true, MatchPattern::Volume)),
                None => if use_fallback {
                    match fallback_spec(s) {
                        Some(t) => Some((t.0, t.1, 0, false, MatchPattern::Fallback)),
                        None => None,
                    }
                } else {
                    None
                },
            },
        },
    }
}

/// A name without a single space splits under no spaced pattern.
pub proof fn lemma_no_space_no_split(s: Seq<char>, n: int)
    requires
        forall|j: int| 0 <= j < s.len() ==> s[j] != ' ',
    ensures
        last_split3(s, n) is None,
        last_split4(s, n) is None,
        last_splitv(s, n) is None,
    decreases n,
{
    if n > 0 {
        lemma_no_space_no_split(s, n - 1);
    }
}

/// Whether `c` is a decimal digit.
pub fn is_digit_exec(c: char) -> (r: bool)
    ensures
        r == is_digit_char(c),
{
    48 <= (c as u32) && (c as u32) <= 57
}

/// Whether a year run sits at index `k`, looking back to `base` for the
/// opening parenthesis.
fn year_at_exec(s: &Vec<char>, base: usize, k: usize) -> (r: bool)
    requires
        base <= k,
    ensures
        r == year_at(s@, base as int, k as int),
{
    if k >= s.len() || s.len() - k < 4 {
        return false;
    }
    if !digits_in_exec(s, k, k + 4) {
        return false;
    }
    if !exists_char_in(s, base, k, '(') {
        return false;
    }
    exists_char_in(s, k + 4, s.len(), ')')
}

/// Whether a parenthesized year occurs at or after `base`.
fn year_found_exec(s: &Vec<char>, base: usize) -> (r: bool)
    ensures
        r == year_found(s@, base as int),
{
    let mut k: usize = base;
    while k < s.len()
        invariant
            base <= k,
            forall|k2: int| base <= k2 < k ==> !year_at(s@, base as int, k2),
        decreases s.len() - k,
    {
        if year_at_exec(s, base, k) {
            assert(year_at(s@, base as int, k as int));
            return true;
        }
        k = k + 1;
    }
    assert forall|k2: int| !year_at(s@, base as int, k2) by {
        if base <= k2 < k {
        } else if k2 + 4 > s@.len() {
        }
    }
    false
}

/// The last year run strictly below the end of `s`, with its value.
fn find_last_year(s: &Vec<char>, base: usize) -> (r: Option<(usize, u32)>)
    ensures
        match r {
            Some(p) => {
                &&& last_year(s@, base as int, s@.len() as int) == Some(p.0 as int)
                &&& p.1 == digits_value(s@.subrange(p.0 as int, p.0 + 4))
                &&& p.1 <= 9999
            },
            None => last_year(s@, base as int, s@.len() as int) is None,
        },
{
    let mut n: usize = s.len();
    while n > 0 && n > base
        invariant
            n <= s.len(),
            last_year(s@, base as int, s@.len() as int) == last_year(s@, base as int, n as int),
        decreases n,
    {
        if year_at_exec(s, base, n - 1) {
            let y = parse_digits(s, n - 1, n + 3);
            proof {
                crate::text::lemma_pow10_values();
            }
            return Some((n - 1, y));
        }
        n = n - 1;
    }
    None
}

/// Whether pattern 1 can split at `i`.
fn check_split3(s: &Vec<char>, i: usize) -> (r: bool)
    requires
        i < s.len(),
    ensures
        r == split3_at(s@, i as int),
{
    if s.len() - i < 4 {
        return false;
    }
    if s[i] != ' ' {
        return false;
    }
    if !digits_in_exec(s, i + 1, i + 4) {
        return false;
    }
    if i + 4 < s.len() && is_digit_exec(s[i + 4]) {
        return false;
    }
    year_found_exec(s, i + 4)
}

/// Whether pattern 2 can split at `i`.
fn check_split4(s: &Vec<char>, i: usize) -> (r: bool)
    requires
        i < s.len(),
    ensures
        r == split4_at(s@, i as int),
{
    if s.len() - i < 5 {
        return false;
    }
    if s[i] != ' ' {
        return false;
    }
    if !digits_in_exec(s, i + 1, i + 5) {
        return false;
    }
    if i + 5 < s.len() && is_digit_exec(s[i + 5]) {
        return false;
    }
    year_found_exec(s, i + 5)
}

/// Whether pattern 3 can split at `i`.
fn check_splitv(s: &Vec<char>, i: usize) -> (r: bool)
    requires
        i < s.len(),
    ensures
        r == splitv_at(s@, i as int),
{
    if s.len() - i < 4 {
        return false;
    }
    if s[i] != ' ' {
        return false;
    }
    if s[i + 1] != 'v' {
        return false;
    }
    if !digits_in_exec(s, i + 2, i + 4) {
        return false;
    }
    if i + 4 < s.len() && is_digit_exec(s[i + 4]) {
        return false;
    }
    year_found_exec(s, i + 4)
}

/// Pattern 1: name, exactly three issue digits, then a parenthesized year.
fn classify1_exec(s: &Vec<char>) -> (r: Option<(Vec<char>, u32, u32)>)
    ensures
        match r {
            Some(t) => classify1_spec(s@) == Some((t.0@, t.1 as int, t.2 as int)) && t.1 <= 9999
                && t.2 <= 9999,
            None => classify1_spec(s@) is None,
        },
{
    let mut n: usize = s.len();
    while n > 0
        invariant
            n <= s.len(),
            last_split3(s@, s@.len() as int) == last_split3(s@, n as int),
        decreases n,
    {
        if check_split3(s, n - 1) {
            let i = n - 1;
            let number = parse_digits(s, i + 1, i + 4);
            proof {
                crate::text::lemma_pow10_values();
            }
            let name = trim_exec(&subvec(s, 0, i));
            match find_last_year(s, i + 4) {
                Some(p) => {
                    return Some((name, number, p.1));
                },
                None => {
                    return None;
                },
            }
        }
        n = n - 1;
    }
    None
}

/// Pattern 2: name, exactly four issue digits, then a parenthesized year.
fn classify2_exec(s: &Vec<char>) -> (r: Option<(Vec<char>, u32, u32)>)
    ensures
        match r {
            Some(t) => classify2_spec(s@) == Some((t.0@, t.1 as int, t.2 as int)) && t.1 <= 9999
                && t.2 <= 9999,
            None => classify2_spec(s@) is None,
        },
{
    let mut n: usize = s.len();
    while n > 0
        invariant
            n <= s.len(),
            last_split4(s@, s@.len() as int) == last_split4(s@, n as int),
        decreases n,
    {
        if check_split4(s, n - 1) {
            let i = n - 1;
            let number = parse_digits(s, i + 1, i + 5);
            proof {
                crate::text::lemma_pow10_values();
            }
            let name = trim_exec(&subvec(s, 0, i));
            match find_last_year(s, i + 5) {
                Some(p) => {
                    return Some((name, number, p.1));
                },
                None => {
                    return None;
                },
            }
        }
        n = n - 1;
    }
    None
}

/// Pattern 3: name, `v` and exactly two volume digits, then a year.
fn classifyv_exec(s: &Vec<char>) -> (r: Option<(Vec<char>, u32, u32)>)
    ensures
        match r {
            Some(t) => classifyv_spec(s@) == Some((t.0@, t.1 as int, t.2 as int)) && t.1 <= 9999
                && t.2 <= 9999,
            None => classifyv_spec(s@) is None,
        },
{
    let mut n: usize = s.len();
    while n > 0
        invariant
            n <= s.len(),
            last_splitv(s@, s@.len() as int) == last_splitv(s@, n as int),
        decreases n,
    {
        if check_splitv(s, n - 1) {
            let i = n - 1;
            let number = parse_digits(s, i + 2, i + 4);
            proof {
                crate::text::lemma_pow10_values();
            }
            let name = trim_exec(&subvec(s, 0, i));
            match find_last_year(s, i + 4) {
                Some(p) => {
                    return Some((name, number, p.1));
                },
                None => {
                    return None;
                },
            }
        }
        n = n - 1;
    }
    None
}

/// Fallback pattern: a fixed 17-character name field immediately followed by
/// three issue digits.
fn fallback_exec(s: &Vec<char>) -> (r: Option<(Vec<char>, u32)>)
    ensures
        match r {
            Some(t) => fallback_spec(s@) == Some((t.0@, t.1 as int)) && t.1 <= 9999,
            None => fallback_spec(s@) is None,
        },
{
    if s.len() < 20 {
        return None;
    }
    if !digits_in_exec(s, 17, 20) {
        return None;
    }
    let number = parse_digits(s, 17, 20);
    proof {
        assert(pow10(0) == 1);
                assert(pow10(1) == 10);
                assert(pow10(2) == 100);
        assert(pow10(3) == 1000);
    }
    let name = trim_exec(&subvec(s, 0, 17));
    Some((name, number))
}

/// Run the pattern cascade on a bare filename. The first pattern that
/// matches wins; the fallback pattern is tried only when `use_fallback` is
/// set. Returns `None` for an unclassifiable name.
pub fn classify(filename: &Vec<char>, use_fallback: bool) -> (r: Option<ComicIdentity>)
    ensures
        match r {
            Some(id) => {
                &&& classify_spec(filename@, use_fallback) == Some(
                    (id.series@, id.issue_number as int, id.year as int, id.is_volume, id.pattern),
                )
                &&& id.wf()
            },
            None => classify_spec(filename@, use_fallback) is None,
        },
{
    match classify1_exec(filename) {
        Some(t) => {
            return Some(
                ComicIdentity {
                    series: t.0,
                    issue_number: t.1,
                    year: t.2,
                    is_volume: false,
                    pattern: MatchPattern::StandardIssue,
                },
            );
        },
        None => {},
    }
    match classify2_exec(filename) {
        Some(t) => {
            return Some(
                ComicIdentity {
                    series: t.0,
                    issue_number: t.1,
                    year: t.2,
                    is_volume: false,
                    pattern: MatchPattern::BigIssue,
                },
            );
        },
        None => {},
    }
    match classifyv_exec(filename) {
        Some(t) => {
            return Some(
                ComicIdentity {
                    series: t.0,
                    issue_number: t.1,
                    year: t.2,
                    is_volume: true,
                    pattern: MatchPattern::Volume,
                },
            );
        },
        None => {},
    }
    if use_fallback {
        match fallback_exec(filename) {
            Some(t) => {
                return Some(
                    ComicIdentity {
                        series: t.0,
                        issue_number: t.1,
                        year: 0,
                        is_volume: false,
                        pattern: MatchPattern::Fallback,
                    },
                );
            },
            None => {},
        }
    }
    None
}

} // verus!
