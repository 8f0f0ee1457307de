//! Verified helpers over character sequences: substring search, prefix and
//! suffix tests, trimming, decimal parsing and decimal formatting.
//!
//! Filenames, metadata documents and URLs are handled as `Vec<char>` so that
//! every contract can speak of the mathematical `Seq<char>` view.

use vstd::prelude::*;

verus! {

/// `p` occurs in `s` starting at index `i`.
pub open spec fn matches_at(s: Seq<char>, p: Seq<char>, i: int) -> bool {
    &&& 0 <= i
    &&& i + p.len() <= s.len()
    &&& forall|j: int| 0 <= j < p.len() ==> s[i + j] == p[j]
}

/// Index of the first occurrence of `p` in `s` at or after `from`.
pub open spec fn find_from_spec(s: Seq<char>, p: Seq<char>, from: int) -> Option<int>
    decreases s.len() - from,
{
    if from < 0 || from + p.len() > s.len() {
        None
    } else if matches_at(s, p, from) {
        Some(from)
    } else {
        find_from_spec(s, p, from + 1)
    }
}

/// `p` occurs somewhere in `s`.
pub open spec fn contains_seq(s: Seq<char>, p: Seq<char>) -> bool {
    find_from_spec(s, p, 0) is Some
}

/// `s` begins with `p`.
pub open spec fn has_prefix(s: Seq<char>, p: Seq<char>) -> bool {
    p.len() <= s.len() && forall|j: int| 0 <= j < p.len() ==> s[j] == p[j]
}

/// `s` ends with `p`.
pub open spec fn has_suffix(s: Seq<char>, p: Seq<char>) -> bool {
    p.len() <= s.len() && forall|j: int| 0 <= j < p.len() ==> s[s.len() - p.len() + j] == p[j]
}

/// `c` is a decimal digit.
pub open spec fn is_digit_char(c: char) -> bool {
    48 <= (c as u32) && (c as u32) <= 57
}

/// Numeric value of a digit character.
pub open spec fn digit_val(c: char) -> int {
    (c as u32) - 48
}

/// Every character of `s` in `[lo, hi)` is a decimal digit.
pub open spec fn digits_in(s: Seq<char>, lo: int, hi: int) -> bool {
    forall|j: int| lo <= j < hi ==> is_digit_char(s[j])
}

/// Value of a sequence of digit characters read in base ten.
pub open spec fn digits_value(s: Seq<char>) -> int
    decreases s.len(),
{
    if s.len() == 0 {
        0
    } else {
        digits_value(s.drop_last()) * 10 + digit_val(s.last())
    }
}

/// The digit character for a value below ten.
pub open spec fn digit_char(d: int) -> char {
    if d == 0 { '0' }
    else if d == 1 { '1' }
    else if d == 2 { '2' }
    else if d == 3 { '3' }
    else if d == 4 { '4' }
    else if d == 5 { '5' }
    else if d == 6 { '6' }
    else if d == 7 { '7' }
    else if d == 8 { '8' }
    else { '9' }
}

/// Decimal representation of a non-negative number, no leading zeros.
pub open spec fn dec_digits(n: int) -> Seq<char>
    decreases n,
{
    if n < 10 {
        seq![digit_char(n)]
    } else {
        dec_digits(n / 10).push(digit_char(n % 10))
    }
}

/// Decimal representation of an integer, with a leading minus sign when
/// negative.
pub open spec fn int_digits(n: int) -> Seq<char> {
    if n < 0 {
        seq!['-'] + dec_digits(-n)
    } else {
        dec_digits(n)
    }
}

/// Three-digit zero-padded representation of a number below one thousand.
pub open spec fn padded3(n: int) -> Seq<char> {
    seq![digit_char(n / 100), digit_char((n / 10) % 10), digit_char(n % 10)]
}

/// Four-digit zero-padded representation of a number below ten thousand.
pub open spec fn padded4(n: int) -> Seq<char> {
    seq![digit_char(n / 1000), digit_char((n / 100) % 10), digit_char((n / 10) % 10),
        digit_char(n % 10)]
}

/// A whitespace character, as trimming understands it.
pub open spec fn is_space_char(c: char) -> bool {
    c == ' ' || c == '\t' || c == '\n' || c == '\r'
}

/// Index of the first non-whitespace character at or after `i`, or the length
/// of `s` when all of the rest is whitespace.
pub open spec fn first_nonspace(s: Seq<char>, i: int) -> int
    decreases s.len() - i,
{
    if i < 0 || i >= s.len() {
        s.len() as int
    } else if !is_space_char(s[i]) {
        i
    } else {
        first_nonspace(s, i + 1)
    }
}

/// One past the index of the last non-whitespace character strictly below
/// `i`, or zero when there is none.
pub open spec fn last_nonspace_end(s: Seq<char>, i: int) -> int
    decreases i,
{
    if i <= 0 || i > s.len() {
        0
    } else if !is_space_char(s[i - 1]) {
        i
    } else {
        last_nonspace_end(s, i - 1)
    }
}

/// `s` with leading and trailing whitespace removed.
pub open spec fn trim_spec(s: Seq<char>) -> Seq<char> {
    let lo = first_nonspace(s, 0);
    let hi = last_nonspace_end(s, s.len() as int);
    if lo <= hi {
        s.subrange(lo, hi)
    } else {
        Seq::empty()
    }
}

/// Whether `p` occurs in `hay` at index `i`.
fn match_at_exec(hay: &Vec<char>, needle: &Vec<char>, i: usize) -> (r: bool)
    requires
        i + needle.len() <= hay.len(),
    ensures
        r == matches_at(hay@, needle@, i as int),
{
    let mut j: usize = 0;
    while j < needle.len()
        invariant
            i + needle.len() <= hay.len(),
            j <= needle@.len(),
            forall|k: int| 0 <= k < j ==> hay@[i + k] == needle@[k],
        decreases needle@.len() - j,
    {
        if hay[i + j] != needle[j] {
            return false;
        }
        j = j + 1;
    }
    true
}

/// First occurrence of `needle` in `hay` at or after `from`.
pub fn find_sub(hay: &Vec<char>, needle: &Vec<char>, from: usize) -> (r: Option<usize>)
    ensures
        match r {
            Some(i) => find_from_spec(hay@, needle@, from as int) == Some(i as int),
            None => find_from_spec(hay@, needle@, from as int) is None,
        },
{
    if from > hay.len() || needle.len() > hay.len() - from {
        return None;
    }
    let bound = hay.len() - needle.len();
    let mut i: usize = from;
    while i <= bound
        invariant
            from <= i <= bound + 1,
            needle.len() <= hay.len(),
            bound == hay.len() - needle.len(),
            find_from_spec(hay@, needle@, from as int) == find_from_spec(hay@, needle@, i as int),
        decreases bound + 1 - i,
    {
        if match_at_exec(hay, needle, i) {
            return Some(i);
        }
        i = i + 1;
    }
    None
}

/// Whether `needle` occurs anywhere in `hay`.
pub fn contains_sub(hay: &Vec<char>, needle: &Vec<char>) -> (r: bool)
    ensures
        r == contains_seq(hay@, needle@),
{
    find_sub(hay, needle, 0).is_some()
}

/// Whether `s` begins with `p`.
pub fn has_prefix_exec(s: &Vec<char>, p: &Vec<char>) -> (r: bool)
    ensures
        r == has_prefix(s@, p@),
{
    if p.len() > s.len() {
        return false;
    }
    match_at_exec(s, p, 0)
}

/// Whether `s` ends with `p`.
pub fn has_suffix_exec(s: &Vec<char>, p: &Vec<char>) -> (r: bool)
    ensures
        r == has_suffix(s@, p@),
{
    if p.len() > s.len() {
        return false;
    }
    let base = s.len() - p.len();
    let r = match_at_exec(s, p, base);
    assert(matches_at(s@, p@, base as int) == has_suffix(s@, p@));
    r
}

/// Whether `c` occurs in `s` at an index in `[lo, hi)`.
pub fn exists_char_in(s: &Vec<char>, lo: usize, hi: usize, c: char) -> (r: bool)
    requires
        hi <= s@.len(),
    ensures
        r == exists|j: int| lo <= j < hi && s@[j] == c,
{
    let mut i: usize = lo;
    while i < hi
        invariant
            lo <= i,
            hi <= s@.len(),
            forall|j: int| lo <= j < i ==> s@[j] != c,
        decreases hi - i,
    {
        if s[i] == c {
            assert(s@[i as int] == c);
            return true;
        }
        i = i + 1;
    }
    false
}

/// Whether every character of `s` in `[lo, hi)` is a decimal digit.
pub fn digits_in_exec(s: &Vec<char>, lo: usize, hi: usize) -> (r: bool)
    requires
        hi <= s@.len(),
    ensures
        r == digits_in(s@, lo as int, hi as int),
{
    let mut i: usize = lo;
    while i < hi
        invariant
            lo <= i,
            hi <= s@.len(),
            forall|j: int| lo <= j < i ==> is_digit_char(s@[j]),
        decreases hi - i,
    {
        let c = s[i];
        if (c as u32) < 48 || (c as u32) > 57 {
            return false;
        }
        i = i + 1;
    }
    true
}

/// Powers of ten.
pub open spec fn pow10(n: int) -> int
    decreases n,
{
    if n <= 0 {
        1
    } else {
        10 * pow10(n - 1)
    }
}

/// Parse the digit run `s[lo..hi]` in base ten.
pub fn parse_digits(s: &Vec<char>, lo: usize, hi: usize) -> (r: u32)
    requires
        lo <= hi,
        hi <= s@.len(),
        hi - lo <= 9,
        digits_in(s@, lo as int, hi as int),
    ensures
        r == digits_value(s@.subrange(lo as int, hi as int)),
        r < pow10(hi - lo),
{
    let mut acc: u32 = 0;
    let mut i: usize = lo;
    proof {
        assert(s@.subrange(lo as int, lo as int) =~= Seq::<char>::empty());
    }
    while i < hi
        invariant
            lo <= i <= hi,
            hi <= s@.len(),
            hi - lo <= 9,
            digits_in(s@, lo as int, hi as int),
            acc == digits_value(s@.subrange(lo as int, i as int)),
            acc < pow10(i - lo),
        decreases hi - i,
    {
        let c = s[i];
        proof {
            assert(is_digit_char(s@[i as int]));
            assert(pow10(i - lo) <= pow10(8)) by {
                lemma_pow10_mono(i - lo, 8);
            }
            assert(pow10(8) == 100000000) by {
                lemma_pow10_values();
            }
            assert(s@.subrange(lo as int, i + 1).drop_last() =~= s@.subrange(
                lo as int,
                i as int,
            ));
            assert(s@.subrange(lo as int, i + 1).last() == s@[i as int]);
        }
        acc = acc * 10 + ((c as u32) - 48);
        i = i + 1;
    }
    proof {
        assert(pow10(i - lo) == pow10(hi - lo));
    }
    acc
}

/// `pow10` is monotone.
pub proof fn lemma_pow10_mono(a: int, b: int)
    requires
        a <= b,
    ensures
        pow10(a) <= pow10(b),
        pow10(a) >= 1,
    decreases b - a,
{
    if a < b {
        lemma_pow10_mono(a, b - 1);
    } else {
        lemma_pow10_pos(a);
    }
}

/// `pow10` is positive.
pub proof fn lemma_pow10_pos(a: int)
    ensures
        pow10(a) >= 1,
    decreases a,
{
    if a > 0 {
        lemma_pow10_pos(a - 1);
    }
}

/// The first ten powers of ten, written out.
pub proof fn lemma_pow10_values()
    ensures
        pow10(0) == 1,
        pow10(1) == 10,
        pow10(2) == 100,
        pow10(3) == 1000,
        pow10(4) == 10000,
        pow10(5) == 100000,
        pow10(6) == 1000000,
        pow10(7) == 10000000,
        pow10(8) == 100000000,
        pow10(9) == 1000000000,
{
    assert(pow10(0) == 1);
    assert(pow10(1) == 10);
    assert(pow10(2) == 100);
    assert(pow10(3) == 1000);
    assert(pow10(4) == 10000);
    assert(pow10(5) == 100000);
    assert(pow10(6) == 1000000);
    assert(pow10(7) == 10000000);
    assert(pow10(8) == 100000000);
    assert(pow10(9) == 1000000000);
}

/// The digit character for `d`, below ten.
pub fn digit_char_exec(d: u32) -> (r: char)
    requires
        d < 10,
    ensures
        r == digit_char(d as int),
{
    if d == 0 { '0' }
    else if d == 1 { '1' }
    else if d == 2 { '2' }
    else if d == 3 { '3' }
    else if d == 4 { '4' }
    else if d == 5 { '5' }
    else if d == 6 { '6' }
    else if d == 7 { '7' }
    else if d == 8 { '8' }
    else { '9' }
}

/// Decimal representation of `n`, no leading zeros.
pub fn u32_to_dec(n: u32) -> (r: Vec<char>)
    ensures
        r@ == dec_digits(n as int),
    decreases n,
{
    if n < 10 {
        let mut v: Vec<char> = Vec::new();
        v.push(digit_char_exec(n));
        proof {
            assert(v@ =~= dec_digits(n as int));
        }
        v
    } else {
        let mut v = u32_to_dec(n / 10);
        v.push(digit_char_exec(n % 10));
        proof {
            assert(v@ =~= dec_digits(n as int));
        }
        v
    }
}

/// Decimal representation of `n`, with a minus sign when negative.
pub fn i64_to_dec(n: i64) -> (r: Vec<char>)
    requires
        -4294967295 <= n <= 4294967295,
    ensures
        r@ == int_digits(n as int),
{
    if n < 0 {
        let mut v: Vec<char> = Vec::new();
        v.push('-');
        let rest = u32_to_dec((-n) as u32);
        let mut k: usize = 0;
        while k < rest.len()
            invariant
                k <= rest@.len(),
                v@ == seq!['-'] + rest@.subrange(0, k as int),
            decreases rest@.len() - k,
        {
            v.push(rest[k]);
            proof {
                assert(v@ =~= seq!['-'] + rest@.subrange(0, k + 1));
            }
            k = k + 1;
        }
        proof {
            assert(rest@.subrange(0, rest@.len() as int) =~= rest@);
        }
        v
    } else {
        u32_to_dec(n as u32)
    }
}

/// Three-digit zero-padded representation.
pub fn padded3_exec(n: u32) -> (r: Vec<char>)
    requires
        n < 1000,
    ensures
        r@ == padded3(n as int),
{
    let mut v: Vec<char> = Vec::new();
    v.push(digit_char_exec(n / 100));
    v.push(digit_char_exec((n / 10) % 10));
    v.push(digit_char_exec(n % 10));
    proof {
        assert(v@ =~= padded3(n as int));
    }
    v
}

/// Four-digit zero-padded representation.
pub fn padded4_exec(n: u32) -> (r: Vec<char>)
    requires
        n < 10000,
    ensures
        r@ == padded4(n as int),
{
    let mut v: Vec<char> = Vec::new();
    v.push(digit_char_exec(n / 1000));
    v.push(digit_char_exec((n / 100) % 10));
    v.push(digit_char_exec((n / 10) % 10));
    v.push(digit_char_exec(n % 10));
    proof {
        assert(v@ =~= padded4(n as int));
    }
    v
}

/// Copy of `s[lo..hi]`.
pub fn subvec(s: &Vec<char>, lo: usize, hi: usize) -> (r: Vec<char>)
    requires
        lo <= hi,
        hi <= s@.len(),
    ensures
        r@ == s@.subrange(lo as int, hi as int),
{
    let mut v: Vec<char> = Vec::new();
    let mut i: usize = lo;
    while i < hi
        invariant
            lo <= i <= hi,
            hi <= s@.len(),
            v@ == s@.subrange(lo as int, i as int),
        decreases hi - i,
    {
        v.push(s[i]);
        proof {
            assert(v@ =~= s@.subrange(lo as int, i + 1));
        }
        i = i + 1;
    }
    v
}

/// Append a copy of `src` to `dst`.
pub fn append_chars(dst: &mut Vec<char>, src: &Vec<char>)
    ensures
        final(dst)@ == old(dst)@ + src@,
{
    let mut i: usize = 0;
    while i < src.len()
        invariant
            i <= src@.len(),
            dst@ == old(dst)@ + src@.subrange(0, i as int),
        decreases src@.len() - i,
    {
        dst.push(src[i]);
        proof {
            assert(dst@ =~= old(dst)@ + src@.subrange(0, i + 1));
        }
        i = i + 1;
    }
    proof {
        assert(old(dst)@ + src@.subrange(0, src@.len() as int) =~= old(dst)@ + src@);
    }
}

/// `s` with surrounding whitespace removed.
pub fn trim_exec(s: &Vec<char>) -> (r: Vec<char>)
    ensures
        r@ == trim_spec(s@),
{
    let mut lo: usize = 0;
    while lo < s.len() && is_space_exec(s[lo])
        invariant
            lo <= s@.len(),
            first_nonspace(s@, 0) == first_nonspace(s@, lo as int),
        decreases s@.len() - lo,
    {
        lo = lo + 1;
    }
    assert(first_nonspace(s@, 0) == lo);
    let mut hi: usize = s.len();
    while hi > 0 && is_space_exec(s[hi - 1])
        invariant
            hi <= s@.len(),
            last_nonspace_end(s@, s@.len() as int) == last_nonspace_end(s@, hi as int),
        decreases hi,
    {
        hi = hi - 1;
    }
    assert(last_nonspace_end(s@, s@.len() as int) == hi);
    if lo <= hi {
        subvec(s, lo, hi)
    } else {
        let v: Vec<char> = Vec::new();
        proof {
            assert(v@ =~= trim_spec(s@));
        }
        v
    }
}

/// Whether `c` is whitespace.
pub fn is_space_exec(c: char) -> (r: bool)
    ensures
        r == is_space_char(c),
{
    c == ' ' || c == '\t' || c == '\n' || c == '\r'
}

/// A found index lies at or after the search start and really matches.
pub proof fn lemma_find_from_props(s: Seq<char>, p: Seq<char>, from: int)
    ensures
        match find_from_spec(s, p, from) {
            Some(x) => from <= x && matches_at(s, p, x),
            None => true,
        },
    decreases s.len() - from,
{
    if from < 0 || from + p.len() > s.len() {
    } else if matches_at(s, p, from) {
    } else {
        lemma_find_from_props(s, p, from + 1);
    }
}

/// Whether two character vectors hold the same sequence.
pub fn eq_chars(a: &Vec<char>, b: &Vec<char>) -> (r: bool)
    ensures
        r == (a@ == b@),
{
    if a.len() != b.len() {
        return false;
    }
    let r = match_at_exec(a, b, 0);
    proof {
        if matches_at(a@, b@, 0) {
            assert(a@ =~= b@);
        }
        if a@ == b@ {
            assert(matches_at(a@, b@, 0));
        }
    }
    r
}

/// The last index strictly below `n` where `c` stands, if any.
pub open spec fn last_index_of(s: Seq<char>, c: char, n: int) -> Option<int>
    decreases n,
{
    if n <= 0 || n > s.len() {
        None
    } else if s[n - 1] == c {
        Some(n - 1)
    } else {
        last_index_of(s, c, n - 1)
    }
}

/// The last occurrence of `c` in `s`.
pub fn find_last_char(s: &Vec<char>, c: char) -> (r: Option<usize>)
    ensures
        match r {
            Some(i) => last_index_of(s@, c, s@.len() as int) == Some(i as int) && i < s@.len()
                && s@[i as int] == c,
            None => last_index_of(s@, c, s@.len() as int) is None,
        },
{
    let mut n: usize = s.len();
    while n > 0
        invariant
            n <= s.len(),
            last_index_of(s@, c, s@.len() as int) == last_index_of(s@, c, n as int),
        decreases n,
    {
        if s[n - 1] == c {
            return Some(n - 1);
        }
        n = n - 1;
    }
    None
}

/// A digit character carries its value and is a digit.
pub proof fn lemma_digit_char_val(d: int)
    requires
        0 <= d <= 9,
    ensures
        digit_val(digit_char(d)) == d,
        is_digit_char(digit_char(d)),
{
}

/// How many digits the plain decimal representation has, up to four.
pub proof fn lemma_dec_digits_len(m: int)
    requires
        0 <= m < 10000,
    ensures
        m < 10 ==> dec_digits(m).len() == 1,
        10 <= m < 100 ==> dec_digits(m).len() == 2,
        100 <= m < 1000 ==> dec_digits(m).len() == 3,
        1000 <= m ==> dec_digits(m).len() == 4,
    decreases m,
{
    if m >= 10 {
        lemma_dec_digits_len(m / 10);
    }
}

/// Reading the plain decimal representation back yields the number, and
/// every character of it is a digit.
pub proof fn lemma_dec_digits_value(m: int)
    requires
        0 <= m,
    ensures
        digits_value(dec_digits(m)) == m,
        digits_in(dec_digits(m), 0, dec_digits(m).len() as int),
        dec_digits(m).len() >= 1,
    decreases m,
{
    if m < 10 {
        let s = dec_digits(m);
        assert(s =~= seq![digit_char(m)]);
        assert(s.drop_last() =~= Seq::<char>::empty());
        assert(digits_value(s.drop_last()) == 0);
        assert(digits_value(s) == digits_value(s.drop_last()) * 10 + digit_val(s.last()));
        lemma_digit_char_val(m);
    } else {
        lemma_dec_digits_value(m / 10);
        let s = dec_digits(m);
        let head = dec_digits(m / 10);
        assert(s == head.push(digit_char(m % 10)));
        assert(s.drop_last() =~= head);
        assert(s.last() == digit_char(m % 10));
        lemma_digit_char_val(m % 10);
        vstd::arithmetic::div_mod::lemma_fundamental_div_mod(m, 10);
        assert(digits_value(s) == m);
        assert forall|k: int| 0 <= k < s.len() implies is_digit_char(s[k]) by {
            if k < s.len() - 1 {
                assert(s[k] == head[k]);
            }
        }
    }
}

/// Reading a three-digit zero-padded representation back yields the
/// number, and every character of it is a digit.
pub proof fn lemma_padded3_value(n: int)
    requires
        0 <= n < 1000,
    ensures
        padded3(n).len() == 3,
        digits_value(padded3(n)) == n,
        digits_in(padded3(n), 0, 3),
{
    let s = padded3(n);
    lemma_digit_char_val(n / 100);
    lemma_digit_char_val((n / 10) % 10);
    lemma_digit_char_val(n % 10);
    let s2 = s.drop_last();
    let s1 = s2.drop_last();
    let s0 = s1.drop_last();
    assert(s2 =~= seq![digit_char(n / 100), digit_char((n / 10) % 10)]);
    assert(s1 =~= seq![digit_char(n / 100)]);
    assert(s0 =~= Seq::<char>::empty());
    assert(digits_value(s0) == 0);
    assert(digits_value(s1) == digits_value(s0) * 10 + digit_val(s1.last()));
    assert(digits_value(s2) == digits_value(s1) * 10 + digit_val(s2.last()));
    assert(digits_value(s) == digits_value(s2) * 10 + digit_val(s.last()));
    vstd::arithmetic::div_mod::lemma_fundamental_div_mod(n, 10);
    vstd::arithmetic::div_mod::lemma_fundamental_div_mod(n / 10, 10);
    vstd::arithmetic::div_mod::lemma_div_denominator(n, 10, 10);
    assert((n / 10) / 10 == n / 100);
    assert(digits_value(s) == ((n / 100) * 10 + (n / 10) % 10) * 10 + n % 10);
}

/// Name for the character sequence `str::to_lowercase` returns: it depends
/// on the input characters alone.
pub uninterp spec fn lower_of(s: Seq<char>) -> Seq<char>;

/// Lowercase a character sequence.
///
/// Relies on `str::to_lowercase`: its result is a function of the input
/// characters alone.
#[verifier::external_body]
pub(crate) fn lowercase_chars(v: &Vec<char>) -> (r: Vec<char>)
    ensures
        r@ == lower_of(v@),
{
    v.iter().collect::<String>().to_lowercase().chars().collect()
}

/// The characters of a string slice, as a vector.
///
/// Relies on `str::chars`: it yields exactly the characters of the slice,
/// in order.
#[verifier::external_body]
pub(crate) fn str_chars(s: &str) -> (r: Vec<char>)
    ensures
        r@ == s@,
{
    s.chars().collect()
}

} // verus!
