//! Destination layout for one classified file: the canonical folder
//! `"<year> - <series>"`, the zero-padded file name `"NNN.ext"`, and the
//! extension rename after an archive was repacked to the RAR-family format.

use vstd::prelude::*;
use crate::classify::{classify, classify_spec, ComicIdentity};
use crate::registry::{hash_of, my_hash, resolve_year_spec, SeriesYearRegistry};
use crate::text::{
    dec_digits, has_suffix, last_index_of, padded3, padded4, append_chars, find_last_char,
    has_suffix_exec, padded3_exec, padded4_exec, str_chars, subvec, u32_to_dec,
};

verus! {

/// The digits of an issue number as they appear in a destination file name:
/// zero-padded to three digits below one thousand, plain decimal above.
pub open spec fn issue_digits(n: int) -> Seq<char> {
    if n < 1000 {
        padded3(n)
    } else {
        dec_digits(n)
    }
}

/// Format an issue number for a destination file name.
pub fn issue_digits_exec(n: u32) -> (r: Vec<char>)
    ensures
        r@ == issue_digits(n as int),
{
    if n < 1000 {
        padded3_exec(n)
    } else {
        u32_to_dec(n)
    }
}

/// For every issue number a classified name can carry, the formatted
/// digits are three wide exactly when the number is below one thousand and
/// four wide otherwise, and reading them back yields the same number — so
/// sorting an already-sorted file reproduces the identical file name.
pub proof fn lemma_issue_digits_roundtrip(n: int)
    requires
        0 <= n <= 9999,
    ensures
        (issue_digits(n).len() == 3) <==> (n < 1000),
        n >= 1000 ==> issue_digits(n).len() == 4,
        crate::text::digits_in(issue_digits(n), 0, issue_digits(n).len() as int),
        crate::text::digits_value(issue_digits(n)) == n,
{
    if n < 1000 {
        crate::text::lemma_padded3_value(n);
    } else {
        crate::text::lemma_dec_digits_len(n);
        crate::text::lemma_dec_digits_value(n);
    }
}

/// A destination file name the sorter produces never classifies again: its
/// digits and its extension hold no separating space and it is too short
/// for the fallback field, so sorting an already-sorted tree moves nothing
/// and reproduces identical names.
pub proof fn lemma_sorted_name_not_reclassified(number: int, ext: Seq<char>, use_fallback: bool)
    requires
        0 <= number <= 9999,
        forall|j: int| 0 <= j < ext.len() ==> ext[j] != ' ',
        ext.len() <= 14,
    ensures
        classify_spec(file_name_spec(number, ext), use_fallback) is None,
{
    let d = issue_digits(number);
    let s = file_name_spec(number, ext);
    reveal_strlit(".");
    lemma_issue_digits_roundtrip(number);
    assert forall|j: int| 0 <= j < s.len() implies s[j] != ' ' by {
        if j < d.len() {
            assert(crate::text::is_digit_char(d[j]));
            assert(s[j] == d[j]);
        } else if j == d.len() {
            assert(s[j] == '.');
        } else {
            assert(s[j] == ext[j - d.len() - 1]);
        }
    }
    crate::classify::lemma_no_space_no_split(s, s.len() as int);
    assert(s.len() < 20);
    assert(crate::classify::classify1_spec(s) is None);
    assert(crate::classify::classify2_spec(s) is None);
    assert(crate::classify::classifyv_spec(s) is None);
    assert(crate::classify::fallback_spec(s) is None);
}

/// The canonical folder name, `"<year> - <series>"`, with the year written
/// in four digits.
pub open spec fn dir_name_spec(year: int, series: Seq<char>) -> Seq<char> {
    padded4(year) + " - "@ + series
}

/// Build the canonical folder name for a series and its resolved year.
pub fn dest_dir_name(year: u32, series: &Vec<char>) -> (r: Vec<char>)
    requires
        year <= 9999,
    ensures
        r@ == dir_name_spec(year as int, series@),
{
    let mut v = padded4_exec(year);
    append_chars(&mut v, &str_chars(" - "));
    append_chars(&mut v, series);
    proof {
        assert(v@ =~= dir_name_spec(year as int, series@));
    }
    v
}

/// The destination file name, `"<issue digits>.<extension>"`.
pub open spec fn file_name_spec(number: int, ext: Seq<char>) -> Seq<char> {
    issue_digits(number) + "."@ + ext
}

/// Build the destination file name for an issue number and an extension.
pub fn dest_file_name(number: u32, ext: &Vec<char>) -> (r: Vec<char>)
    ensures
        r@ == file_name_spec(number as int, ext@),
{
    let mut v = issue_digits_exec(number);
    append_chars(&mut v, &str_chars("."));
    append_chars(&mut v, ext);
    proof {
        assert(v@ =~= file_name_spec(number as int, ext@));
    }
    v
}

/// The extension of a file name: what follows the last dot, unless the name
/// has no dot or starts with its only leading dot.
pub open spec fn extension_spec(s: Seq<char>) -> Option<Seq<char>> {
    match last_index_of(s, '.', s.len() as int) {
        None => None,
        Some(i) => if i == 0 {
            None
        } else {
            Some(s.subrange(i + 1, s.len() as int))
        },
    }
}

/// Extension of a file name, if it has one.
pub fn extension_of(name: &Vec<char>) -> (r: Option<Vec<char>>)
    ensures
        match r {
            Some(e) => extension_spec(name@) == Some(e@),
            None => extension_spec(name@) is None,
        },
{
    match find_last_char(name, '.') {
        None => None,
        Some(i) => if i == 0 {
            None
        } else {
            assert(i < name.len());
            Some(subvec(name, i + 1, name.len()))
        },
    }
}

/// The rename a destination gets after stripping: when a watermark was
/// found under the repack-to-RAR policy and the destination ends `.cbz`,
/// its extension becomes `.cbr`; otherwise the name stays.
pub open spec fn rename_spec(name: Seq<char>, had_watermark: bool, always_repack_rar: bool) -> Option<
    Seq<char>,
> {
    if had_watermark && always_repack_rar && has_suffix(name, ".cbz"@) {
        Some(name.subrange(0, name.len() - 4) + ".cbr"@)
    } else {
        None
    }
}

/// The new name of a stripped destination file, when it changes at all.
pub fn renamed_after_strip(name: &Vec<char>, had_watermark: bool, always_repack_rar: bool) -> (r:
    Option<Vec<char>>)
    ensures
        match r {
            Some(n) => rename_spec(name@, had_watermark, always_repack_rar) == Some(n@),
            None => rename_spec(name@, had_watermark, always_repack_rar) is None,
        },
{
    if had_watermark && always_repack_rar && has_suffix_exec(name, &str_chars(".cbz")) {
        proof {
            reveal_strlit(".cbz");
        }
        let mut v = subvec(name, 0, name.len() - 4);
        append_chars(&mut v, &str_chars(".cbr"));
        Some(v)
    } else {
        None
    }
}

/// Where one classified file goes.
pub struct FilePlan {
    /// The identity the classifier produced.
    pub identity: ComicIdentity,
    /// The canonical year the registry resolved for the series.
    pub resolved_year: u32,
    /// The destination folder name, `"<year> - <series>"`.
    pub dir_name: Vec<char>,
    /// The destination file name, `"<issue>.<ext>"`.
    pub file_name: Vec<char>,
}

/// Decide the destination of one file: classify its bare name, resolve the
/// canonical year for its series through the registry, and compute folder
/// and file names. A name that classifies under no pattern, or carries no
/// extension, yields no plan and leaves the registry untouched.
pub fn plan_file(
    filename: &Vec<char>,
    use_fallback: bool,
    registry: &mut SeriesYearRegistry,
) -> (r: Option<FilePlan>)
    requires
        old(registry).wf(),
    ensures
        final(registry).wf(),
        match classify_spec(filename@, use_fallback) {
            None => r is None && final(registry)@ == old(registry)@,
            Some(t) => match extension_spec(filename@) {
                None => r is None && final(registry)@ == old(registry)@,
                Some(ext) => {
                    let (m2, y) = resolve_year_spec(old(registry)@, hash_of(t.0), t.2 as u32);
                    &&& final(registry)@ == m2
                    &&& r matches Some(p)
                    &&& p.identity.series@ == t.0
                    &&& p.identity.issue_number as int == t.1
                    &&& p.identity.year as int == t.2
                    &&& p.identity.is_volume == t.3
                    &&& p.identity.pattern == t.4
                    &&& p.resolved_year == y
                    &&& p.dir_name@ == dir_name_spec(y as int, t.0)
                    &&& p.file_name@ == file_name_spec(t.1, ext)
                },
            },
        },
{
    let id = match classify(filename, use_fallback) {
        Some(id) => id,
        None => {
            return None;
        },
    };
    let ext = match extension_of(filename) {
        Some(e) => e,
        None => {
            return None;
        },
    };
    let key = my_hash(&id.series);
    let year = registry.resolve_year(key, id.year);
    let dir_name = dest_dir_name(year, &id.series);
    let file_name = dest_file_name(id.issue_number, &ext);
    Some(FilePlan { identity: id, resolved_year: year, dir_name, file_name })
}

} // verus!
