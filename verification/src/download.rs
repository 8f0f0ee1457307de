//! The decisions of the download loop, as pure functions on text: pick the
//! file link out of a page body, take the series name, issue number and
//! year apart from a seed URL, read the display title off the page, and
//! build the next candidate URL and the downloaded file's name. The network
//! calls around them live in the application shell.

use vstd::prelude::*;
use crate::sorter::issue_digits;
use crate::sorter::issue_digits_exec;
use crate::text::{
    contains_seq, dec_digits, digits_in, digits_value, find_from_spec, int_digits, last_index_of,
    lower_of, trim_spec, append_chars, contains_sub, digits_in_exec, find_last_char, find_sub,
    i64_to_dec, lemma_find_from_props, lowercase_chars, parse_digits, pow10, str_chars, subvec,
    trim_exec, u32_to_dec,
};

verus! {

/// The first host a page body is searched for.
pub open spec fn primary_marker() -> Seq<char> {
    "https://weekly2.comicfiles.ru/"@
}

/// The host tried when the first is not found.
pub open spec fn secondary_marker() -> Seq<char> {
    "https://getcomics.info/run.php-urls/"@
}

/// Where the download link starts in a page body: at the primary marker
/// when it occurs past the beginning, else at the secondary marker, else at
/// the beginning of the body.
pub open spec fn url_start_spec(b: Seq<char>) -> int {
    let s1 = match find_from_spec(b, primary_marker(), 0) {
        Some(i) => i,
        None => 0,
    };
    if s1 == 0 {
        match find_from_spec(b, secondary_marker(), 0) {
            Some(j) => j,
            None => 0,
        }
    } else {
        s1
    }
}

/// The download link: from its start to the next double quote, or to the
/// end of the body when none follows.
pub open spec fn download_url_spec(b: Seq<char>) -> Seq<char> {
    let s = url_start_spec(b);
    let e = match find_from_spec(b, "\""@, s) {
        Some(j) => j,
        None => b.len() as int,
    };
    b.subrange(s, e)
}

/// Pick the download link out of a page body.
pub fn find_download_url(body: &Vec<char>) -> (r: Vec<char>)
    ensures
        r@ == download_url_spec(body@),
{
    let m1 = str_chars("https://weekly2.comicfiles.ru/");
    let m2 = str_chars("https://getcomics.info/run.php-urls/");
    let s1: usize = match find_sub(body, &m1, 0) {
        Some(i) => i,
        None => 0,
    };
    let s: usize = if s1 == 0 {
        match find_sub(body, &m2, 0) {
            Some(j) => j,
            None => 0,
        }
    } else {
        s1
    };
    proof {
        lemma_find_from_props(body@, m1@, 0);
        lemma_find_from_props(body@, m2@, 0);
        assert(s <= body.len());
    }
    let quote = str_chars("\"");
    let e: usize = match find_sub(body, &quote, s) {
        Some(j) => j,
        None => body.len(),
    };
    proof {
        lemma_find_from_props(body@, quote@, s as int);
        assert(s <= e <= body.len());
    }
    subvec(body, s, e)
}

/// The parts of a seed URL `.../<name>-<number>-<year>/`: the series name
/// after the last slash, the issue digits after the last dash, and the four
/// year digits before the closing slash. A URL that is not of this shape
/// parses to nothing.
pub open spec fn parse_series_url_spec(u: Seq<char>) -> Option<(Seq<char>, int, int)> {
    if u.len() < 6 {
        None
    } else if !digits_in(u, u.len() - 5, u.len() - 1) {
        None
    } else {
        let year = digits_value(u.subrange(u.len() - 5, u.len() - 1));
        let before = u.subrange(0, u.len() - 6);
        match last_index_of(before, '-', before.len() as int) {
            None => None,
            Some(d) => {
                if before.len() - d - 1 < 1 || before.len() - d - 1 > 9 || !digits_in(
                    before,
                    d + 1,
                    before.len() as int,
                ) {
                    None
                } else {
                    let number = digits_value(before.subrange(d + 1, before.len() as int));
                    let stem = before.subrange(0, d);
                    match last_index_of(stem, '/', stem.len() as int) {
                        None => None,
                        Some(sl) => Some((stem.subrange(sl + 1, stem.len() as int), number, year)),
                    }
                }
            },
        }
    }
}

/// Take a seed URL apart into series name, issue number and year.
pub fn parse_series_url(url: &Vec<char>) -> (r: Option<(Vec<char>, u32, u32)>)
    ensures
        match r {
            Some(t) => parse_series_url_spec(url@) == Some((t.0@, t.1 as int, t.2 as int)) && t.2
                <= 9999,
            None => parse_series_url_spec(url@) is None,
        },
{
    if url.len() < 6 {
        return None;
    }
    if !digits_in_exec(url, url.len() - 5, url.len() - 1) {
        return None;
    }
    let year = parse_digits(url, url.len() - 5, url.len() - 1);
    proof {
        crate::text::lemma_pow10_values();
    }
    let before = subvec(url, 0, url.len() - 6);
    let d = match find_last_char(&before, '-') {
        Some(d) => d,
        None => {
            return None;
        },
    };
    if before.len() - d - 1 < 1 || before.len() - d - 1 > 9 || !digits_in_exec(
        &before,
        d + 1,
        before.len(),
    ) {
        return None;
    }
    let number = parse_digits(&before, d + 1, before.len());
    let stem = subvec(&before, 0, d);
    let sl = match find_last_char(&stem, '/') {
        Some(sl) => sl,
        None => {
            return None;
        },
    };
    let name = subvec(&stem, sl + 1, stem.len());
    Some((name, number, year))
}

/// The marker in front of the page's display title.
pub open spec fn title_marker() -> Seq<char> {
    "<h1 class=\"post-title\">"@
}

/// The display title of a page: what stands between the title marker and
/// the next `#`, trimmed. A body too short to hold the marker has none.
pub open spec fn extract_title_spec(b: Seq<char>) -> Option<Seq<char>> {
    let s = match find_from_spec(b, title_marker(), 0) {
        Some(i) => i,
        None => 0,
    };
    let cs = s + title_marker().len();
    if cs > b.len() {
        None
    } else {
        let e = match find_from_spec(b, "#"@, cs as int) {
            Some(j) => j,
            None => b.len() as int,
        };
        Some(trim_spec(b.subrange(cs as int, e)))
    }
}

/// Read the display title off a page body.
pub fn extract_title(body: &Vec<char>) -> (r: Option<Vec<char>>)
    ensures
        match r {
            Some(t) => extract_title_spec(body@) == Some(t@),
            None => extract_title_spec(body@) is None,
        },
{
    let marker = str_chars("<h1 class=\"post-title\">");
    let s: usize = match find_sub(body, &marker, 0) {
        Some(i) => i,
        None => 0,
    };
    proof {
        lemma_find_from_props(body@, marker@, 0);
        assert(s <= body.len());
    }
    if marker.len() > body.len() - s {
        return None;
    }
    let cs = s + marker.len();
    let hash_mark = str_chars("#");
    let e: usize = match find_sub(body, &hash_mark, cs) {
        Some(j) => j,
        None => body.len(),
    };
    proof {
        lemma_find_from_props(body@, hash_mark@, cs as int);
        assert(cs <= e <= body.len());
    }
    Some(trim_exec(&subvec(body, cs, e)))
}

/// The file name a downloaded issue is stored under:
/// `"<name> <issue digits> (<year>).cbr"`.
pub open spec fn issue_filename_spec(name: Seq<char>, number: int, year: int) -> Seq<char> {
    name + " "@ + issue_digits(number) + " ("@ + dec_digits(year) + ").cbr"@
}

/// Build the file name a downloaded issue is stored under.
pub fn issue_filename(name: &Vec<char>, number: u32, year: u32) -> (r: Vec<char>)
    ensures
        r@ == issue_filename_spec(name@, number as int, year as int),
{
    let mut v: Vec<char> = Vec::new();
    append_chars(&mut v, name);
    append_chars(&mut v, &str_chars(" "));
    append_chars(&mut v, &issue_digits_exec(number));
    append_chars(&mut v, &str_chars(" ("));
    append_chars(&mut v, &u32_to_dec(year));
    append_chars(&mut v, &str_chars(").cbr"));
    proof {
        assert(v@ =~= issue_filename_spec(name@, number as int, year as int));
    }
    v
}

/// The candidate URL probed for an issue:
/// `"https://getcomics.info/dc/<name>-<number>-<year>/"`.
pub open spec fn candidate_url_spec(name: Seq<char>, number: int, year: int) -> Seq<char> {
    "https://getcomics.info/dc/"@ + name + "-"@ + dec_digits(number) + "-"@ + int_digits(year)
        + "/"@
}

/// Build the candidate URL probed for an issue. The year may be negative:
/// probing steps below a year-zero base write it with a sign.
pub fn next_candidate_url(name: &Vec<char>, number: u32, year: i64) -> (r: Vec<char>)
    requires
        -4294967295 <= year <= 4294967295,
    ensures
        r@ == candidate_url_spec(name@, number as int, year as int),
{
    let mut v = str_chars("https://getcomics.info/dc/");
    append_chars(&mut v, name);
    append_chars(&mut v, &str_chars("-"));
    append_chars(&mut v, &u32_to_dec(number));
    append_chars(&mut v, &str_chars("-"));
    append_chars(&mut v, &i64_to_dec(year));
    append_chars(&mut v, &str_chars("/"));
    proof {
        assert(v@ =~= candidate_url_spec(name@, number as int, year as int));
    }
    v
}

/// The year offsets probed for one issue number: the base year first, then
/// the year after it, then the year before it, then nothing.
pub open spec fn probe_year_spec(step: int, base: int) -> Option<int> {
    if step == 0 {
        Some(base)
    } else if step == 1 {
        Some(base + 1)
    } else if step == 2 {
        Some(base - 1)
    } else {
        None
    }
}

/// The year to probe at `step` for a base year, or nothing when the probes
/// are exhausted.
pub fn next_probe_year(step: u32, base_year: u32) -> (r: Option<i64>)
    requires
        base_year <= 9999,
    ensures
        match r {
            Some(y) => probe_year_spec(step as int, base_year as int) == Some(y as int) && -1 <= y
                <= 10000,
            None => probe_year_spec(step as int, base_year as int) is None,
        },
{
    if step == 0 {
        Some(base_year as i64)
    } else if step == 1 {
        Some(base_year as i64 + 1)
    } else if step == 2 {
        Some(base_year as i64 - 1)
    } else {
        None
    }
}

/// Whether a page body reports that nothing was found: its lowercased text
/// contains `"not found"`.
pub fn body_reports_not_found(body: &Vec<char>) -> (r: bool)
    ensures
        r == contains_seq(lower_of(body@), "not found"@),
{
    let low = lowercase_chars(body);
    contains_sub(&low, &str_chars("not found"))
}

} // verus!
