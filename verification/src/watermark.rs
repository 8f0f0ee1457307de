//! Watermark-page detection and the stripping plan for one archive.
//!
//! An archive's entries are scanned by lowercased name. The signature mode
//! matches a fixed set of name shapes; an alternate mode recognizes only a
//! closed list of known watermark filenames. Removing a watermark also
//! repairs the `<PageCount>` field of the embedded metadata document.

use vstd::prelude::*;
use crate::text::{
    contains_seq, digits_in, digits_value, find_from_spec, has_prefix, has_suffix, int_digits, is_digit_char,
    lower_of, append_chars, contains_sub, digits_in_exec, eq_chars, find_sub, has_prefix_exec,
    has_suffix_exec, i64_to_dec, lemma_find_from_props, lowercase_chars, parse_digits, pow10,
    str_chars, subvec,
};

verus! {

/// How watermark pages are recognized.
#[derive(Clone, Copy, PartialEq, Eq, Structural, Debug)]
pub enum WatermarkMode {
    /// Match the signature shapes below.
    Signature,
    /// Match only the closed list of known watermark filenames.
    KnownList,
}

/// The two supported archive container families.
#[derive(Clone, Copy, PartialEq, Eq, Structural, Debug)]
pub enum ArchiveFormat {
    /// The RAR-family container (`.cbr`).
    Rar,
    /// The ZIP-family container (`.cbz`).
    Zip,
}

/// Configuration of one stripping run.
#[derive(Clone, Copy, PartialEq, Eq, Structural, Debug)]
pub struct StripConfig {
    /// How watermark pages are recognized.
    pub mode: WatermarkMode,
    /// Repackage to the RAR-family container whatever the source was;
    /// otherwise the source format is preserved.
    pub always_repack_rar: bool,
    /// Decrement the page count once per removed page instead of exactly
    /// once per archive.
    pub decrement_per_page: bool,
}

/// Failure of the page-count repair.
#[derive(Clone, Copy, PartialEq, Eq, Structural, Debug)]
pub enum MetadataError {
    /// The metadata document has no `<PageCount>` field.
    MissingField,
    /// The field's content is not a plain digit run of at most nine digits.
    MalformedCount,
}

/// A lowercased entry name that matches the watermark signature set: it
/// starts with `z`, or is bracketed by dashes and ends `-.jpg`, or starts
/// with `xtag01`, `xxx_` or `x-tag` — and does not contain ` 000-` — and
/// ends in `.jpg`.
pub open spec fn watermark_signature(low: Seq<char>) -> bool {
    &&& (has_prefix(low, "z"@) || (has_prefix(low, "-"@) && has_suffix(low, "-.jpg"@))
        || has_prefix(low, "xtag01"@) || has_prefix(low, "xxx_"@) || has_prefix(low, "x-tag"@))
    &&& !contains_seq(low, " 000-"@)
    &&& has_suffix(low, ".jpg"@)
}

/// The closed list of known watermark filenames, lowercased.
pub open spec fn known_watermark_name(low: Seq<char>) -> bool {
    low == "zwater.jpg"@ || low == "xtag01.jpg"@
}

/// Whether a lowercased entry name counts as a watermark page under `mode`.
pub open spec fn is_watermark_spec(low: Seq<char>, mode: WatermarkMode) -> bool {
    match mode {
        WatermarkMode::Signature => watermark_signature(low),
        WatermarkMode::KnownList => known_watermark_name(low),
    }
}

/// Whether the entry named `name` is a watermark page: its lowercased name
/// is matched under `mode`.
pub fn is_watermark_page(name: &Vec<char>, mode: WatermarkMode) -> (r: bool)
    ensures
        r == is_watermark_spec(lower_of(name@), mode),
{
    let low = lowercase_chars(name);
    match mode {
        WatermarkMode::Signature => {
            let shape = has_prefix_exec(&low, &str_chars("z")) || (has_prefix_exec(
                &low,
                &str_chars("-"),
            ) && has_suffix_exec(&low, &str_chars("-.jpg"))) || has_prefix_exec(
                &low,
                &str_chars("xtag01"),
            ) || has_prefix_exec(&low, &str_chars("xxx_")) || has_prefix_exec(
                &low,
                &str_chars("x-tag"),
            );
            shape && !contains_sub(&low, &str_chars(" 000-")) && has_suffix_exec(
                &low,
                &str_chars(".jpg"),
            )
        },
        WatermarkMode::KnownList => {
            eq_chars(&low, &str_chars("zwater.jpg")) || eq_chars(&low, &str_chars("xtag01.jpg"))
        },
    }
}

/// Container format read off a file name's extension.
pub open spec fn format_spec(name: Seq<char>) -> Option<ArchiveFormat> {
    if has_suffix(name, ".cbr"@) {
        Some(ArchiveFormat::Rar)
    } else if has_suffix(name, ".cbz"@) {
        Some(ArchiveFormat::Zip)
    } else {
        None
    }
}

/// Detect the archive container format from the file name.
pub fn format_from_name(name: &Vec<char>) -> (r: Option<ArchiveFormat>)
    ensures
        r == format_spec(name@),
{
    if has_suffix_exec(name, &str_chars(".cbr")) {
        Some(ArchiveFormat::Rar)
    } else if has_suffix_exec(name, &str_chars(".cbz")) {
        Some(ArchiveFormat::Zip)
    } else {
        None
    }
}

/// The opening tag of the page-count field.
pub open spec fn page_count_open() -> Seq<char> {
    "<PageCount>"@
}

/// The closing tag of the page-count field.
pub open spec fn page_count_close() -> Seq<char> {
    "</PageCount>"@
}

/// A well-formed page count: one to nine decimal digits.
pub open spec fn valid_count(d: Seq<char>) -> bool {
    1 <= d.len() <= 9 && digits_in(d, 0, d.len() as int)
}

/// The repaired metadata document: the content of the first
/// `<PageCount>...</PageCount>` field, read as a decimal number, is lowered
/// by `delta`; everything else is kept. A document without the field, or
/// with content that is not a plain digit run, is rejected.
pub open spec fn patch_spec(doc: Seq<char>, delta: int) -> Result<Seq<char>, MetadataError> {
    match find_from_spec(doc, page_count_open(), 0) {
        None => Err(MetadataError::MissingField),
        Some(i) => {
            let cs = i + page_count_open().len();
            match find_from_spec(doc, page_count_close(), cs as int) {
                None => Err(MetadataError::MalformedCount),
                Some(j) => {
                    let digits = doc.subrange(cs as int, j);
                    if valid_count(digits) {
                        Ok(
                            doc.subrange(0, cs as int) + int_digits(digits_value(digits) - delta)
                                + doc.subrange(j, doc.len() as int),
                        )
                    } else {
                        Err(MetadataError::MalformedCount)
                    }
                },
            }
        },
    }
}

/// Repair the page count of a metadata document: lower the number in the
/// first `<PageCount>` field by `delta`, by text substitution.
pub fn patch_page_count(doc: &Vec<char>, delta: u32) -> (r: Result<Vec<char>, MetadataError>)
    ensures
        match r {
            Ok(out) => patch_spec(doc@, delta as int) == Ok::<Seq<char>, MetadataError>(out@),
            Err(e) => patch_spec(doc@, delta as int) == Err::<Seq<char>, MetadataError>(e),
        },
{
    let open = str_chars("<PageCount>");
    let close = str_chars("</PageCount>");
    match find_sub(doc, &open, 0) {
        None => Err(MetadataError::MissingField),
        Some(i) => {
            proof {
                lemma_find_from_props(doc@, open@, 0);
                assert(i + open.len() <= doc.len());
            }
            let cs = i + open.len();
            match find_sub(doc, &close, cs) {
                None => Err(MetadataError::MalformedCount),
                Some(j) => {
                    proof {
                        lemma_find_from_props(doc@, close@, cs as int);
                    }
                    if j - cs < 1 || j - cs > 9 || !digits_in_exec(doc, cs, j) {
                        proof {
                            let d = doc@.subrange(cs as int, j as int);
                            if 1 <= d.len() <= 9 {
                                let k = choose|k: int|
                                    cs <= k < j && !is_digit_char(doc@[k]);
                                assert(d[k - cs] == doc@[k]);
                                assert(!is_digit_char(d[k - cs]));
                            }
                            assert(!valid_count(d));
                        }
                        return Err(MetadataError::MalformedCount);
                    }
                    proof {
                        let d = doc@.subrange(cs as int, j as int);
                        assert forall|k: int| 0 <= k < d.len() implies is_digit_char(
                            d[k],
                        ) by {
                            assert(d[k] == doc@[cs + k]);
                        }
                        assert(valid_count(d));
                    }
                    let n = parse_digits(doc, cs, j);
                    proof {
                        crate::text::lemma_pow10_values();
                        assert(pow10(j - cs) <= pow10(9)) by {
                            crate::text::lemma_pow10_mono(j - cs, 9);
                        }
                    }
                    let patched: i64 = (n as i64) - (delta as i64);
                    let digits_new = i64_to_dec(patched);
                    let mut out = subvec(doc, 0, cs);
                    append_chars(&mut out, &digits_new);
                    let tail = subvec(doc, j, doc.len());
                    append_chars(&mut out, &tail);
                    proof {
                        assert(out@ =~= doc@.subrange(0, cs as int) + int_digits(
                            n - delta,
                        ) + doc@.subrange(j as int, doc@.len() as int));
                    }
                    Ok(out)
                },
            }
        },
    }
}

/// How many of the entries are watermark pages under `mode`.
pub open spec fn watermark_count(entries: Seq<Vec<char>>, mode: WatermarkMode) -> int
    decreases entries.len(),
{
    if entries.len() == 0 {
        0
    } else {
        watermark_count(entries.drop_last(), mode) + if is_watermark_spec(
            lower_of(entries.last()@),
            mode,
        ) {
            1int
        } else {
            0int
        }
    }
}

/// The page-count decrement a configuration asks for: one per removed page,
/// or exactly one per archive.
pub open spec fn delta_spec(config: StripConfig, removed: int) -> int {
    if config.decrement_per_page {
        removed
    } else {
        1
    }
}

/// The format an archive is repacked to when a watermark was removed.
pub open spec fn repack_format_spec(config: StripConfig, source: Option<ArchiveFormat>) -> ArchiveFormat {
    if config.always_repack_rar {
        ArchiveFormat::Rar
    } else {
        match source {
            Some(f) => f,
            None => ArchiveFormat::Rar,
        }
    }
}

/// The decisions for stripping one archive.
#[derive(Debug)]
pub struct StripPlan {
    /// For each entry, whether it is a watermark page to delete.
    pub remove: Vec<bool>,
    /// How many entries are removed.
    pub removed_count: usize,
    /// Whether any watermark page was found.
    pub had_watermark: bool,
    /// The repaired metadata document, when one was given and a watermark
    /// was found.
    pub patched_metadata: Option<Vec<char>>,
    /// The container format to repack to, when repacking happens at all.
    pub repack_format: Option<ArchiveFormat>,
}

/// Decide everything about stripping one archive: which entries to delete,
/// whether the metadata document's page count is repaired and to what, and
/// which format the archive is repacked to. A found watermark together with
/// a metadata document whose page count cannot be repaired is a fatal error
/// for this archive.
pub fn plan_strip(
    archive_name: &Vec<char>,
    entries: &Vec<Vec<char>>,
    metadata: Option<&Vec<char>>,
    config: StripConfig,
) -> (r: Result<StripPlan, MetadataError>)
    requires
        entries@.len() <= 0xFFFF_FFFF,
    ensures
        ({
            let cnt = watermark_count(entries@, config.mode);
            let had = cnt > 0;
            let delta = delta_spec(config, cnt);
            match r {
                Ok(p) => {
                    &&& p.remove@.len() == entries@.len()
                    &&& forall|i: int|
                        0 <= i < entries@.len() ==> p.remove@[i] == is_watermark_spec(
                            lower_of(entries@[i]@),
                            config.mode,
                        )
                    &&& p.removed_count == cnt
                    &&& p.had_watermark == had
                    &&& match metadata {
                        Some(d) => if had {
                            patch_spec(d@, delta) matches Ok(out) && p.patched_metadata matches Some(v)
                                && v@ == out
                        } else {
                            p.patched_metadata is None
                        },
                        None => p.patched_metadata is None,
                    }
                    &&& p.repack_format == if had {
                        Some(repack_format_spec(config, format_spec(archive_name@)))
                    } else {
                        None::<ArchiveFormat>
                    }
                },
                Err(e) => {
                    &&& had
                    &&& metadata matches Some(d) && patch_spec(d@, delta) == Err::<
                        Seq<char>,
                        MetadataError,
                    >(e)
                },
            }
        }),
{
    let mut remove: Vec<bool> = Vec::new();
    let mut count: usize = 0;
    let mut idx: usize = 0;
    while idx < entries.len()
        invariant
            idx <= entries.len(),
            remove@.len() == idx,
            forall|i: int|
                0 <= i < idx ==> remove@[i] == is_watermark_spec(
                    lower_of(entries@[i]@),
                    config.mode,
                ),
            count == watermark_count(entries@.subrange(0, idx as int), config.mode),
            count <= idx,
        decreases entries.len() - idx,
    {
        let w = is_watermark_page(&entries[idx], config.mode);
        remove.push(w);
        if w {
            count = count + 1;
        }
        proof {
            assert(entries@.subrange(0, idx + 1).drop_last() =~= entries@.subrange(
                0,
                idx as int,
            ));
            assert(entries@.subrange(0, idx + 1).last() == entries@[idx as int]);
        }
        idx = idx + 1;
    }
    proof {
        assert(entries@.subrange(0, entries@.len() as int) =~= entries@);
    }
    let had = count > 0;
    let patched: Option<Vec<char>> = if had {
        match metadata {
            Some(doc) => {
                let delta: u32 = if config.decrement_per_page {
                    count as u32
                } else {
                    1u32
                };
                match patch_page_count(doc, delta) {
                    Ok(v) => Some(v),
                    Err(e) => {
                        return Err(e);
                    },
                }
            },
            None => None,
        }
    } else {
        None
    };
    let repack: Option<ArchiveFormat> = if had {
        if config.always_repack_rar {
            Some(ArchiveFormat::Rar)
        } else {
            match format_from_name(archive_name) {
                Some(f) => Some(f),
                None => Some(ArchiveFormat::Rar),
            }
        }
    } else {
        None
    };
    Ok(
        StripPlan {
            remove,
            removed_count: count,
            had_watermark: had,
            patched_metadata: patched,
            repack_format: repack,
        },
    )
}

} // verus!
