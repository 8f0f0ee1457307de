use comics::registry::SeriesYearRegistry;
use comics::watermark::{plan_strip, ArchiveFormat, StripConfig, WatermarkMode};
use comics::sorter::{
    dest_dir_name, dest_file_name, extension_of, issue_digits_exec, plan_file,
    renamed_after_strip,
};

fn chars(s: &str) -> Vec<char> {
    s.chars().collect()
}

fn text(v: &[char]) -> String {
    v.iter().collect()
}

#[test]
fn issue_digits_pad_to_three_below_thousand() {
    assert_eq!(text(&issue_digits_exec(0)), "000");
    assert_eq!(text(&issue_digits_exec(1)), "001");
    assert_eq!(text(&issue_digits_exec(44)), "044");
    assert_eq!(text(&issue_digits_exec(999)), "999");
}

#[test]
fn issue_digits_are_plain_from_thousand_up() {
    assert_eq!(text(&issue_digits_exec(1000)), "1000");
    assert_eq!(text(&issue_digits_exec(9999)), "9999");
}

#[test]
fn destination_folder_is_year_dash_series() {
    assert_eq!(text(&dest_dir_name(2020, &chars("Batman"))), "2020 - Batman");
    assert_eq!(text(&dest_dir_name(90, &chars("Old"))), "0090 - Old");
}

#[test]
fn destination_file_is_padded_number_and_extension() {
    assert_eq!(text(&dest_file_name(1, &chars("cbz"))), "001.cbz");
    assert_eq!(text(&dest_file_name(1000, &chars("cbr"))), "1000.cbr");
}

#[test]
fn extension_is_after_last_dot() {
    assert_eq!(text(&extension_of(&chars("a.b.cbz")).unwrap()), "cbz");
    assert_eq!(text(&extension_of(&chars("Batman 001 (2020).cbr")).unwrap()), "cbr");
    assert!(extension_of(&chars("noext")).is_none());
    assert!(extension_of(&chars(".hidden")).is_none());
    assert_eq!(text(&extension_of(&chars("dot.")).unwrap()), "");
}

#[test]
fn stripped_cbz_destination_is_renamed_to_cbr() {
    let renamed = renamed_after_strip(&chars("001.cbz"), true, true).unwrap();
    assert_eq!(text(&renamed), "001.cbr");
}

#[test]
fn rename_needs_watermark_policy_and_cbz() {
    assert!(renamed_after_strip(&chars("001.cbz"), false, true).is_none());
    assert!(renamed_after_strip(&chars("001.cbz"), true, false).is_none());
    assert!(renamed_after_strip(&chars("001.cbr"), true, true).is_none());
}

#[test]
fn plan_places_file_under_canonical_folder() {
    let mut registry = SeriesYearRegistry::new();
    let plan = plan_file(&chars("Batman 001 (2020).cbz"), false, &mut registry).unwrap();
    assert_eq!(text(&plan.dir_name), "2020 - Batman");
    assert_eq!(text(&plan.file_name), "001.cbz");
    assert_eq!(plan.resolved_year, 2020);
}

#[test]
fn plan_uses_first_seen_year_for_a_series() {
    let mut registry = SeriesYearRegistry::new();
    let first = plan_file(&chars("Batman 001 (2020).cbz"), false, &mut registry).unwrap();
    assert_eq!(text(&first.dir_name), "2020 - Batman");
    let second = plan_file(&chars("Batman 002 (1994).cbz"), false, &mut registry).unwrap();
    assert_eq!(second.resolved_year, 2020);
    assert_eq!(text(&second.dir_name), "2020 - Batman");
    assert_eq!(text(&second.file_name), "002.cbz");
}

#[test]
fn end_to_end_batman_with_watermark() {
    let mut registry = SeriesYearRegistry::new();
    let plan = plan_file(&chars("Batman 001 (2020).cbz"), false, &mut registry).unwrap();
    assert_eq!(text(&plan.dir_name), "2020 - Batman");
    assert_eq!(text(&plan.file_name), "001.cbz");

    let entries = vec![chars("page1.jpg"), chars("zWater.jpg")];
    let metadata = chars("<ComicInfo><PageCount>2</PageCount></ComicInfo>");
    let config = StripConfig {
        mode: WatermarkMode::Signature,
        always_repack_rar: true,
        decrement_per_page: false,
    };
    let strip = plan_strip(&plan.file_name, &entries, Some(&metadata), config).unwrap();
    assert_eq!(strip.remove, vec![false, true]);
    assert!(strip.had_watermark);
    assert_eq!(
        text(&strip.patched_metadata.unwrap()),
        "<ComicInfo><PageCount>1</PageCount></ComicInfo>"
    );
    assert_eq!(strip.repack_format, Some(ArchiveFormat::Rar));

    let renamed = renamed_after_strip(&plan.file_name, strip.had_watermark, true).unwrap();
    assert_eq!(text(&renamed), "001.cbr");
}

#[test]
fn unclassifiable_file_yields_no_plan() {
    let mut registry = SeriesYearRegistry::new();
    assert!(plan_file(&chars("random_notes.txt"), false, &mut registry).is_none());
}

#[test]
fn classified_name_without_extension_yields_no_plan() {
    let mut registry = SeriesYearRegistry::new();
    assert!(plan_file(&chars("Batman 001 (2020)"), false, &mut registry).is_none());
}
