use comics::classify::{classify, ComicIdentity, MatchPattern};

fn chars(s: &str) -> Vec<char> {
    s.chars().collect()
}

fn text(v: &[char]) -> String {
    v.iter().collect()
}

#[test]
fn standard_issue_is_classified() {
    let id: ComicIdentity = classify(&chars("Batman 001 (2020).cbz"), false).unwrap();
    assert_eq!(text(&id.series), "Batman");
    assert_eq!(id.issue_number, 1);
    assert_eq!(id.year, 2020);
    assert!(!id.is_volume);
    assert_eq!(id.pattern, MatchPattern::StandardIssue);
}

#[test]
fn four_digit_issue_uses_second_pattern() {
    let id = classify(&chars("Action Comics 1000 (2018).cbz"), false).unwrap();
    assert_eq!(text(&id.series), "Action Comics");
    assert_eq!(id.issue_number, 1000);
    assert_eq!(id.year, 2018);
    assert_eq!(id.pattern, MatchPattern::BigIssue);
}

#[test]
fn volume_pattern_sets_volume_flag() {
    let id = classify(&chars("Batman v02 (2021).cbr"), false).unwrap();
    assert_eq!(text(&id.series), "Batman");
    assert_eq!(id.issue_number, 2);
    assert_eq!(id.year, 2021);
    assert!(id.is_volume);
    assert_eq!(id.pattern, MatchPattern::Volume);
}

#[test]
fn name_split_is_greedy() {
    // the last viable space wins, so a number inside the series name stays
    // part of the name
    let id = classify(&chars("Conan 2099 005 (2019).cbz"), false).unwrap();
    assert_eq!(text(&id.series), "Conan 2099");
    assert_eq!(id.issue_number, 5);
    assert_eq!(id.year, 2019);
}

#[test]
fn year_is_last_parenthesized_run() {
    let id = classify(&chars("X-Men 004 (of 12) (1999).cbz"), false).unwrap();
    assert_eq!(text(&id.series), "X-Men");
    assert_eq!(id.issue_number, 4);
    assert_eq!(id.year, 1999);
}

#[test]
fn unclassifiable_name_matches_nothing() {
    assert!(classify(&chars("random_notes.txt"), false).is_none());
    assert!(classify(&chars("random_notes.txt"), true).is_none());
}

#[test]
fn no_year_means_no_match_without_fallback() {
    assert!(classify(&chars("Batman 001.cbz"), false).is_none());
}

#[test]
fn fallback_matches_seventeen_char_field() {
    // exactly 17 characters of name field, then three digits
    let name = "The Walking Dead 193 (2019) extra.cbz";
    assert!(classify(&chars(name), false).is_some());
    let id = classify(&chars("ABCDEFGHIJKLMNOPQ123 no year here.cbz"), true).unwrap();
    assert_eq!(text(&id.series), "ABCDEFGHIJKLMNOPQ");
    assert_eq!(id.issue_number, 123);
    assert_eq!(id.year, 0);
    assert_eq!(id.pattern, MatchPattern::Fallback);
}

#[test]
fn fallback_is_opt_in() {
    assert!(classify(&chars("ABCDEFGHIJKLMNOPQ123 no year here.cbz"), false).is_none());
}

#[test]
fn sorted_output_names_do_not_reclassify() {
    // re-sorting an already sorted tree finds nothing to move: the padded
    // destination names carry no year and are too short for the fallback
    assert!(classify(&chars("001.cbr"), true).is_none());
    assert!(classify(&chars("1000.cbr"), true).is_none());
}

#[test]
fn series_name_is_trimmed() {
    let id = classify(&chars("  Saga   044 (2017).cbz"), false).unwrap();
    assert_eq!(text(&id.series), "Saga");
    assert_eq!(id.issue_number, 44);
}
