use comics::download::{
    body_reports_not_found, extract_title, find_download_url, issue_filename,
    next_candidate_url, next_probe_year, parse_series_url,
};

fn chars(s: &str) -> Vec<char> {
    s.chars().collect()
}

fn text(v: &[char]) -> String {
    v.iter().collect()
}

#[test]
fn download_url_is_cut_at_quote() {
    let body = "<a href=\"https://weekly2.comicfiles.ru/files/batman.cbr\">get</a>";
    let url = find_download_url(&chars(body));
    assert_eq!(text(&url), "https://weekly2.comicfiles.ru/files/batman.cbr");
}

#[test]
fn secondary_host_is_tried_when_primary_is_absent() {
    let body = "x\"https://getcomics.info/run.php-urls/abc.cbr\"y";
    let url = find_download_url(&chars(body));
    assert_eq!(text(&url), "https://getcomics.info/run.php-urls/abc.cbr");
}

#[test]
fn body_without_markers_starts_at_beginning() {
    let url = find_download_url(&chars("plain text without link"));
    assert_eq!(text(&url), "plain text without link");
}

#[test]
fn seed_url_is_taken_apart() {
    let (name, number, year) =
        parse_series_url(&chars("https://getcomics.info/dc/batman-5-2020/")).unwrap();
    assert_eq!(text(&name), "batman");
    assert_eq!(number, 5);
    assert_eq!(year, 2020);
}

#[test]
fn seed_url_of_other_shape_parses_to_nothing() {
    assert!(parse_series_url(&chars("short")).is_none());
    assert!(parse_series_url(&chars("https://getcomics.info/dc/batman-2020/x/")).is_none());
    assert!(parse_series_url(&chars("nodash20201")).is_none());
}

#[test]
fn title_is_between_marker_and_hash() {
    let body = "<h1 class=\"post-title\">Batman #5</h1>";
    let title = extract_title(&chars(body)).unwrap();
    assert_eq!(text(&title), "Batman");
}

#[test]
fn title_of_short_body_is_none() {
    assert!(extract_title(&chars("tiny")).is_none());
}

#[test]
fn downloaded_issue_filename_is_padded() {
    assert_eq!(text(&issue_filename(&chars("Batman"), 5, 2020)), "Batman 005 (2020).cbr");
    assert_eq!(
        text(&issue_filename(&chars("Action Comics"), 1000, 2018)),
        "Action Comics 1000 (2018).cbr"
    );
}

#[test]
fn candidate_url_is_assembled() {
    assert_eq!(
        text(&next_candidate_url(&chars("batman"), 6, 2020)),
        "https://getcomics.info/dc/batman-6-2020/"
    );
    assert_eq!(
        text(&next_candidate_url(&chars("batman"), 7, -1)),
        "https://getcomics.info/dc/batman-7--1/"
    );
}

#[test]
fn probe_years_go_same_next_previous() {
    assert_eq!(next_probe_year(0, 2020), Some(2020));
    assert_eq!(next_probe_year(1, 2020), Some(2021));
    assert_eq!(next_probe_year(2, 2020), Some(2019));
    assert_eq!(next_probe_year(3, 2020), None);
    assert_eq!(next_probe_year(2, 0), Some(-1));
}

#[test]
fn not_found_is_seen_case_insensitively() {
    assert!(body_reports_not_found(&chars("<title>Page Not Found</title>")));
    assert!(!body_reports_not_found(&chars("<title>Batman #5</title>")));
}
