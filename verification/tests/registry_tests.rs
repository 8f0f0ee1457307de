use comics::registry::{my_hash, SeriesYearRegistry};

fn chars(s: &str) -> Vec<char> {
    s.chars().collect()
}

#[test]
fn first_observation_records_its_year() {
    let mut registry = SeriesYearRegistry::new();
    let key = my_hash(&chars("Batman"));
    assert_eq!(registry.resolve_year(key, 2020), 2020);
}

#[test]
fn first_seen_year_wins_in_order() {
    // explicit ordering: the year of whichever input comes first sticks
    let mut registry = SeriesYearRegistry::new();
    let key = my_hash(&chars("Batman"));
    assert_eq!(registry.resolve_year(key, 2020), 2020);
    assert_eq!(registry.resolve_year(key, 1994), 2020);
    assert_eq!(registry.resolve_year(key, 2021), 2020);

    let mut other_order = SeriesYearRegistry::new();
    assert_eq!(other_order.resolve_year(key, 1994), 1994);
    assert_eq!(other_order.resolve_year(key, 2020), 1994);
}

#[test]
fn different_series_keep_their_own_years() {
    let mut registry = SeriesYearRegistry::new();
    let batman = my_hash(&chars("Batman"));
    let superman = my_hash(&chars("Superman"));
    assert_ne!(batman, superman);
    assert_eq!(registry.resolve_year(batman, 2020), 2020);
    assert_eq!(registry.resolve_year(superman, 1994), 1994);
    assert_eq!(registry.resolve_year(batman, 1939), 2020);
    assert_eq!(registry.resolve_year(superman, 1939), 1994);
}

#[test]
fn hash_is_stable_for_equal_names() {
    assert_eq!(my_hash(&chars("Batman")), my_hash(&chars("Batman")));
}
