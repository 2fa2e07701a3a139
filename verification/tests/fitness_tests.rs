use weasel_rs::fitness::count_matches;
use weasel_rs::{fitness_always_1, fitness_comparison};

fn strings(items: &[&str]) -> Vec<String> {
    items.iter().map(|s| s.to_string()).collect()
}

#[test]
fn always_1_ignores_its_arguments() {
    assert_eq!(fitness_always_1("", ""), 1);
    assert_eq!(fitness_always_1("CAT", "DOG"), 1);
    assert_eq!(fitness_always_1("CAT", "CAT"), 1);
    assert_eq!(fitness_always_1("a", "a much longer text"), 1);
}

#[test]
fn comparison_of_a_text_with_itself_is_its_length() {
    assert_eq!(fitness_comparison("CAT", "CAT"), 3);
    assert_eq!(fitness_comparison("METHINKS IT IS LIKE A WEASEL", "METHINKS IT IS LIKE A WEASEL"), 28);
    assert_eq!(fitness_comparison("", ""), 0);
}

#[test]
fn comparison_stops_at_the_shorter_candidate() {
    assert_eq!(fitness_comparison("CAT", "CA"), 2);
}

#[test]
fn comparison_stops_at_the_shorter_target() {
    assert_eq!(fitness_comparison("CA", "CAT"), 2);
    assert_eq!(fitness_comparison("", "CAT"), 0);
    assert_eq!(fitness_comparison("CAT", ""), 0);
}

#[test]
fn comparison_counts_positions_not_letters() {
    assert_eq!(fitness_comparison("CAT", "CAR"), 2);
    assert_eq!(fitness_comparison("CAT", "TCA"), 0);
    assert_eq!(fitness_comparison("CAT", "XAX"), 1);
    assert_eq!(fitness_comparison("ABAB", "BABA"), 0);
}

#[test]
fn comparison_works_on_grapheme_clusters() {
    // "e" followed by a combining acute accent is one symbol.
    assert_eq!(fitness_comparison("e\u{301}x", "e\u{301}x"), 2);
    assert_eq!(fitness_comparison("e\u{301}x", "ex"), 1);
    assert_eq!(fitness_comparison("e\u{301}x", "e\u{300}x"), 1);
}

#[test]
fn comparison_does_not_normalize() {
    // Precomposed and decomposed forms are different symbols here.
    assert_eq!(fitness_comparison("\u{e9}", "e\u{301}"), 0);
}

#[test]
fn count_matches_on_lists() {
    assert_eq!(count_matches(&strings(&["C", "A", "T"]), &strings(&["C", "A", "T"])), 3);
    assert_eq!(count_matches(&strings(&["C", "A", "T"]), &strings(&["C", "A"])), 2);
    assert_eq!(count_matches(&strings(&["C", "A", "T"]), &strings(&["T", "A", "C", "C"])), 1);
    assert_eq!(count_matches(&strings(&[]), &strings(&["T"])), 0);
}
