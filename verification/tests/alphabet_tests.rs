use rand::rngs::StdRng;
use rand::SeedableRng;
use std::collections::HashSet;
use weasel_rs::alphabet::{contains_symbol, unique_symbols};
use weasel_rs::{fitness_always_1, fitness_comparison, Breeder, Percentage};

fn strings(items: &[&str]) -> Vec<String> {
    items.iter().map(|s| s.to_string()).collect()
}

#[test]
fn alphabet_drops_repeats() {
    let breeder = Breeder::new(
        StdRng::seed_from_u64(1),
        "CAT".to_string(),
        "aab",
        1,
        Percentage::new(0.0f64.to_bits()).unwrap(),
        fitness_comparison,
    )
    .unwrap();
    let alphabet = breeder.alphabet();
    assert_eq!(alphabet.len(), 2);
    let set: HashSet<String> = alphabet.iter().cloned().collect();
    let expected: HashSet<String> = strings(&["a", "b"]).into_iter().collect();
    assert_eq!(set, expected);
}

#[test]
fn empty_alphabet_is_refused() {
    let r = Breeder::new(
        StdRng::seed_from_u64(1),
        "CAT".to_string(),
        "",
        1,
        Percentage::new(0.0f64.to_bits()).unwrap(),
        fitness_comparison,
    );
    match r {
        Ok(_) => panic!("an empty alphabet was accepted"),
        Err(e) => assert_eq!(e.msg, "alphabet is empty"),
    }
}

#[test]
fn alphabet_is_normalized_before_it_is_cut() {
    // "e" + combining acute composes to one precomposed character.
    let breeder = Breeder::new(
        StdRng::seed_from_u64(1),
        "CAT".to_string(),
        "e\u{301}\u{e9}",
        1,
        Percentage::new(0.0f64.to_bits()).unwrap(),
        fitness_always_1,
    )
    .unwrap();
    assert_eq!(breeder.alphabet(), strings(&["\u{e9}"]));
}

#[test]
fn alphabet_is_cut_into_grapheme_clusters() {
    // A flag is two code points and one symbol.
    let breeder = Breeder::new(
        StdRng::seed_from_u64(1),
        "CAT".to_string(),
        "\u{1F1EB}\u{1F1F7}a",
        1,
        Percentage::new(0.0f64.to_bits()).unwrap(),
        fitness_always_1,
    )
    .unwrap();
    let set: HashSet<String> = breeder.alphabet().iter().cloned().collect();
    let expected: HashSet<String> = strings(&["\u{1F1EB}\u{1F1F7}", "a"]).into_iter().collect();
    assert_eq!(set, expected);
}

#[test]
fn default_alphabet_has_53_symbols() {
    let breeder = Breeder::new(
        StdRng::seed_from_u64(1),
        "METHINKS IT IS LIKE A WEASEL".to_string(),
        "ABCDEFGHIJKLMNOPQRSTUVWXYZabcdefghijklmnopqrstuvwxyz ",
        100,
        Percentage::new(0.05f64.to_bits()).unwrap(),
        fitness_comparison,
    )
    .unwrap();
    assert_eq!(breeder.alphabet().len(), 53);
    assert_eq!(breeder.target(), "METHINKS IT IS LIKE A WEASEL");
}

#[test]
fn unique_symbols_keeps_first_occurrences() {
    assert_eq!(unique_symbols(strings(&["a", "a", "b"])), strings(&["a", "b"]));
    assert_eq!(unique_symbols(strings(&["b", "a", "b", "c", "a"])), strings(&["b", "a", "c"]));
    assert_eq!(unique_symbols(strings(&[])), strings(&[]));
    assert_eq!(unique_symbols(strings(&["x"])), strings(&["x"]));
}

#[test]
fn contains_symbol_finds_whole_symbols() {
    let list = strings(&["ab", "c"]);
    assert!(contains_symbol(&list, &"ab".to_string()));
    assert!(contains_symbol(&list, &"c".to_string()));
    assert!(!contains_symbol(&list, &"a".to_string()));
    assert!(!contains_symbol(&strings(&[]), &"a".to_string()));
}
