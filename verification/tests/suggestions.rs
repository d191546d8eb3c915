//! The suggestion engine: exact edit distances, the length prefilter, and
//! the first-minimal tie break.

use snakedown::suggest::{edit_distance, suggest};

fn chars(s: &str) -> Vec<char> {
    s.chars().collect()
}

#[test]
fn edit_distance_exact_values() {
    assert_eq!(edit_distance(&chars("kitten"), &chars("sitting")), 3);
    assert_eq!(edit_distance(&chars("nimpy.fft"), &chars("numpy.fft")), 1);
    assert_eq!(edit_distance(&chars(""), &chars("abc")), 3);
    assert_eq!(edit_distance(&chars("abc"), &chars("")), 3);
    assert_eq!(edit_distance(&chars("same"), &chars("same")), 0);
}

#[test]
fn suggestion_close_match() {
    let candidates = vec!["numpy.fft".to_string()];
    let r = suggest("nimpy.fft", &candidates, 5, 5);
    assert_eq!(r, Some(("numpy.fft".to_string(), 1)));
}

#[test]
fn suggestion_nothing_close() {
    let candidates = vec!["numpy.fft".to_string()];
    let r = suggest("asdfasdfasdfasdfasdf", &candidates, 5, 5);
    assert_eq!(r, None);
}

#[test]
fn suggestion_empty_candidates() {
    let candidates: Vec<String> = vec![];
    assert_eq!(suggest("anything", &candidates, 5, 5), None);
}

#[test]
fn suggestion_length_prefilter_discards() {
    // The candidate is one edit away but its length differs by one, and a
    // delta bound of one demands a strictly smaller difference.
    let candidates = vec!["abcd".to_string()];
    assert_eq!(suggest("abc", &candidates, 1, 5), None);
    assert_eq!(suggest("abc", &candidates, 2, 5), Some(("abcd".to_string(), 1)));
}

#[test]
fn suggestion_distance_cutoff_is_strict() {
    let candidates = vec!["abcde".to_string()];
    // distance is exactly 2; a cut-off of 2 demands strictly less.
    assert_eq!(suggest("abcxy", &candidates, 5, 2), None);
    assert_eq!(suggest("abcxy", &candidates, 5, 3), Some(("abcde".to_string(), 2)));
}

#[test]
fn suggestion_first_of_equal_distance_wins() {
    let candidates = vec!["abcx".to_string(), "abcy".to_string()];
    assert_eq!(suggest("abcz", &candidates, 5, 5), Some(("abcx".to_string(), 1)));
}

#[test]
fn suggestion_smallest_distance_wins() {
    let candidates = vec!["abxy".to_string(), "abcx".to_string()];
    assert_eq!(suggest("abcd", &candidates, 5, 5), Some(("abcx".to_string(), 1)));
}
