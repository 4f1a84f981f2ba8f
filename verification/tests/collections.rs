use primer::collections::{add_to_each, count_words, word_counts, Tally};

fn key(text: &str) -> String {
    String::from(text)
}

fn pairs(items: &[(&str, u64)]) -> Vec<(String, u64)> {
    items.iter().map(|(word, count)| (key(word), *count)).collect()
}

#[test]
fn new_table_is_empty() {
    let tally = Tally::new();
    assert_eq!(tally.entries(), Vec::new());
    assert_eq!(tally.get(&key("Blue")), None);
}

#[test]
fn insert_replaces_and_returns_the_number_held_before() {
    let mut scores = Tally::new();
    assert_eq!(scores.insert(key("Blue"), 10), None);
    assert_eq!(scores.insert(key("Yellow"), 50), None);
    assert_eq!(scores.insert(key("Blue"), 25), Some(10));
    assert_eq!(scores.get(&key("Blue")), Some(25));
    assert_eq!(scores.get(&key("Yellow")), Some(50));
    assert_eq!(scores.get(&key("Green")), None);
    assert_eq!(scores.entries(), pairs(&[("Blue", 25), ("Yellow", 50)]));
}

#[test]
fn or_insert_keeps_what_is_there() {
    let mut scores = Tally::new();
    scores.insert(key("Blue"), 10);
    scores.insert(key("Yellow"), 50);
    let mut results = Vec::new();
    for color in ["Blue", "Green", "Yellow"] {
        results.push(scores.or_insert(key(color), 100));
    }
    assert_eq!(results, vec![10, 100, 50]);
    assert_eq!(
        scores.entries(),
        pairs(&[("Blue", 10), ("Yellow", 50), ("Green", 100)])
    );
}

#[test]
fn count_starts_at_one_and_steps_up() {
    let mut tally = Tally::new();
    tally.count(key("a"));
    assert_eq!(tally.get(&key("a")), Some(1));
    tally.count(key("a"));
    tally.count(key("b"));
    tally.count(key("a"));
    assert_eq!(tally.entries(), pairs(&[("a", 3), ("b", 1)]));
    tally.insert(key("b"), 41);
    tally.count(key("b"));
    assert_eq!(tally.get(&key("b")), Some(42));
}

#[test]
fn keys_differ_by_every_character() {
    let mut tally = Tally::new();
    tally.count(key("a"));
    tally.count(key("A"));
    tally.count(key("a "));
    tally.count(key(""));
    assert_eq!(tally.entries(), pairs(&[("a", 1), ("A", 1), ("a ", 1), ("", 1)]));
}

#[test]
fn words_are_counted() {
    let tally = word_counts("hello world wonderful world");
    assert_eq!(
        tally.entries(),
        pairs(&[("hello", 1), ("world", 2), ("wonderful", 1)])
    );
}

#[test]
fn white_space_of_any_kind_and_length_parts_words() {
    let tally = word_counts("  a\tb\n\na \u{3000}c\r\n");
    assert_eq!(tally.entries(), pairs(&[("a", 2), ("b", 1), ("c", 1)]));
    assert_eq!(word_counts("").entries(), Vec::new());
    assert_eq!(word_counts(" \n\t ").entries(), Vec::new());
}

#[test]
fn given_words_are_counted_as_they_stand() {
    let words = vec!["b", "a", "b", "", "b", ""];
    assert_eq!(
        count_words(&words).entries(),
        pairs(&[("b", 3), ("a", 1), ("", 2)])
    );
    assert_eq!(count_words(&Vec::new()).entries(), Vec::new());
}

#[test]
fn each_value_is_raised() {
    let mut v = vec![1, 2, 3];
    add_to_each(&mut v, 10);
    assert_eq!(v, vec![11, 12, 13]);
    add_to_each(&mut v, -12);
    assert_eq!(v, vec![-1, 0, 1]);
    let mut none: Vec<i32> = Vec::new();
    add_to_each(&mut none, i32::MAX);
    assert_eq!(none, Vec::<i32>::new());
    let mut edge = vec![i32::MAX - 1, i32::MIN];
    add_to_each(&mut edge, 1);
    assert_eq!(edge, vec![i32::MAX, i32::MIN + 1]);
}
