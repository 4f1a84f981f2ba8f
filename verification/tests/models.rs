//! The statements that the library makes of the standard library and of
//! `itoa`, written out as plain functions and held against what the library
//! computes, on every short text over a small alphabet.

use primer::basics::labelled;
use primer::guessing::{judge, Answer};
use primer::search::{push_if_contains, search};

/// Every text of at most `max` characters from `alphabet`.
fn texts(alphabet: &[char], max: usize) -> Vec<String> {
    let mut all = vec![String::new()];
    let mut last = vec![String::new()];
    for _ in 0..max {
        let mut next = Vec::new();
        for text in &last {
            for c in alphabet {
                let mut longer = text.clone();
                longer.push(*c);
                next.push(longer);
            }
        }
        all.extend(next.iter().cloned());
        last = next;
    }
    all
}

fn model_lines(text: &[char]) -> Vec<String> {
    if text.is_empty() {
        return Vec::new();
    }
    match text.iter().position(|c| *c == '\n') {
        Some(end) => {
            let mut line = &text[..end];
            if line.last() == Some(&'\r') {
                line = &line[..line.len() - 1];
            }
            let mut lines = vec![line.iter().collect::<String>()];
            lines.extend(model_lines(&text[end + 1..]));
            lines
        }
        None => vec![text.iter().collect()],
    }
}

fn model_is_substring(needle: &[char], hay: &[char]) -> bool {
    (0..=hay.len()).any(|at| at + needle.len() <= hay.len() && hay[at..at + needle.len()] == *needle)
}

fn model_decimal(n: u64) -> String {
    let digits = ['0', '1', '2', '3', '4', '5', '6', '7', '8', '9'];
    if n < 10 {
        digits[n as usize].to_string()
    } else {
        let mut numeral = model_decimal(n / 10);
        numeral.push(digits[(n % 10) as usize]);
        numeral
    }
}

fn model_parsed(text: &[char]) -> Option<u32> {
    let digits = if text.first() == Some(&'+') { &text[1..] } else { text };
    if digits.is_empty() || !digits.iter().all(|c| ('0'..='9').contains(c)) {
        return None;
    }
    let mut number: u128 = 0;
    for c in digits {
        number = 10 * number + (*c as u128 - '0' as u128);
        if number > u32::MAX as u128 {
            return None;
        }
    }
    Some(number as u32)
}

fn model_answer(secret: u32, entry: &[char]) -> Answer {
    match model_parsed(entry) {
        None => Answer::Invalid,
        Some(guess) if guess < secret => Answer::TooSmall,
        Some(guess) if guess > secret => Answer::TooBig,
        Some(_) => Answer::Win,
    }
}

#[test]
fn lines_are_split_as_stated() {
    for text in texts(&['a', '\n', '\r'], 7) {
        let chars: Vec<char> = text.chars().collect();
        assert_eq!(search("", &text), model_lines(&chars), "{:?}", text);
    }
    for text in texts(&['\u{e9}', '\n', '\r', ' ', '\u{2028}', '\u{b}', '\u{c}', '\u{85}'], 4) {
        let chars: Vec<char> = text.chars().collect();
        assert_eq!(search("", &text), model_lines(&chars), "{:?}", text);
    }
}

#[test]
fn containment_is_as_stated() {
    let alphabet = ['a', 'b', '\u{e9}', '\u{3a3}'];
    let hays = texts(&alphabet, 4);
    let needles = texts(&alphabet, 3);
    for hay in &hays {
        let hay_chars: Vec<char> = hay.chars().collect();
        for needle in &needles {
            let needle_chars: Vec<char> = needle.chars().collect();
            let mut results = Vec::new();
            push_if_contains(&mut results, "line", hay, needle);
            assert_eq!(
                results.len() == 1,
                model_is_substring(&needle_chars, &hay_chars),
                "{:?} in {:?}",
                needle,
                hay
            );
        }
    }
}

#[test]
fn search_filters_the_lines_as_stated() {
    let queries = texts(&['a', 'b'], 2);
    for text in texts(&['a', 'b', '\n'], 6) {
        let chars: Vec<char> = text.chars().collect();
        for query in &queries {
            let needle: Vec<char> = query.chars().collect();
            let expected: Vec<String> = model_lines(&chars)
                .into_iter()
                .filter(|line| model_is_substring(&needle, &line.chars().collect::<Vec<char>>()))
                .collect();
            assert_eq!(search(query, &text), expected, "{:?} in {:?}", query, text);
        }
    }
}

#[test]
fn numerals_are_printed_as_stated() {
    for n in 0..30000u64 {
        assert_eq!(labelled("", n), model_decimal(n));
    }
    let mut n: u64 = 1;
    for _ in 0..64 {
        for m in [n - 1, n, n + 1, n.wrapping_mul(3)] {
            assert_eq!(labelled("", m), model_decimal(m));
        }
        n = n.wrapping_mul(2);
    }
    assert_eq!(labelled("", u64::MAX), model_decimal(u64::MAX));
}

#[test]
fn numerals_are_read_as_stated() {
    let alphabet = ['+', '-', '0', '1', '9', ' ', '_', 'a', '\u{661}'];
    for text in texts(&alphabet, 4) {
        let chars: Vec<char> = text.chars().collect();
        for secret in [0, 1, 10, 19, 4294967295] {
            assert_eq!(judge(secret, &text), model_answer(secret, &chars), "{:?}", text);
        }
    }
    for text in [
        "4294967294",
        "4294967295",
        "4294967296",
        "+4294967295",
        "+4294967296",
        "00000000004294967295",
        "18446744073709551616",
        "340282366920938463463374607431768211456",
    ] {
        let chars: Vec<char> = text.chars().collect();
        assert_eq!(judge(4294967295, text), model_answer(4294967295, &chars), "{:?}", text);
    }
}
