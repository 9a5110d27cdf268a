//! The library against the standard library, on many generated inputs.

use shi::readline::{join_continued_lines, prefix_at, ExecValidator};
use shi::text::{comes_before, join_strs, repeat, same_text, sort_names, starts_with};
use shi::tokenizer::{split_spaces, DefaultTokenizer, Tokenizer};

/// A small generator of numbers: the same sequence on every run.
struct Numbers(u64);

impl Numbers {
    fn next(&mut self) -> u64 {
        self.0 = self.0.wrapping_mul(6364136223846793005).wrapping_add(1442695040888963407);
        self.0 >> 33
    }

    fn below(&mut self, n: usize) -> usize {
        (self.next() % n as u64) as usize
    }

    fn text(&mut self, alphabet: &[char], longest: usize) -> String {
        let len = self.below(longest + 1);
        (0..len).map(|_| alphabet[self.below(alphabet.len())]).collect()
    }
}

/// The tokens of a line, found by walking it once from the left.
fn tokens_by_walking(line: &str, quotes: &[char]) -> Vec<String> {
    let chars: Vec<char> = line.chars().collect();
    let mut tokens = Vec::new();
    let mut word = String::new();
    let mut i = 0;
    while i < chars.len() {
        let c = chars[i];
        if quotes.contains(&c) {
            if let Some(offset) = chars[i + 1..].iter().position(|d| *d == c) {
                if !word.is_empty() {
                    tokens.push(std::mem::take(&mut word));
                }
                tokens.push(chars[i + 1..i + 1 + offset].iter().collect());
                i += offset + 2;
                continue;
            }
        }
        if c == ' ' {
            if !word.is_empty() {
                tokens.push(std::mem::take(&mut word));
            }
        } else {
            word.push(c);
        }
        i += 1;
    }
    if !word.is_empty() {
        tokens.push(word);
    }
    tokens
}

#[test]
fn tokenize_agrees_with_a_walk_from_the_left() {
    let quotes = ['\'', '"'];
    let tokenizer = DefaultTokenizer::new(quotes.to_vec());
    let mut numbers = Numbers(1);
    let alphabet = ['a', 'b', ' ', ' ', '\'', '"', 'é', '\t'];
    for _ in 0..4000 {
        let line = numbers.text(&alphabet, 14);
        let tokenization = tokenizer.tokenize(&line);
        assert_eq!(tokenization.tokens, tokens_by_walking(&line, &quotes), "line {:?}", line);
        assert_eq!(tokenization.trailing_space, line.ends_with(' '), "line {:?}", line);
    }
}

#[test]
fn tokenize_gives_unquoted_words_back() {
    let tokenizer = DefaultTokenizer::new(vec!['\'', '"', '|']);
    let mut numbers = Numbers(2);
    let alphabet = ['a', 'b', 'z', 'é', '-', '\t', '\n'];
    for _ in 0..2000 {
        let count = numbers.below(6);
        let words: Vec<String> = (0..count)
            .map(|_| {
                let mut word = numbers.text(&alphabet, 5);
                word.push('x');
                word
            })
            .collect();
        let line = words.join(" ");
        assert_eq!(tokenizer.tokenize(&line).tokens, words, "line {:?}", line);
    }
}

#[test]
fn split_spaces_agrees_with_split() {
    let mut numbers = Numbers(3);
    let alphabet = ['a', ' ', ' ', 'é', '\''];
    for _ in 0..3000 {
        let line = numbers.text(&alphabet, 12);
        let expected: Vec<&str> = line.split(' ').collect();
        assert_eq!(split_spaces(&line), expected, "line {:?}", line);
    }
}

#[test]
fn join_continued_lines_agrees_with_replace() {
    let mut numbers = Numbers(4);
    let alphabet = ['\\', '\n', 'a', 'é'];
    for _ in 0..3000 {
        let input = numbers.text(&alphabet, 12);
        assert_eq!(join_continued_lines(&input), input.replace("\\\n", ""), "input {:?}", input);
    }
}

#[test]
fn order_agrees_with_the_order_of_strings() {
    let mut numbers = Numbers(5);
    let alphabet = ['a', 'b', 'B', 'é', '-', 'z', '😀'];
    for _ in 0..3000 {
        let a = numbers.text(&alphabet, 5);
        let b = numbers.text(&alphabet, 5);
        assert_eq!(comes_before(&a, &b), a < b, "{:?} and {:?}", a, b);
        assert_eq!(same_text(&a, &b), a == b, "{:?} and {:?}", a, b);
        assert_eq!(starts_with(&a, &b), a.starts_with(b.as_str()), "{:?} and {:?}", a, b);
    }
}

#[test]
fn sort_names_agrees_with_sort() {
    let mut numbers = Numbers(6);
    let alphabet = ['a', 'b', 'B', 'é', '-'];
    for _ in 0..1500 {
        let count = numbers.below(8);
        let names: Vec<String> = (0..count).map(|_| numbers.text(&alphabet, 4)).collect();
        let mut expected = names.clone();
        expected.sort();
        assert_eq!(sort_names(&names), expected, "names {:?}", names);
    }
}

#[test]
fn joining_agrees_with_join() {
    let mut numbers = Numbers(7);
    let alphabet = ['a', ' ', 'é'];
    for _ in 0..1500 {
        let count = numbers.below(5);
        let parts: Vec<String> = (0..count).map(|_| numbers.text(&alphabet, 4)).collect();
        let slices: Vec<&str> = parts.iter().map(|p| p.as_str()).collect();
        let sep = numbers.text(&alphabet, 2);
        assert_eq!(join_strs(&slices, &sep), slices.join(&sep));
        let times = numbers.below(5);
        assert_eq!(repeat(&sep, times), sep.repeat(times));
    }
}

#[test]
fn prefix_at_agrees_with_get() {
    let mut numbers = Numbers(8);
    let alphabet = ['a', 'é', '😀', ' '];
    for _ in 0..2000 {
        let line = numbers.text(&alphabet, 6);
        let pos = numbers.below(line.len() + 3);
        assert_eq!(prefix_at(&line, pos), line.get(..pos), "{:?} at {}", line, pos);
    }
}

/// Whether a quotation is open at the end, by a walk that keeps the state
/// in one value.
fn open_quote_by_walking(input: &str) -> bool {
    // 0: outside, 1: inside single quotes, 2: inside double quotes
    let mut state = 0;
    let mut escaped = false;
    for c in input.chars() {
        if c == '\\' {
            escaped = !escaped;
            continue;
        }
        if !escaped {
            state = match (state, c) {
                (0, '\'') => 1,
                (0, '"') => 2,
                (1, '\'') => 0,
                (2, '"') => 0,
                (s, _) => s,
            };
        }
        escaped = false;
    }
    state != 0
}

#[test]
fn quote_state_agrees_with_a_walk() {
    let validator = ExecValidator::new();
    let mut numbers = Numbers(9);
    let alphabet = ['\'', '"', '\\', 'a', ' '];
    for _ in 0..4000 {
        let input = numbers.text(&alphabet, 10);
        assert_eq!(
            validator.is_currently_in_quote(&input),
            open_quote_by_walking(&input),
            "input {:?}",
            input
        );
    }
}
