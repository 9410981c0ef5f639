use pw_entropy::{
    remove_common_sequences, remove_palindrome, remove_palindrome_folded,
    remove_repeating_characters,
};

fn chars(s: &str) -> Vec<char> {
    s.chars().collect()
}

#[test]
fn test_remove_common_sequences() {
    let mut password: Vec<char> = "password".chars().collect();
    remove_common_sequences(&mut password);
    let expected: Vec<char> = Vec::new();
    assert_eq!(expected, password);

    let mut password: Vec<char> = "asdf|password|asdf|qwerty".chars().collect();
    remove_common_sequences(&mut password);
    let expected: Vec<char> = "|||".chars().collect();
    assert_eq!(expected, password);

    let mut password: Vec<char> = "1234ThisIsUntouched!asdf".chars().collect();
    remove_common_sequences(&mut password);
    let expected: Vec<char> = "ThisIsUntouched!".chars().collect();
    assert_eq!(expected, password);
}

#[test]
fn test_remove_duplicates() {
    let mut password: Vec<char> = "aabbccddeeff".chars().collect();
    remove_repeating_characters(&mut password);
    let expected: Vec<char> = "abcdef".chars().collect();
    assert_eq!(expected, password);

    let mut password: Vec<char> = "abba".chars().collect();
    remove_repeating_characters(&mut password);
    let expected: Vec<char> = "aba".chars().collect();
    assert_eq!(expected, password);

    let mut password: Vec<char> = "aabbbccccdddddeeeeeefffffff".chars().collect();
    remove_repeating_characters(&mut password);
    let expected: Vec<char> = "abcdef".chars().collect();
    assert_eq!(expected, password);
}

#[test]
fn test_remove_palindrome() {
    let mut password: Vec<char> = "abba".chars().collect();
    remove_palindrome(&mut password);
    let expected: Vec<char> = "ab".chars().collect();
    assert_eq!(expected, password);

    let mut password: Vec<char> = "Abcdedcba".chars().collect();
    remove_palindrome(&mut password);
    let expected: Vec<char> = "Abcde".chars().collect();
    assert_eq!(expected, password);
}

#[test]
fn sequence_that_appears_after_a_removal_is_removed() {
    let mut password = chars("asdasdff");
    remove_common_sequences(&mut password);
    assert_eq!(password, Vec::<char>::new());
}

#[test]
fn sequence_matching_is_case_sensitive() {
    let mut password = chars("QWERTY");
    remove_common_sequences(&mut password);
    assert_eq!(password, chars("QWERTY"));
}

#[test]
fn empty_text_is_left_alone() {
    let mut password: Vec<char> = Vec::new();
    remove_common_sequences(&mut password);
    remove_palindrome(&mut password);
    remove_repeating_characters(&mut password);
    assert!(password.is_empty());
}

#[test]
fn palindrome_halves_to_ceiling() {
    for (text, half) in [("a", 1usize), ("aa", 1), ("aba", 2), ("xyzzyx", 3), ("xyzQzyx", 4)] {
        let mut password = chars(text);
        remove_palindrome(&mut password);
        assert_eq!(password.len(), half, "{}", text);
        assert_eq!(password, chars(&text[..half]));
    }
}

#[test]
fn palindrome_ignores_case_beyond_ascii() {
    let mut password = chars("ÉtÀtÉ");
    remove_palindrome(&mut password);
    assert_eq!(password, chars("ÉtÀ"));

    let mut password = chars("Éé");
    remove_palindrome(&mut password);
    assert_eq!(password, chars("É"));

    let mut password = chars("ÉtAtÉ");
    remove_palindrome(&mut password);
    assert_eq!(password, chars("ÉtA"));
}

#[test]
fn non_palindrome_is_unchanged() {
    let mut password = chars("abca");
    remove_palindrome(&mut password);
    assert_eq!(password, chars("abca"));
}

#[test]
fn only_the_whole_text_is_checked_for_a_palindrome() {
    let mut password = chars("xabbay");
    remove_palindrome(&mut password);
    assert_eq!(password, chars("xabbay"));
}

#[test]
fn palindrome_over_given_folding() {
    let mut password = chars("AbcBa");
    let folded: Vec<Vec<char>> = "abcba".chars().map(|c| vec![c]).collect();
    remove_palindrome_folded(&mut password, &folded);
    assert_eq!(password, chars("Abc"));

    let mut password = chars("abba");
    let folded = vec![vec!['a'], vec!['b'], vec!['b', 'x'], vec!['a']];
    remove_palindrome_folded(&mut password, &folded);
    assert_eq!(password, chars("abba"));
}

#[test]
fn collapsing_twice_equals_collapsing_once() {
    for text in ["", "a", "aabbaa", "abba", "xxxyyyxxx", "aAaA", "ééé"] {
        let mut once = chars(text);
        remove_repeating_characters(&mut once);
        let mut twice = once.clone();
        remove_repeating_characters(&mut twice);
        assert_eq!(once, twice, "{}", text);
    }
}

#[test]
fn collapse_keeps_non_adjacent_repeats() {
    let mut password = chars("abab");
    remove_repeating_characters(&mut password);
    assert_eq!(password, chars("abab"));
}
