use pw_entropy::{
    remove_common_sequences, remove_palindrome, remove_repeating_characters, PasswordInfo,
    DIGIT_CHARS, LOWER_CHARS, OTHER_SPECIAL_CHARS, REPLACE_CHARS, SEPARATOR_CHARS, UPPER_CHARS,
};

fn entropy(info: &PasswordInfo) -> f64 {
    (0..info.length()).map(|_| f64::from(info.base()).log2()).sum()
}

#[test]
fn letmein_is_lowercase_only() {
    let info = PasswordInfo::for_password("letmein");
    assert_eq!(info.length(), 7);
    assert_eq!(info.base(), 26);
    assert!(info.has_lower_character());
    assert!(!info.has_upper_character());
    assert!(!info.has_digit());
    assert!(!info.has_replace_character());
    assert!(!info.has_seperator_character());
    assert!(!info.has_other_special_character());
    assert!((entropy(&info) - 7.0 * 26f64.log2()).abs() < 1e-9);
}

#[test]
fn empty_password_has_nothing() {
    let info = PasswordInfo::for_password("");
    assert_eq!(info.length(), 0);
    assert_eq!(info.base(), 0);
    assert_eq!(entropy(&info), 0.0);
}

#[test]
fn mixed_case_doubles_the_base() {
    let info = PasswordInfo::for_password("LetMeIn");
    assert_eq!(info.length(), 7);
    assert_eq!(info.base(), 52);
    assert!(info.has_lower_character());
    assert!(info.has_upper_character());
}

#[test]
fn one_of_each_class() {
    let info = PasswordInfo::for_password("!_\"aA0");
    assert_eq!(info.length(), 6);
    let all = REPLACE_CHARS.len()
        + SEPARATOR_CHARS.len()
        + OTHER_SPECIAL_CHARS.len()
        + LOWER_CHARS.len()
        + UPPER_CHARS.len()
        + DIGIT_CHARS.len();
    assert_eq!(info.base() as usize, all);
    assert_eq!(info.base(), 95);
    assert!(info.has_replace_character());
    assert!(info.has_seperator_character());
    assert!(info.has_other_special_character());
    assert!(info.has_lower_character());
    assert!(info.has_upper_character());
    assert!(info.has_digit());
}

#[test]
fn known_password_is_removed_entirely() {
    let info = PasswordInfo::for_password("password");
    assert_eq!(info.length(), 0);
    assert_eq!(info.base(), 0);
    assert_eq!(entropy(&info), 0.0);
}

#[test]
fn unclassified_characters_count_in_length_only() {
    let info = PasswordInfo::for_password("ß€");
    assert_eq!(info.length(), 2);
    assert_eq!(info.base(), 0);
}

#[test]
fn reductions_apply_in_sequence_palindrome_run_order() {
    let info = PasswordInfo::for_password("1234x4321");
    assert_eq!(info.length(), 5);
    assert_eq!(info.base(), 36);

    let mut reversed: Vec<char> = "1234x4321".chars().collect();
    remove_palindrome(&mut reversed);
    remove_common_sequences(&mut reversed);
    remove_repeating_characters(&mut reversed);
    assert_eq!(reversed.len(), 1);
}

#[test]
fn palindrome_then_runs() {
    let info = PasswordInfo::for_password("abba");
    assert_eq!(info.length(), 2);
    let info = PasswordInfo::for_password("aabbccddeeff");
    assert_eq!(info.length(), 6);
}

#[test]
fn char_from_a_new_class_raises_the_base() {
    let before = PasswordInfo::for_password("xyz");
    let after = PasswordInfo::for_password("xyz9");
    assert_eq!(before.base(), 26);
    assert_eq!(after.base(), 36);
    let same_class = PasswordInfo::for_password("xyzw");
    assert_eq!(same_class.base(), 26);
}

#[test]
fn completing_a_known_sequence_can_lower_the_base() {
    let before = PasswordInfo::for_password("Million");
    let after = PasswordInfo::for_password("Million2");
    assert_eq!(before.base(), 52);
    assert_eq!(after.base(), 0);
}

#[test]
fn entropy_grows_with_length() {
    let short = PasswordInfo::for_password("xyz");
    let long = PasswordInfo::for_password("xyzuvw");
    assert_eq!(short.base(), long.base());
    assert!(short.length() < long.length());
    assert!(entropy(&short) <= entropy(&long));
}
