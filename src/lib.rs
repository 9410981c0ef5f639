//! Estimates the brute-force search space of a password.
//!
//! A password is first reduced: known weak sequences are stripped, a
//! whole-text palindrome is halved and runs of one repeated character are
//! collapsed. The reduced text is then classified into six character classes;
//! the sizes of the classes present add up to the base, and `base ^ length`
//! is the number of guesses an attacker who knows the classes needs. Its
//! base-two logarithm is the entropy of the password.

mod classes;
mod info;
mod laws;
mod palindrome;
mod runs;
mod sequences;

pub use classes::{
    contains_class, has_class, lemma_class_sizes, DIGIT_CHARS, LOWER_CHARS, OTHER_SPECIAL_CHARS,
    REPLACE_CHARS, SEPARATOR_CHARS, UPPER_CHARS,
};
pub use info::{classify, reduce, PasswordInfo, PasswordModel};
pub use laws::{
    from_absent_class, lemma_base_monotone, lemma_collapse_runs_idempotent,
    lemma_search_space_monotone_in_length,
};
pub use palindrome::{
    half_len, halve_palindrome, is_case_insensitive_palindrome, lowercase_of, mirrored,
    remove_palindrome, remove_palindrome_folded, texts_of,
};
pub use runs::{collapse_runs, no_adjacent_repeats, remove_repeating_characters};
pub use sequences::{
    cut_span, find_from, first_occurrence, known_sequences, occurs_at, remove_common_sequences,
    strip_known, strip_pattern, strip_sequences,
};
