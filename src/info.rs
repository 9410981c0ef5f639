//! The password record: the reduced length, the base and the class flags.

use vstd::prelude::*;
use crate::classes::{
    contains_class, has_class, lemma_class_sizes, DIGIT_CHARS, LOWER_CHARS, OTHER_SPECIAL_CHARS,
    REPLACE_CHARS, SEPARATOR_CHARS, UPPER_CHARS,
};
use crate::palindrome::{halve_palindrome, remove_palindrome};
use crate::runs::{collapse_runs, remove_repeating_characters};
use crate::sequences::{chars_of, remove_common_sequences, strip_known};

verus! {

/// `s` after the three reductions: known sequences stripped, a palindrome
/// halved, runs collapsed.
pub open spec fn reduce(s: Seq<char>) -> Seq<char> {
    collapse_runs(halve_palindrome(strip_known(s)))
}

/// What a password record states of a reduced text.
pub struct PasswordModel {
    pub length: nat,
    pub base: nat,
    pub has_replace: bool,
    pub has_seperator: bool,
    pub has_other_special: bool,
    pub has_lower: bool,
    pub has_upper: bool,
    pub has_digit: bool,
}

impl PasswordModel {
    /// The sum of the sizes of the classes that are flagged.
    pub open spec fn base_of_flags(self) -> nat {
        (if self.has_replace { REPLACE_CHARS@.len() } else { 0 })
            + (if self.has_seperator { SEPARATOR_CHARS@.len() } else { 0 })
            + (if self.has_other_special { OTHER_SPECIAL_CHARS@.len() } else { 0 })
            + (if self.has_lower { LOWER_CHARS@.len() } else { 0 })
            + (if self.has_upper { UPPER_CHARS@.len() } else { 0 })
            + (if self.has_digit { DIGIT_CHARS@.len() } else { 0 })
    }

    /// The base is the sum of the sizes of the flagged classes.
    pub open spec fn well_formed(self) -> bool {
        self.base == self.base_of_flags()
    }
}

/// The classes present in the reduced text `s`, its length and its base.
pub open spec fn classify(s: Seq<char>) -> PasswordModel {
    let m = PasswordModel {
        length: s.len(),
        base: 0,
        has_replace: has_class(s, REPLACE_CHARS@),
        has_seperator: has_class(s, SEPARATOR_CHARS@),
        has_other_special: has_class(s, OTHER_SPECIAL_CHARS@),
        has_lower: has_class(s, LOWER_CHARS@),
        has_upper: has_class(s, UPPER_CHARS@),
        has_digit: has_class(s, DIGIT_CHARS@),
    };
    PasswordModel { base: m.base_of_flags(), ..m }
}

/// The info about a password from which its entropy is computed.
#[derive(Debug)]
pub struct PasswordInfo {
    length: usize,
    base: u16,
    has_replace: bool,
    has_seperator: bool,
    has_other_special: bool,
    has_lower: bool,
    has_upper: bool,
    has_digit: bool,
}

impl View for PasswordInfo {
    type V = PasswordModel;

    closed spec fn view(&self) -> PasswordModel {
        PasswordModel {
            length: self.length as nat,
            base: self.base as nat,
            has_replace: self.has_replace,
            has_seperator: self.has_seperator,
            has_other_special: self.has_other_special,
            has_lower: self.has_lower,
            has_upper: self.has_upper,
            has_digit: self.has_digit,
        }
    }
}

/// Relies on `zeroize::Zeroize` for `Vec<char>`: it overwrites the characters
/// and the spare capacity with zeros, then clears the vector.
#[verifier::external_body]
fn erase(text: &mut Vec<char>)
    ensures
        final(text)@.len() == 0,
{
    zeroize::Zeroize::zeroize(text)
}

impl PasswordInfo {
    /// The record of `password`. A working copy of its characters is reduced
    /// (known sequences stripped, then a palindrome halved, then runs
    /// collapsed), classified, and overwritten with zeros once done.
    pub fn for_password(password: &str) -> (r: Self)
        ensures
            r@ == classify(reduce(password@)),
            r@.well_formed(),
    {
        let mut text = chars_of(password);
        remove_common_sequences(&mut text);
        remove_palindrome(&mut text);
        remove_repeating_characters(&mut text);

        let has_replace = contains_class(&text, REPLACE_CHARS);
        let has_seperator = contains_class(&text, SEPARATOR_CHARS);
        let has_other_special = contains_class(&text, OTHER_SPECIAL_CHARS);
        let has_lower = contains_class(&text, LOWER_CHARS);
        let has_upper = contains_class(&text, UPPER_CHARS);
        let has_digit = contains_class(&text, DIGIT_CHARS);

        let length = text.len();
        erase(&mut text);

        proof {
            lemma_class_sizes();
        }
        let mut base: u16 = 0;
        if has_replace {
            base = base + REPLACE_CHARS.unicode_len() as u16;
        }
        if has_seperator {
            base = base + SEPARATOR_CHARS.unicode_len() as u16;
        }
        if has_other_special {
            base = base + OTHER_SPECIAL_CHARS.unicode_len() as u16;
        }
        if has_lower {
            base = base + LOWER_CHARS.unicode_len() as u16;
        }
        if has_upper {
            base = base + UPPER_CHARS.unicode_len() as u16;
        }
        if has_digit {
            base = base + DIGIT_CHARS.unicode_len() as u16;
        }

        PasswordInfo {
            length,
            base,
            has_replace,
            has_seperator,
            has_other_special,
            has_lower,
            has_upper,
            has_digit,
        }
    }

    /// The length of the password once reduced.
    pub fn length(&self) -> (r: usize)
        ensures
            r == self@.length,
    {
        self.length
    }

    /// The base: the sum of the sizes of the classes present.
    pub fn base(&self) -> (r: u16)
        ensures
            r == self@.base,
    {
        self.base
    }

    /// Whether the reduced password holds a replace character.
    pub fn has_replace_character(&self) -> (r: bool)
        ensures
            r == self@.has_replace,
    {
        self.has_replace
    }

    /// Whether the reduced password holds a separator character.
    pub fn has_seperator_character(&self) -> (r: bool)
        ensures
            r == self@.has_seperator,
    {
        self.has_seperator
    }

    /// Whether the reduced password holds a special character that is
    /// neither a replace nor a separator character.
    pub fn has_other_special_character(&self) -> (r: bool)
        ensures
            r == self@.has_other_special,
    {
        self.has_other_special
    }

    /// Whether the reduced password holds a lowercase letter.
    pub fn has_lower_character(&self) -> (r: bool)
        ensures
            r == self@.has_lower,
    {
        self.has_lower
    }

    /// Whether the reduced password holds an uppercase letter.
    pub fn has_upper_character(&self) -> (r: bool)
        ensures
            r == self@.has_upper,
    {
        self.has_upper
    }

    /// Whether the reduced password holds a digit.
    pub fn has_digit(&self) -> (r: bool)
        ensures
            r == self@.has_digit,
    {
        self.has_digit
    }
}

} // verus!
