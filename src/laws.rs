//! Laws that relate several runs of the reductions and of the classifier.

use vstd::prelude::*;
use vstd::arithmetic::power::{lemma_pow_increases, pow};
use crate::classes::{
    has_class, lemma_class_sizes, DIGIT_CHARS, LOWER_CHARS, OTHER_SPECIAL_CHARS, REPLACE_CHARS,
    SEPARATOR_CHARS, UPPER_CHARS,
};
use crate::info::classify;
use crate::runs::{collapse_runs, lemma_collapse_runs_fixed, lemma_collapse_runs_no_repeats};

verus! {

/// Collapsing runs a second time changes nothing: the result of one pass is
/// the result of two.
pub proof fn lemma_collapse_runs_idempotent(s: Seq<char>)
    ensures
        collapse_runs(collapse_runs(s)) == collapse_runs(s),
{
    lemma_collapse_runs_no_repeats(s);
    lemma_collapse_runs_fixed(collapse_runs(s));
}

/// A class present in a text is still present once a character is inserted.
proof fn lemma_insert_keeps_class(s: Seq<char>, i: int, c: char, table: Seq<char>)
    requires
        0 <= i <= s.len(),
    ensures
        has_class(s, table) ==> has_class(s.insert(i, c), table),
        table.contains(c) ==> has_class(s.insert(i, c), table),
{
    let t = s.insert(i, c);
    assert(t[i] == c);
    if has_class(s, table) {
        let k = choose|k: int| 0 <= k < s.len() && table.contains(#[trigger] s[k]);
        if k < i {
            assert(t[k] == s[k]);
        } else {
            assert(t[k + 1] == s[k]);
        }
    }
}

/// `c` belongs to a class of which `s` holds no character.
pub open spec fn from_absent_class(s: Seq<char>, c: char) -> bool {
    ||| REPLACE_CHARS@.contains(c) && !has_class(s, REPLACE_CHARS@)
    ||| SEPARATOR_CHARS@.contains(c) && !has_class(s, SEPARATOR_CHARS@)
    ||| OTHER_SPECIAL_CHARS@.contains(c) && !has_class(s, OTHER_SPECIAL_CHARS@)
    ||| LOWER_CHARS@.contains(c) && !has_class(s, LOWER_CHARS@)
    ||| UPPER_CHARS@.contains(c) && !has_class(s, UPPER_CHARS@)
    ||| DIGIT_CHARS@.contains(c) && !has_class(s, DIGIT_CHARS@)
}

/// Inserting a character into a reduced text never lowers its base, and one
/// of a class that the text lacked raises it.
pub proof fn lemma_base_monotone(s: Seq<char>, i: int, c: char)
    requires
        0 <= i <= s.len(),
    ensures
        classify(s).base <= classify(s.insert(i, c)).base,
        from_absent_class(s, c) ==> classify(s).base < classify(s.insert(i, c)).base,
{
    lemma_class_sizes();
    lemma_insert_keeps_class(s, i, c, REPLACE_CHARS@);
    lemma_insert_keeps_class(s, i, c, SEPARATOR_CHARS@);
    lemma_insert_keeps_class(s, i, c, OTHER_SPECIAL_CHARS@);
    lemma_insert_keeps_class(s, i, c, LOWER_CHARS@);
    lemma_insert_keeps_class(s, i, c, UPPER_CHARS@);
    lemma_insert_keeps_class(s, i, c, DIGIT_CHARS@);
}

/// With a base above one, the search space `base ^ length`, and so the
/// entropy `log2(base ^ length)`, never shrinks as the length grows.
pub proof fn lemma_search_space_monotone_in_length(base: nat, shorter: nat, longer: nat)
    requires
        base > 1,
        shorter <= longer,
    ensures
        pow(base as int, shorter) <= pow(base as int, longer),
{
    lemma_pow_increases(base, shorter, longer);
}

} // verus!
