//! The six character classes and the classifier over a reduced text.

use vstd::prelude::*;
use crate::sequences::chars_of;

verus! {

/// The replace characters.
pub const REPLACE_CHARS: &'static str = "!@$&*";

/// The separator characters.
pub const SEPARATOR_CHARS: &'static str = "_-., ";

/// The ASCII punctuation that is neither a replace nor a separator character.
pub const OTHER_SPECIAL_CHARS: &'static str = "\"#%'()+/:;<=>?[\\]^`{|}~";

/// The lowercase letters.
pub const LOWER_CHARS: &'static str = "abcdefghijklmnopqrstuvwxyz";

/// The uppercase letters.
pub const UPPER_CHARS: &'static str = "ABCDEFGHIJKLMNOPQRSTUVWXYZ";

/// The digits.
pub const DIGIT_CHARS: &'static str = "0123456789";

/// Some character of `s` belongs to the class `table`.
pub open spec fn has_class(s: Seq<char>, table: Seq<char>) -> bool {
    exists|i: int| 0 <= i < s.len() && table.contains(#[trigger] s[i])
}

/// The number of characters in each class.
pub proof fn lemma_class_sizes()
    ensures
        REPLACE_CHARS@.len() == 5,
        SEPARATOR_CHARS@.len() == 5,
        OTHER_SPECIAL_CHARS@.len() == 23,
        LOWER_CHARS@.len() == 26,
        UPPER_CHARS@.len() == 26,
        DIGIT_CHARS@.len() == 10,
{
    reveal_strlit("!@$&*");
    reveal_strlit("_-., ");
    reveal_strlit("\"#%'()+/:;<=>?[\\]^`{|}~");
    reveal_strlit("abcdefghijklmnopqrstuvwxyz");
    reveal_strlit("ABCDEFGHIJKLMNOPQRSTUVWXYZ");
    reveal_strlit("0123456789");
}

/// Whether some character of `text` belongs to the class `table`.
pub fn contains_class(text: &Vec<char>, table: &str) -> (r: bool)
    ensures
        r == has_class(text@, table@),
{
    let members = chars_of(table);
    let mut i: usize = 0;
    while i < text.len()
        invariant
            members@ == table@,
            0 <= i <= text.len(),
            forall|k: int| 0 <= k < i ==> !table@.contains(#[trigger] text@[k]),
        decreases text.len() - i,
    {
        let c = text[i];
        let mut j: usize = 0;
        while j < members.len()
            invariant
                members@ == table@,
                0 <= i < text.len(),
                c == text@[i as int],
                0 <= j <= members.len(),
                forall|m: int| 0 <= m < j ==> members@[m] != c,
            decreases members.len() - j,
        {
            if members[j] == c {
                assert(table@[j as int] == text@[i as int]);
                return true;
            }
            j = j + 1;
        }
        assert(!table@.contains(c));
        i = i + 1;
    }
    false
}

} // verus!
