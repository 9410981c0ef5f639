//! The palindrome reducer: a text that reads the same backwards, ignoring
//! case, is cut to its first half.

use vstd::prelude::*;

verus! {

/// The characters of the lowercase mapping of `c`.
pub uninterp spec fn lowercase_of(c: char) -> Seq<char>;

/// Relies on `char::to_lowercase`: the lowercase mapping of one character,
/// which depends on that character alone.
#[verifier::external_body]
fn lowercase(c: char) -> (r: Vec<char>)
    ensures
        r@ == lowercase_of(c),
{
    c.to_lowercase().collect()
}

/// The length of the first half of a text of length `n`, the middle
/// character of an odd length included.
pub open spec fn half_len(n: int) -> int {
    n / 2 + n % 2
}

/// The entries of `f` read the same forwards and backwards.
pub open spec fn mirrored(f: Seq<Seq<char>>) -> bool {
    forall|i: int| 0 <= i < half_len(f.len() as int) ==> #[trigger] f[i] == f[f.len() - 1 - i]
}

/// `s` reads the same forwards and backwards when each character is
/// replaced by its lowercase mapping.
pub open spec fn is_case_insensitive_palindrome(s: Seq<char>) -> bool {
    forall|i: int|
        0 <= i < half_len(s.len() as int) ==> #[trigger] lowercase_of(s[i]) == lowercase_of(
            s[s.len() - 1 - i],
        )
}

/// `s` cut to its first half if it is a case-insensitive palindrome.
pub open spec fn halve_palindrome(s: Seq<char>) -> Seq<char> {
    if is_case_insensitive_palindrome(s) {
        s.take(half_len(s.len() as int))
    } else {
        s
    }
}

/// The texts that `f` holds.
pub open spec fn texts_of(f: Seq<Vec<char>>) -> Seq<Seq<char>> {
    f.map_values(|v: Vec<char>| v@)
}

/// Whether `a` and `b` hold the same characters.
fn same_chars(a: &Vec<char>, b: &Vec<char>) -> (r: bool)
    ensures
        r == (a@ == b@),
{
    if a.len() != b.len() {
        return false;
    }
    let mut i: usize = 0;
    while i < a.len()
        invariant
            a.len() == b.len(),
            0 <= i <= a.len(),
            forall|j: int| 0 <= j < i ==> a@[j] == b@[j],
        decreases a.len() - i,
    {
        if a[i] != b[i] {
            return false;
        }
        i = i + 1;
    }
    assert(a@ =~= b@);
    true
}

/// Cuts the password to its first half where `folded`, which holds the
/// lowercase mapping of each of its characters, reads the same backwards.
pub fn remove_palindrome_folded(password: &mut Vec<char>, folded: &Vec<Vec<char>>)
    requires
        folded.len() == old(password).len(),
    ensures
        final(password)@ == if mirrored(texts_of(folded@)) {
            old(password)@.take(half_len(old(password).len() as int))
        } else {
            old(password)@
        },
{
    let n = folded.len();
    let half = n / 2 + n % 2;
    let mut i: usize = 0;
    while i < half
        invariant
            n == folded.len(),
            half == half_len(n as int),
            0 <= i <= half,
            forall|j: int|
                0 <= j < i ==> #[trigger] texts_of(folded@)[j] == texts_of(folded@)[n - 1 - j],
        decreases half - i,
    {
        if !same_chars(&folded[i], &folded[n - 1 - i]) {
            assert(texts_of(folded@)[i as int] != texts_of(folded@)[n - 1 - i]);
            return;
        }
        i = i + 1;
    }
    password.truncate(half);
}

/// Cuts the password to its first half, the middle character of an odd
/// length included, if it reads the same backwards ignoring case. Only the
/// whole text is looked at, never a part of it.
pub fn remove_palindrome(password: &mut Vec<char>)
    ensures
        final(password)@ == halve_palindrome(old(password)@),
        is_case_insensitive_palindrome(old(password)@) ==> final(password)@.len() == half_len(
            old(password)@.len() as int,
        ),
{
    let mut folded: Vec<Vec<char>> = Vec::new();
    let mut i: usize = 0;
    while i < password.len()
        invariant
            0 <= i <= password.len(),
            folded.len() == i,
            forall|j: int| 0 <= j < i ==> #[trigger] folded@[j]@ == lowercase_of(password@[j]),
        decreases password.len() - i,
    {
        folded.push(lowercase(password[i]));
        i = i + 1;
    }
    proof {
        let s = password@;
        let f = texts_of(folded@);
        assert(mirrored(f) == is_case_insensitive_palindrome(s)) by {
            if mirrored(f) {
                assert forall|j: int| 0 <= j < half_len(s.len() as int) implies #[trigger] lowercase_of(s[j])
                    == lowercase_of(s[s.len() - 1 - j]) by {
                    assert(f[j] == f[f.len() - 1 - j]);
                }
            }
            if is_case_insensitive_palindrome(s) {
                assert forall|j: int| 0 <= j < half_len(f.len() as int) implies #[trigger] f[j]
                    == f[f.len() - 1 - j] by {
                    assert(lowercase_of(s[j]) == lowercase_of(s[s.len() - 1 - j]));
                }
            }
        }
    }
    remove_palindrome_folded(password, &folded);
}

} // verus!
