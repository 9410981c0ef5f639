//! The sequence remover: strips known weak substrings from a text.

use vstd::prelude::*;

verus! {

/// `p` occurs in `s` starting at position `i`.
pub open spec fn occurs_at(s: Seq<char>, p: Seq<char>, i: int) -> bool {
    0 <= i && i + p.len() <= s.len() && s.subrange(i, i + p.len()) == p
}

/// The leftmost position at or after `k` where `p` occurs in `s`, or -1.
pub open spec fn find_from(s: Seq<char>, p: Seq<char>, k: int) -> int
    decreases s.len() + 1 - k,
{
    if k < 0 || k + p.len() > s.len() {
        -1
    } else if occurs_at(s, p, k) {
        k
    } else {
        find_from(s, p, k + 1)
    }
}

/// The leftmost position where `p` occurs in `s`, or -1.
pub open spec fn first_occurrence(s: Seq<char>, p: Seq<char>) -> int {
    find_from(s, p, 0)
}

/// `s` with the span of `n` characters at `i` deleted.
pub open spec fn cut_span(s: Seq<char>, i: int, n: int) -> Seq<char> {
    s.take(i) + s.skip(i + n)
}

/// What `find_from` returns is an occurrence, and none lies between `k` and it.
pub proof fn lemma_find_from(s: Seq<char>, p: Seq<char>, k: int)
    requires
        k >= 0,
    ensures
        find_from(s, p, k) >= 0 ==> occurs_at(s, p, find_from(s, p, k)) && k <= find_from(s, p, k),
        forall|j: int|
            k <= j && (find_from(s, p, k) < 0 || j < find_from(s, p, k)) ==> !#[trigger] occurs_at(s, p, j),
    decreases s.len() + 1 - k,
{
    if k + p.len() <= s.len() && !occurs_at(s, p, k) {
        lemma_find_from(s, p, k + 1);
    }
}

/// `s` with the leftmost occurrence of `p` deleted again and again until none
/// is left. An empty pattern leaves the text alone.
pub open spec fn strip_pattern(s: Seq<char>, p: Seq<char>) -> Seq<char>
    decreases s.len(),
{
    if p.len() > 0 && first_occurrence(s, p) >= 0 {
        proof {
            lemma_find_from(s, p, 0);
        }
        strip_pattern(cut_span(s, first_occurrence(s, p), p.len() as int), p)
    } else {
        s
    }
}

/// `s` stripped of every pattern of `pats`, taken in order.
pub open spec fn strip_sequences(s: Seq<char>, pats: Seq<Seq<char>>) -> Seq<char>
    decreases pats.len(),
{
    if pats.len() == 0 {
        s
    } else {
        strip_pattern(strip_sequences(s, pats.drop_last()), pats.last())
    }
}

/// The known weak sequences, in the order in which they are stripped.
pub open spec fn known_sequences() -> Seq<Seq<char>> {
    seq![
        "asdf"@, "jkl;"@, ";lkj"@, "fdsa"@, "asdfghjkl"@, "asdf ;lkj"@, "0123456789"@,
        "qwertyuiop"@, "qwerty"@, "zxcvbnm"@, "abcdefghijklmnopqrstuvwxyz"@, "password1"@,
        "password!"@, "password"@, "Password"@, "assword"@, "picture1"@, "Picture1"@,
        "picture"@, "Picture"@, "asdf"@, "rty567"@, "senha"@, "abc123"@, "Million2"@,
        "000000"@, "1234"@, "iloveyou"@, "aaron431"@, "qqww1122"@, "123123"@,
    ]
}

/// `s` with every known weak sequence stripped.
pub open spec fn strip_known(s: Seq<char>) -> Seq<char> {
    strip_sequences(s, known_sequences())
}

/// The known weak sequences, as text.
fn common_sequences() -> (r: Vec<&'static str>)
    ensures
        r@.map_values(|q: &str| q@) == known_sequences(),
{
    let r = vec![
        "asdf", "jkl;", ";lkj", "fdsa", "asdfghjkl", "asdf ;lkj", "0123456789",
        "qwertyuiop", "qwerty", "zxcvbnm", "abcdefghijklmnopqrstuvwxyz", "password1",
        "password!", "password", "Password", "assword", "picture1", "Picture1",
        "picture", "Picture", "asdf", "rty567", "senha", "abc123", "Million2",
        "000000", "1234", "iloveyou", "aaron431", "qqww1122", "123123",
    ];
    assert(r@.map_values(|q: &str| q@) =~= known_sequences());
    r
}

/// The characters of `s`, in order.
pub(crate) fn chars_of(s: &str) -> (r: Vec<char>)
    ensures
        r@ == s@,
{
    let mut r: Vec<char> = Vec::new();
    for c in it: s.chars()
        invariant
            it.seq() == s@,
            r@ == s@.take(it.index() as int),
    {
        r.push(c);
    }
    assert(s@.take(s@.len() as int) =~= s@);
    r
}

/// Whether `pat` occurs in `text` at position `k`.
fn matches_at(text: &Vec<char>, pat: &Vec<char>, k: usize) -> (r: bool)
    requires
        k + pat.len() <= text.len(),
    ensures
        r == occurs_at(text@, pat@, k as int),
{
    let mut j: usize = 0;
    while j < pat.len()
        invariant
            k + pat.len() <= text.len(),
            0 <= j <= pat.len(),
            forall|m: int| 0 <= m < j ==> text@[k + m] == pat@[m],
        decreases pat.len() - j,
    {
        if text[k + j] != pat[j] {
            assert(text@.subrange(k as int, k + pat.len())[j as int] != pat@[j as int]);
            return false;
        }
        j = j + 1;
    }
    assert(text@.subrange(k as int, k + pat.len()) =~= pat@);
    true
}

/// The leftmost position where `pat` occurs in `text`, if any.
fn find_sequence(text: &Vec<char>, pat: &Vec<char>) -> (r: Option<usize>)
    requires
        pat.len() > 0,
    ensures
        match r {
            Some(i) => i as int == first_occurrence(text@, pat@),
            None => first_occurrence(text@, pat@) < 0,
        },
{
    if pat.len() > text.len() {
        return None;
    }
    let last = text.len() - pat.len();
    let mut k: usize = 0;
    while k <= last
        invariant
            pat.len() > 0,
            last + pat.len() == text.len(),
            find_from(text@, pat@, 0) == find_from(text@, pat@, k as int),
        decreases last + 1 - k,
    {
        if matches_at(text, pat, k) {
            return Some(k);
        }
        k = k + 1;
    }
    None
}

/// `text` with the span of `n` characters at `i` deleted.
fn cut(text: &Vec<char>, i: usize, n: usize) -> (r: Vec<char>)
    requires
        i + n <= text.len(),
    ensures
        r@ == cut_span(text@, i as int, n as int),
{
    let mut r: Vec<char> = Vec::new();
    let mut k: usize = 0;
    while k < i
        invariant
            i + n <= text.len(),
            0 <= k <= i,
            r@ == text@.take(k as int),
        decreases i - k,
    {
        r.push(text[k]);
        assert(text@.take(k + 1) =~= text@.take(k as int).push(text@[k as int]));
        k = k + 1;
    }
    k = i + n;
    while k < text.len()
        invariant
            i + n <= k <= text.len(),
            r@ == text@.take(i as int) + text@.subrange(i + n, k as int),
        decreases text.len() - k,
    {
        r.push(text[k]);
        assert(text@.subrange(i + n, k + 1) =~= text@.subrange(i + n, k as int).push(text@[k as int]));
        k = k + 1;
    }
    assert(text@.subrange(i + n, text.len() as int) =~= text@.skip(i + n));
    r
}

/// Deletes the leftmost occurrence of `pat` from `text` until none is left.
fn remove_sequence(text: &mut Vec<char>, pat: &Vec<char>)
    requires
        pat.len() > 0,
    ensures
        final(text)@ == strip_pattern(old(text)@, pat@),
{
    let ghost s = text@;
    loop
        invariant
            pat.len() > 0,
            strip_pattern(text@, pat@) == strip_pattern(s, pat@),
        ensures
            text@ == strip_pattern(s, pat@),
        decreases text.len(),
    {
        match find_sequence(text, pat) {
            Some(i) => {
                proof {
                    lemma_find_from(text@, pat@, 0);
                }
                let shorter = cut(text, i, pat.len());
                *text = shorter;
            },
            None => {
                assert(strip_pattern(text@, pat@) == text@);
                break;
            },
        }
    }
}

/// Strips every known weak sequence from the password in place: each one, in
/// the order of the list, is deleted at its leftmost occurrence until none is
/// left, so that occurrences that only appear once another is gone go too.
pub fn remove_common_sequences(password: &mut Vec<char>)
    ensures
        final(password)@ == strip_known(old(password)@),
{
    let ghost s = password@;
    let sequences = common_sequences();
    let mut k: usize = 0;
    while k < sequences.len()
        invariant
            sequences@.map_values(|q: &str| q@) == known_sequences(),
            0 <= k <= sequences.len(),
            password@ == strip_sequences(s, known_sequences().take(k as int)),
        decreases sequences.len() - k,
    {
        let pat = chars_of(sequences[k]);
        proof {
            let pats = known_sequences();
            assert(pats.take(k + 1).drop_last() =~= pats.take(k as int));
            assert(pat@ == pats[k as int]);
        }
        if pat.len() > 0 {
            remove_sequence(password, &pat);
        }
        k = k + 1;
    }
    assert(known_sequences().take(sequences.len() as int) =~= known_sequences());
}

} // verus!
