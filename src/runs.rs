//! The run collapser: every maximal run of one repeated character becomes a
//! single occurrence of it.

use vstd::prelude::*;

verus! {

/// `s` with every run of consecutive equal characters collapsed to one.
pub open spec fn collapse_runs(s: Seq<char>) -> Seq<char>
    decreases s.len(),
{
    if s.len() <= 1 {
        s
    } else if s[s.len() - 1] == s[s.len() - 2] {
        collapse_runs(s.drop_last())
    } else {
        collapse_runs(s.drop_last()).push(s.last())
    }
}

/// No two neighbouring characters of `s` are equal.
pub open spec fn no_adjacent_repeats(s: Seq<char>) -> bool {
    forall|i: int| 0 <= i < s.len() - 1 ==> #[trigger] s[i] != s[i + 1]
}

/// Collapsing keeps the last character and empties only the empty text.
pub proof fn lemma_collapse_runs_last(s: Seq<char>)
    requires
        s.len() > 0,
    ensures
        collapse_runs(s).len() > 0,
        collapse_runs(s).last() == s.last(),
    decreases s.len(),
{
    if s.len() > 1 {
        lemma_collapse_runs_last(s.drop_last());
    }
}

/// Collapsing leaves no two neighbouring characters equal.
pub proof fn lemma_collapse_runs_no_repeats(s: Seq<char>)
    ensures
        no_adjacent_repeats(collapse_runs(s)),
    decreases s.len(),
{
    if s.len() > 1 {
        let prefix = s.drop_last();
        lemma_collapse_runs_no_repeats(prefix);
        if s[s.len() - 1] != s[s.len() - 2] {
            lemma_collapse_runs_last(prefix);
            let c = collapse_runs(prefix);
            let r = c.push(s.last());
            assert forall|i: int| 0 <= i < r.len() - 1 implies #[trigger] r[i] != r[i + 1] by {
                if i < c.len() - 1 {
                    assert(c[i] != c[i + 1]);
                }
            }
        }
    }
}

/// A text without neighbouring repeats is left as it is.
pub proof fn lemma_collapse_runs_fixed(s: Seq<char>)
    requires
        no_adjacent_repeats(s),
    ensures
        collapse_runs(s) == s,
    decreases s.len(),
{
    if s.len() > 1 {
        let prefix = s.drop_last();
        assert(s[s.len() - 2] != s[s.len() - 2 + 1]);
        assert forall|i: int| 0 <= i < prefix.len() - 1 implies #[trigger] prefix[i] != prefix[i + 1] by {
            assert(s[i] != s[i + 1]);
        }
        lemma_collapse_runs_fixed(prefix);
        assert(prefix.push(s.last()) =~= s);
    }
}

/// Removes repeated neighbouring characters in place, keeping one of each run.
pub fn remove_repeating_characters(password: &mut Vec<char>)
    ensures
        final(password)@ == collapse_runs(old(password)@),
{
    let ghost s = password@;
    let mut out: Vec<char> = Vec::new();
    let mut i: usize = 0;
    while i < password.len()
        invariant
            password@ == s,
            0 <= i <= s.len(),
            out@ == collapse_runs(s.take(i as int)),
        decreases s.len() - i,
    {
        let c = password[i];
        proof {
            assert(s.take(i + 1).drop_last() =~= s.take(i as int));
            if i > 0 {
                lemma_collapse_runs_last(s.take(i as int));
            }
        }
        if i == 0 || password[i - 1] != c {
            out.push(c);
        }
        i = i + 1;
    }
    assert(s.take(s.len() as int) =~= s);
    *password = out;
}

} // verus!
