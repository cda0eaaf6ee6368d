//! Facts about sequences without repetitions.

use vstd::prelude::*;

verus! {

/// Appending a value that a duplicate-free sequence lacks keeps it
/// duplicate-free, and adds just that value to its set.
pub proof fn lemma_push_fresh<A>(s: Seq<A>, x: A)
    requires
        s.no_duplicates(),
        !s.contains(x),
    ensures
        s.push(x).no_duplicates(),
        s.push(x).to_set() == s.to_set().insert(x),
{
    s.lemma_push_to_set_commute(x);
    assert forall|i: int, j: int|
        0 <= i < s.push(x).len() && 0 <= j < s.push(x).len() && i != j implies s.push(x)[i]
        != s.push(x)[j] by {}
}

/// Appending a value adds just that value to the set of a sequence.
pub proof fn lemma_push_set<A>(s: Seq<A>, x: A)
    ensures
        s.push(x).to_set() == s.to_set().insert(x),
{
    s.lemma_push_to_set_commute(x);
}

/// Taking the value at `i` out of a duplicate-free sequence keeps it
/// duplicate-free, and removes just that value from its set.
pub proof fn lemma_remove_at<A>(s: Seq<A>, i: int)
    requires
        s.no_duplicates(),
        0 <= i < s.len(),
    ensures
        s.remove(i).no_duplicates(),
        s.remove(i).len() == s.len() - 1,
        s.remove(i).to_set() == s.to_set().remove(s[i]),
        !s.remove(i).contains(s[i]),
{
    let r = s.remove(i);
    s.remove_ensures(i);
    assert forall|a: int, b: int| 0 <= a < r.len() && 0 <= b < r.len() && a != b implies r[a]
        != r[b] by {
        let sa = if a < i {
            a
        } else {
            a + 1
        };
        let sb = if b < i {
            b
        } else {
            b + 1
        };
    }
    assert forall|x: A| r.to_set().contains(x) <==> s.to_set().remove(s[i]).contains(x) by {
        if r.contains(x) {
            let a = choose|a: int| 0 <= a < r.len() && r[a] == x;
            let sa = if a < i {
                a
            } else {
                a + 1
            };
        }
        if s.contains(x) && x != s[i] {
            let b = choose|b: int| 0 <= b < s.len() && s[b] == x;
            if b < i {
                assert(r[b] == x);
            } else {
                assert(r[b - 1] == x);
            }
        }
    }
}

} // verus!
