//! First-occurrence search over sequences, shared by the validators,
//! the mask normalizer and the line codec.

use vstd::prelude::*;

verus! {

/// Index of the first occurrence of `x` in `s`, if any.
pub open spec fn find_first<A>(s: Seq<A>, x: A) -> Option<int>
    decreases s.len(),
{
    if s.len() == 0 {
        None
    } else if s[0] == x {
        Some(0int)
    } else {
        match find_first(s.skip(1), x) {
            None => None,
            Some(i) => Some(i + 1),
        }
    }
}

/// `find_first` returns the least index holding `x`, or `None` when
/// `x` does not occur.
pub proof fn lemma_find_first<A>(s: Seq<A>, x: A)
    ensures
        match find_first(s, x) {
            Some(i) => 0 <= i < s.len() && s[i] == x && (forall|j: int| 0 <= j < i ==> s[j] != x),
            None => forall|j: int| 0 <= j < s.len() ==> s[j] != x,
        },
    decreases s.len(),
{
    if s.len() != 0 && s[0] != x {
        let t = s.skip(1);
        lemma_find_first(t, x);
        match find_first(t, x) {
            Some(i0) => {
                assert(s[i0 + 1] == t[i0]);
                assert forall|j: int| 0 <= j < i0 + 1 implies s[j] != x by {
                    if j > 0 {
                        assert(s[j] == t[j - 1]);
                    }
                }
            },
            None => {
                assert forall|j: int| 0 <= j < s.len() implies s[j] != x by {
                    if j > 0 {
                        assert(s[j] == t[j - 1]);
                    }
                }
            },
        }
    }
}

/// An index that holds `x` with no occurrence of `x` before it is the
/// one `find_first` returns.
pub proof fn lemma_find_first_at<A>(s: Seq<A>, x: A, i: int)
    requires
        0 <= i < s.len(),
        s[i] == x,
        forall|j: int| 0 <= j < i ==> s[j] != x,
    ensures
        find_first(s, x) == Some(i),
    decreases s.len(),
{
    if s[0] != x {
        let t = s.skip(1);
        assert(t[i - 1] == s[i]);
        assert forall|j: int| 0 <= j < i - 1 implies t[j] != x by {
            assert(t[j] == s[j + 1]);
        }
        lemma_find_first_at(t, x, i - 1);
    }
}

/// `x` occurs in `s` exactly when `find_first` finds it.
pub proof fn lemma_find_first_contains<A>(s: Seq<A>, x: A)
    ensures
        find_first(s, x) is Some <==> s.contains(x),
{
    lemma_find_first(s, x);
    if find_first(s, x) is Some {
        let i = find_first(s, x)->Some_0;
        assert(s[i] == x);
    }
}

} // verus!
