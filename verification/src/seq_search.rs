//! First-match scanning over sequences: the shared spec for every
//! "first entry that satisfies p wins" rule in the library.

use vstd::prelude::*;

verus! {

/// Index of the first element of `s` satisfying `p`, if any.
pub open spec fn first_where<A>(s: Seq<A>, p: spec_fn(A) -> bool) -> Option<int>
    decreases s.len(),
{
    if s.len() == 0 {
        None
    } else if p(s[0]) {
        Some(0int)
    } else {
        match first_where(s.drop_first(), p) {
            Some(i) => Some(i + 1),
            None => None,
        }
    }
}

/// What `first_where` returns: a satisfying index preceded only by
/// non-satisfying ones, or nothing when no element satisfies `p`.
pub proof fn lemma_first_where<A>(s: Seq<A>, p: spec_fn(A) -> bool)
    ensures
        match first_where(s, p) {
            Some(i) => 0 <= i < s.len() && p(s[i]) && (forall|k: int| 0 <= k < i ==> !p(s[k])),
            None => forall|k: int| 0 <= k < s.len() ==> !p(s[k]),
        },
    decreases s.len(),
{
    if s.len() != 0 && !p(s[0]) {
        let t = s.drop_first();
        lemma_first_where(t, p);
        match first_where(t, p) {
            Some(j) => {
                assert(first_where(s, p) == Some(j + 1));
                assert(t[j] == s[j + 1]);
                assert forall|k: int| 0 <= k < j + 1 implies !p(s[k]) by {
                    if k >= 1 {
                        assert(t[k - 1] == s[k]);
                    }
                }
            },
            None => {
                assert forall|k: int| 0 <= k < s.len() implies !p(s[k]) by {
                    if k >= 1 {
                        assert(t[k - 1] == s[k]);
                    }
                }
            },
        }
    }
}

/// Converse direction: a satisfying index preceded only by non-satisfying
/// ones is what `first_where` returns.
pub proof fn lemma_first_where_is<A>(s: Seq<A>, p: spec_fn(A) -> bool, i: int)
    requires
        0 <= i < s.len(),
        p(s[i]),
        forall|k: int| 0 <= k < i ==> !p(s[k]),
    ensures
        first_where(s, p) == Some(i),
{
    lemma_first_where(s, p);
    match first_where(s, p) {
        Some(j) => {
            if j < i {
                assert(!p(s[j]));
            } else if j > i {
                assert(!p(s[i]));
            }
        },
        None => {
            assert(!p(s[i]));
        },
    }
}

/// Converse direction: with no satisfying element, `first_where` finds none.
pub proof fn lemma_first_where_none<A>(s: Seq<A>, p: spec_fn(A) -> bool)
    requires
        forall|k: int| 0 <= k < s.len() ==> !p(s[k]),
    ensures
        first_where(s, p) is None,
{
    lemma_first_where(s, p);
    match first_where(s, p) {
        Some(j) => {
            assert(!p(s[j]));
        },
        None => {},
    }
}

} // verus!
