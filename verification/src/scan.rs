//! Finding the first element of a sequence that meets a condition.

use vstd::prelude::*;

verus! {

/// Index of the first element of `s` that satisfies `p`, if there is one.
pub open spec fn first_match<T>(s: Seq<T>, p: spec_fn(T) -> bool) -> Option<int>
    decreases s.len(),
{
    if s.len() == 0 {
        None
    } else {
        match first_match(s.drop_last(), p) {
            Some(i) => Some(i),
            None => if p(s.last()) {
                Some(s.len() - 1)
            } else {
                None
            },
        }
    }
}

/// `first_match` returns an index whose element satisfies `p` and before
/// which no element does; it returns `None` exactly when no element does.
pub proof fn lemma_first_match<T>(s: Seq<T>, p: spec_fn(T) -> bool)
    ensures
        match first_match(s, p) {
            Some(i) => 0 <= i < s.len() && p(s[i]) && forall|j: int| 0 <= j < i ==> !p(s[j]),
            None => forall|j: int| 0 <= j < s.len() ==> !p(s[j]),
        },
    decreases s.len(),
{
    if s.len() > 0 {
        let rest = s.drop_last();
        lemma_first_match(rest, p);
        match first_match(rest, p) {
            Some(i) => {
                assert(s[i] == rest[i]);
                assert forall|j: int| 0 <= j < i implies !p(s[j]) by {
                    assert(s[j] == rest[j]);
                }
            },
            None => {
                assert forall|j: int| 0 <= j < s.len() - 1 implies !p(s[j]) by {
                    assert(s[j] == rest[j]);
                }
            },
        }
    }
}

/// An index whose element satisfies `p`, and before which no element does,
/// is the one that `first_match` returns.
pub proof fn lemma_first_match_unique<T>(s: Seq<T>, p: spec_fn(T) -> bool, i: int)
    requires
        0 <= i < s.len(),
        p(s[i]),
        forall|j: int| 0 <= j < i ==> !p(s[j]),
    ensures
        first_match(s, p) == Some(i),
{
    lemma_first_match(s, p);
}

/// Looking at one more element: an earlier match stands, else the new
/// element is the match if it satisfies `p`.
pub proof fn lemma_first_match_step<T>(s: Seq<T>, p: spec_fn(T) -> bool, n: int)
    requires
        0 <= n < s.len(),
    ensures
        first_match(s.take(n + 1), p) == match first_match(s.take(n), p) {
            Some(i) => Some(i),
            None => if p(s[n]) {
                Some(n)
            } else {
                None
            },
        },
{
    assert(s.take(n + 1).drop_last() =~= s.take(n));
}

/// A match at `n` with none before it is the first match of the whole
/// sequence.
pub proof fn lemma_first_match_found<T>(s: Seq<T>, p: spec_fn(T) -> bool, n: int)
    requires
        0 <= n < s.len(),
        first_match(s.take(n), p) is None,
        p(s[n]),
    ensures
        first_match(s, p) == Some(n),
{
    lemma_first_match(s.take(n), p);
    assert forall|j: int| 0 <= j < n implies !p(s[j]) by {
        assert(s.take(n)[j] == s[j]);
    }
    lemma_first_match_unique(s, p, n);
}

} // verus!
