//! "First usable element" searches over sequences, and the facts about them
//! that the extraction loops rely on.
use vstd::prelude::*;

verus! {

/// The first `Some` that `pick` yields along `s`, scanning from the front.
///
/// Written by peeling the last element so that a left-to-right loop extends
/// it one element at a time.
pub open spec fn first_some<A, B>(s: Seq<A>, pick: spec_fn(A) -> Option<B>) -> Option<B>
    decreases s.len(),
{
    if s.len() == 0 {
        None
    } else {
        match first_some(s.drop_last(), pick) {
            Some(b) => Some(b),
            None => pick(s.last()),
        }
    }
}

/// Extending a scanned prefix by one element.
pub proof fn lemma_first_some_step<A, B>(s: Seq<A>, i: int, pick: spec_fn(A) -> Option<B>)
    requires
        0 <= i < s.len(),
    ensures
        first_some(s.take(i + 1), pick) == match first_some(s.take(i), pick) {
            Some(b) => Some(b),
            None => pick(s[i]),
        },
{
    assert(s.take(i + 1).drop_last() =~= s.take(i));
}

/// Once a prefix has produced a value, the whole sequence produces the same one.
pub proof fn lemma_first_some_prefix<A, B>(s: Seq<A>, i: int, pick: spec_fn(A) -> Option<B>)
    requires
        0 <= i <= s.len(),
        first_some(s.take(i), pick) is Some,
    ensures
        first_some(s, pick) == first_some(s.take(i), pick),
    decreases s.len() - i,
{
    if i == s.len() {
        assert(s.take(i) =~= s);
    } else {
        lemma_first_some_step(s, i, pick);
        lemma_first_some_prefix(s, i + 1, pick);
    }
}

/// Scanning a concatenation: the front part is searched first.
pub proof fn lemma_first_some_concat<A, B>(a: Seq<A>, b: Seq<A>, pick: spec_fn(A) -> Option<B>)
    ensures
        first_some(a + b, pick) == match first_some(a, pick) {
            Some(x) => Some(x),
            None => first_some(b, pick),
        },
    decreases b.len(),
{
    if b.len() == 0 {
        assert(a + b =~= a);
    } else {
        lemma_first_some_concat(a, b.drop_last(), pick);
        assert((a + b).drop_last() =~= a + b.drop_last());
    }
}

proof fn lemma_first_some_none_prefix<A, B>(s: Seq<A>, i: int, pick: spec_fn(A) -> Option<B>)
    requires
        0 <= i <= s.len(),
        forall|j: int| 0 <= j < i ==> (#[trigger] pick(s[j])) is None,
    ensures
        first_some(s.take(i), pick) is None,
    decreases i,
{
    if i == 0 {
        assert(s.take(0) =~= Seq::<A>::empty());
    } else {
        lemma_first_some_none_prefix(s, i - 1, pick);
        lemma_first_some_step(s, i - 1, pick);
    }
}

/// The search yields what `pick` gives at the first position where it gives
/// anything, and nothing when `pick` gives nothing anywhere.
pub proof fn law_first_some_is_first_hit<A, B>(s: Seq<A>, pick: spec_fn(A) -> Option<B>)
    ensures
        forall|i: int|
            0 <= i < s.len() && (#[trigger] pick(s[i])) is Some && (forall|j: int|
                0 <= j < i ==> (#[trigger] pick(s[j])) is None) ==> first_some(s, pick) == pick(
                s[i],
            ),
        (forall|i: int| 0 <= i < s.len() ==> (#[trigger] pick(s[i])) is None) <==> first_some(
            s,
            pick,
        ) is None,
    decreases s.len(),
{
    assert forall|i: int|
        0 <= i < s.len() && (#[trigger] pick(s[i])) is Some && (forall|j: int|
            0 <= j < i ==> (#[trigger] pick(s[j])) is None) implies first_some(s, pick) == pick(
        s[i],
    ) by {
        lemma_first_some_none_prefix(s, i, pick);
        lemma_first_some_step(s, i, pick);
        lemma_first_some_prefix(s, i + 1, pick);
    }
    if forall|i: int| 0 <= i < s.len() ==> (#[trigger] pick(s[i])) is None {
        lemma_first_some_none_prefix(s, s.len() as int, pick);
        assert(s.take(s.len() as int) =~= s);
    }
    if s.len() > 0 && first_some(s, pick) is None {
        law_first_some_is_first_hit(s.drop_last(), pick);
        assert forall|i: int| 0 <= i < s.len() implies (#[trigger] pick(s[i])) is None by {
            if i < s.len() - 1 {
                assert(s.drop_last()[i] == s[i]);
            }
        }
    }
}

} // verus!
