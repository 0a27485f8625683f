//! The first element of a sequence that satisfies a predicate.

use vstd::prelude::*;

verus! {

/// `i` is the first position at which `want` holds.
pub open spec fn is_first<A>(s: Seq<A>, want: spec_fn(A) -> bool, i: int) -> bool {
    &&& 0 <= i < s.len()
    &&& want(s[i])
    &&& forall|j: int| 0 <= j < i ==> !want(#[trigger] s[j])
}

/// The first position at which `want` holds, if there is one.
pub open spec fn first_index<A>(s: Seq<A>, want: spec_fn(A) -> bool) -> Option<int> {
    if exists|i: int| is_first(s, want, i) {
        Some(choose|i: int| is_first(s, want, i))
    } else {
        None
    }
}

/// The first position in `items` at which `test` answers yes.
pub(crate) fn find_first<A>(
    items: &Vec<A>,
    test: impl Fn(&A) -> bool,
    Ghost(want): Ghost<spec_fn(A) -> bool>,
) -> (r: Option<usize>)
    requires
        forall|item: &A| call_requires(test, (item,)),
        forall|item: &A, yes: bool| call_ensures(test, (item,), yes) ==> yes == want(*item),
    ensures
        match r {
            Some(i) => i < items@.len() && first_index(items@, want) == Some(i as int),
            None => first_index(items@, want) is None,
        },
{
    let mut i: usize = 0;
    while i < items.len()
        invariant
            i <= items.len(),
            forall|item: &A| call_requires(test, (item,)),
            forall|item: &A, yes: bool| call_ensures(test, (item,), yes) ==> yes == want(*item),
            forall|j: int| 0 <= j < i ==> !want(#[trigger] items@[j]),
        decreases items.len() - i,
    {
        if test(&items[i]) {
            proof {
                lemma_first_index_is(items@, want, i as int);
            }
            return Some(i);
        }
        i = i + 1;
    }
    proof {
        lemma_first_index_none(items@, want);
    }
    None
}

/// A first position is the only one.
pub proof fn lemma_first_index_is<A>(s: Seq<A>, want: spec_fn(A) -> bool, i: int)
    requires
        is_first(s, want, i),
    ensures
        first_index(s, want) == Some(i),
{
}

/// Where `want` holds nowhere, there is no first position.
pub proof fn lemma_first_index_none<A>(s: Seq<A>, want: spec_fn(A) -> bool)
    requires
        forall|i: int| 0 <= i < s.len() ==> !want(#[trigger] s[i]),
    ensures
        first_index(s, want) is None,
{
}

/// What is found is a first position, and nothing is found only where `want`
/// holds nowhere.
pub proof fn lemma_first_index<A>(s: Seq<A>, want: spec_fn(A) -> bool)
    ensures
        match first_index(s, want) {
            Some(i) => is_first(s, want, i),
            None => forall|i: int| 0 <= i < s.len() ==> !want(#[trigger] s[i]),
        },
{
    if first_index(s, want) is None {
        assert forall|i: int| 0 <= i < s.len() implies !want(#[trigger] s[i]) by {
            lemma_not_up_to(s, want, i);
        }
    }
}

proof fn lemma_not_up_to<A>(s: Seq<A>, want: spec_fn(A) -> bool, i: int)
    requires
        first_index(s, want) is None,
        0 <= i < s.len(),
    ensures
        !want(s[i]),
    decreases i,
{
    assert forall|j: int| 0 <= j < i implies !want(#[trigger] s[j]) by {
        lemma_not_up_to(s, want, j);
    }
    assert(!is_first(s, want, i));
}

/// Two searches agree where the sequences have one length and the predicates
/// hold at the same positions.
pub proof fn lemma_first_index_agrees<A, B>(
    s: Seq<A>,
    want: spec_fn(A) -> bool,
    t: Seq<B>,
    seek: spec_fn(B) -> bool,
)
    requires
        s.len() == t.len(),
        forall|i: int| 0 <= i < s.len() ==> want(#[trigger] s[i]) == seek(t[i]),
    ensures
        first_index(s, want) == first_index(t, seek),
{
    lemma_first_index(s, want);
    match first_index(s, want) {
        Some(i) => {
            assert forall|j: int| 0 <= j < i implies !seek(#[trigger] t[j]) by {
                assert(!want(s[j]));
            }
            lemma_first_index_is(t, seek, i);
        },
        None => {
            assert forall|j: int| 0 <= j < t.len() implies !seek(#[trigger] t[j]) by {
                assert(!want(s[j]));
            }
            lemma_first_index_none(t, seek);
        },
    }
}

} // verus!
