//! Labels by id.

use vstd::prelude::*;

use crate::text::same_text;

verus! {

/// The characters of an id and its label.
pub open spec fn pair_view(pair: (String, String)) -> (Seq<char>, Seq<char>) {
    (pair.0@, pair.1@)
}

/// The characters of each id and its label.
pub open spec fn pair_views(pairs: Seq<(String, String)>) -> Seq<(Seq<char>, Seq<char>)> {
    pairs.map_values(|pair: (String, String)| pair_view(pair))
}

/// The map that the pairs spell out; of two pairs with one id the later counts.
pub open spec fn map_of(pairs: Seq<(Seq<char>, Seq<char>)>) -> Map<Seq<char>, Seq<char>>
    decreases pairs.len(),
{
    if pairs.len() == 0 {
        Map::empty()
    } else {
        map_of(pairs.drop_last()).insert(pairs.last().0, pairs.last().1)
    }
}

/// No two pairs have one id.
pub open spec fn distinct_ids(pairs: Seq<(Seq<char>, Seq<char>)>) -> bool {
    forall|i: int, j: int|
        0 <= i < j < pairs.len() ==> (#[trigger] pairs[i]).0 != (#[trigger] pairs[j]).0
}

/// A label for each of a number of ids.
#[derive(Debug)]
pub struct Labels {
    entries: Vec<(String, String)>,
}

impl View for Labels {
    type V = Map<Seq<char>, Seq<char>>;

    closed spec fn view(&self) -> Map<Seq<char>, Seq<char>> {
        map_of(pair_views(self.entries@))
    }
}

impl Labels {
    #[verifier::type_invariant]
    spec fn well_formed(&self) -> bool {
        distinct_ids(pair_views(self.entries@))
    }

    /// No labels.
    pub fn new() -> (labels: Labels)
        ensures
            labels@ == Map::<Seq<char>, Seq<char>>::empty(),
    {
        let entries: Vec<(String, String)> = Vec::new();
        Labels { entries }
    }

    /// The labels that the pairs spell out; of two pairs with one id the later
    /// counts.
    pub fn from_pairs(pairs: Vec<(String, String)>) -> (labels: Labels)
        ensures
            labels@ == map_of(pair_views(pairs@)),
    {
        let mut labels: Labels = Labels::new();
        let mut i: usize = 0;
        while i < pairs.len()
            invariant
                i <= pairs.len(),
                labels@ == map_of(pair_views(pairs@).take(i as int)),
            decreases pairs.len() - i,
        {
            proof {
                let next = pair_views(pairs@).take(i + 1);
                assert(next.drop_last() =~= pair_views(pairs@).take(i as int));
            }
            labels.insert(pairs[i].0.clone(), pairs[i].1.clone());
            i = i + 1;
        }
        assert(pair_views(pairs@).take(i as int) =~= pair_views(pairs@));
        labels
    }

    /// Each id with its label, no id twice.
    pub fn pairs(&self) -> (pairs: Vec<(String, String)>)
        ensures
            map_of(pair_views(pairs@)) == self@,
            distinct_ids(pair_views(pairs@)),
    {
        proof {
            use_type_invariant(self);
        }
        let mut pairs: Vec<(String, String)> = Vec::new();
        let mut i: usize = 0;
        while i < self.entries.len()
            invariant
                i <= self.entries.len(),
                pair_views(pairs@) == pair_views(self.entries@).take(i as int),
            decreases self.entries.len() - i,
        {
            let ghost before = pairs@;
            pairs.push((self.entries[i].0.clone(), self.entries[i].1.clone()));
            proof {
                assert(pair_views(pairs@) =~= pair_views(before).push(
                    pair_view(self.entries@[i as int]),
                ));
            }
            i = i + 1;
        }
        assert(pair_views(pairs@) =~= pair_views(self.entries@));
        pairs
    }

    /// Where the entry for `id` stands.
    fn position(&self, id: &str) -> (r: Option<usize>)
        ensures
            match r {
                Some(i) => i < self.entries@.len() && self.entries@[i as int].0@ == id@,
                None => forall|i: int|
                    0 <= i < self.entries@.len() ==> (#[trigger] self.entries@[i]).0@ != id@,
            },
    {
        let mut i: usize = 0;
        while i < self.entries.len()
            invariant
                i <= self.entries.len(),
                forall|j: int| 0 <= j < i ==> (#[trigger] self.entries@[j]).0@ != id@,
            decreases self.entries.len() - i,
        {
            if same_text(self.entries[i].0.as_str(), id) {
                return Some(i);
            }
            i = i + 1;
        }
        None
    }

    /// The label of `id`.
    pub fn get(&self, id: &str) -> (label: Option<&String>)
        ensures
            match label {
                Some(label) => self@.contains_key(id@) && label@ == self@[id@],
                None => !self@.contains_key(id@),
            },
    {
        proof {
            use_type_invariant(self);
            lemma_map_of(pair_views(self.entries@));
        }
        match self.position(id) {
            Some(i) => {
                assert(pair_views(self.entries@)[i as int].0 == id@);
                Some(&self.entries[i].1)
            },
            None => {
                None
            },
        }
    }

    /// Give `id` a label, in place of the one it may have had.
    pub fn insert(&mut self, id: String, label: String)
        ensures
            final(self)@ == old(self)@.insert(id@, label@),
    {
        proof {
            use_type_invariant(&*self);
        }
        let found: Option<usize> = self.position(id.as_str());
        let mut entries: Vec<(String, String)> = Vec::new();
        let ghost was = pair_views(self.entries@);
        let ghost new = (id@, label@);
        std::mem::swap(&mut entries, &mut self.entries);
        match found {
            Some(i) => {
                entries.set(i, (id, label));
                proof {
                    assert(pair_views(entries@) =~= was.update(i as int, new));
                    lemma_update(was, i as int, new);
                }
            },
            None => {
                entries.push((id, label));
                proof {
                    assert(pair_views(entries@) =~= was.push(new));
                    assert(pair_views(entries@).drop_last() =~= was);
                }
            },
        }
        self.entries = entries;
    }
}

impl Clone for Labels {
    fn clone(&self) -> (labels: Labels)
        ensures
            labels@ == self@,
    {
        Labels::from_pairs(self.pairs())
    }
}

/// Where the ids are distinct, the map holds exactly the pairs.
proof fn lemma_map_of(pairs: Seq<(Seq<char>, Seq<char>)>)
    requires
        distinct_ids(pairs),
    ensures
        forall|id: Seq<char>| #[trigger]
            map_of(pairs).contains_key(id) ==> exists|i: int|
                0 <= i < pairs.len() && (#[trigger] pairs[i]).0 == id,
        forall|i: int|
            0 <= i < pairs.len() ==> map_of(pairs).contains_key((#[trigger] pairs[i]).0)
                && map_of(pairs)[pairs[i].0] == pairs[i].1,
    decreases pairs.len(),
{
    if pairs.len() > 0 {
        let rest = pairs.drop_last();
        assert(distinct_ids(rest));
        lemma_map_of(rest);
        assert forall|id: Seq<char>| #[trigger] map_of(pairs).contains_key(id) implies exists|
            i: int,
        |
            0 <= i < pairs.len() && (#[trigger] pairs[i]).0 == id by {
            if id != pairs.last().0 {
                assert(map_of(rest).contains_key(id));
                let i = choose|i: int| 0 <= i < rest.len() && (#[trigger] rest[i]).0 == id;
                assert(pairs[i].0 == id);
            }
        }
        assert forall|i: int| 0 <= i < pairs.len() implies map_of(pairs).contains_key(
            (#[trigger] pairs[i]).0,
        ) && map_of(pairs)[pairs[i].0] == pairs[i].1 by {
            if i < pairs.len() - 1 {
                assert(rest[i] == pairs[i]);
            }
        }
    }
}

/// Replacing the pair of an id is inserting into the map.
proof fn lemma_update(
    pairs: Seq<(Seq<char>, Seq<char>)>,
    at: int,
    pair: (Seq<char>, Seq<char>),
)
    requires
        distinct_ids(pairs),
        0 <= at < pairs.len(),
        pairs[at].0 == pair.0,
    ensures
        distinct_ids(pairs.update(at, pair)),
        map_of(pairs.update(at, pair)) == map_of(pairs).insert(pair.0, pair.1),
{
    let next = pairs.update(at, pair);
    assert(distinct_ids(next));
    lemma_map_of(pairs);
    lemma_map_of(next);
    let left = map_of(next);
    let right = map_of(pairs).insert(pair.0, pair.1);
    assert forall|id: Seq<char>| left.contains_key(id) <==> right.contains_key(id) by {
        if left.contains_key(id) {
            let i = choose|i: int| 0 <= i < next.len() && (#[trigger] next[i]).0 == id;
            assert(pairs[i].0 == id);
        }
        if map_of(pairs).contains_key(id) {
            let i = choose|i: int| 0 <= i < pairs.len() && (#[trigger] pairs[i]).0 == id;
            assert(next[i].0 == id);
        }
    }
    assert forall|id: Seq<char>| left.contains_key(id) implies left[id] == right[id] by {
        let i = choose|i: int| 0 <= i < next.len() && (#[trigger] next[i]).0 == id;
        assert(i != at ==> pairs[i].0 != pairs[at].0);
    }
}

/// Where the ids are distinct, the order of the pairs does not matter to the
/// map.
pub proof fn the_order_of_pairs_does_not_matter(
    one: Seq<(Seq<char>, Seq<char>)>,
    other: Seq<(Seq<char>, Seq<char>)>,
)
    requires
        distinct_ids(one),
        distinct_ids(other),
        one.to_set() == other.to_set(),
    ensures
        map_of(one) == map_of(other),
{
    lemma_map_within(one, other);
    lemma_map_within(other, one);
}

proof fn lemma_map_within(
    one: Seq<(Seq<char>, Seq<char>)>,
    other: Seq<(Seq<char>, Seq<char>)>,
)
    requires
        distinct_ids(one),
        distinct_ids(other),
        one.to_set() == other.to_set(),
    ensures
        forall|id: Seq<char>| #[trigger]
            map_of(one).contains_key(id) ==> map_of(other).contains_key(id) && map_of(other)[id]
                == map_of(one)[id],
{
    lemma_map_of(one);
    lemma_map_of(other);
    assert forall|id: Seq<char>| #[trigger] map_of(one).contains_key(id) implies map_of(
        other,
    ).contains_key(id) && map_of(other)[id] == map_of(one)[id] by {
        let i = choose|i: int| 0 <= i < one.len() && (#[trigger] one[i]).0 == id;
        assert(one.to_set().contains(one[i]));
        let j = choose|j: int| 0 <= j < other.len() && other[j] == one[i];
        assert(other[j].0 == id);
    }
}

/// An id has a label exactly when a pair gives it one, and it is the one that
/// the last such pair gives.
pub proof fn the_last_pair_of_an_id_counts(
    pairs: Seq<(Seq<char>, Seq<char>)>,
    id: Seq<char>,
    k: int,
)
    ensures
        (forall|i: int| 0 <= i < pairs.len() ==> (#[trigger] pairs[i]).0 != id) ==> !map_of(
            pairs,
        ).contains_key(id),
        0 <= k < pairs.len() && pairs[k].0 == id && (forall|i: int|
            k < i < pairs.len() ==> (#[trigger] pairs[i]).0 != id) ==> map_of(pairs).contains_key(
            id,
        ) && map_of(pairs)[id] == pairs[k].1,
    decreases pairs.len(),
{
    if pairs.len() > 0 {
        let rest = pairs.drop_last();
        assert(forall|i: int| 0 <= i < rest.len() ==> #[trigger] rest[i] == pairs[i]);
        assert(pairs.last() == pairs[pairs.len() - 1]);
        the_last_pair_of_an_id_counts(rest, id, k);
    }
}

/// Ids are distinct where no two places hold the same one, and pairs read as
/// they were given, id first.
pub proof fn pairs_in_words(
    pairs: Seq<(Seq<char>, Seq<char>)>,
    given: Seq<(String, String)>,
    i: int,
)
    ensures
        distinct_ids(pairs) <==> forall|j: int, k: int|
            0 <= j < pairs.len() && 0 <= k < pairs.len() && (#[trigger] pairs[j]).0 == (
            #[trigger] pairs[k]).0 ==> j == k,
        pair_views(given).len() == given.len(),
        0 <= i < given.len() ==> pair_views(given)[i] == (given[i].0@, given[i].1@),
{
}

} // verus!
