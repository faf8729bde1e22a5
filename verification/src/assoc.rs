//! Sequences of named values, read as maps from names to values.

use vstd::prelude::*;

verus! {

/// The map that a sequence of named values stands for: a later pair
/// replaces an earlier one of the same name.
pub open spec fn map_of<V>(pairs: Seq<(Seq<char>, V)>) -> Map<Seq<char>, V>
    decreases pairs.len(),
{
    if pairs.len() == 0 {
        Map::empty()
    } else {
        map_of(pairs.drop_last()).insert(pairs.last().0, pairs.last().1)
    }
}

/// No name occurs twice.
pub open spec fn distinct_names<V>(pairs: Seq<(Seq<char>, V)>) -> bool {
    forall|i: int, j: int| 0 <= i < j < pairs.len() ==> pairs[i].0 != pairs[j].0
}

/// A name is a key of the map exactly if some pair carries it.
pub proof fn lemma_map_of_dom<V>(pairs: Seq<(Seq<char>, V)>, name: Seq<char>)
    ensures
        map_of(pairs).dom().contains(name) <==> exists|i: int|
            0 <= i < pairs.len() && #[trigger] pairs[i].0 == name,
    decreases pairs.len(),
{
    if pairs.len() > 0 {
        let front = pairs.drop_last();
        lemma_map_of_dom(front, name);
        if map_of(pairs).dom().contains(name) {
            if pairs.last().0 == name {
                assert(pairs[pairs.len() - 1].0 == name);
            } else {
                let i = choose|i: int| 0 <= i < front.len() && #[trigger] front[i].0 == name;
                assert(pairs[i].0 == name);
            }
        }
        if exists|i: int| 0 <= i < pairs.len() && #[trigger] pairs[i].0 == name {
            let i = choose|i: int| 0 <= i < pairs.len() && #[trigger] pairs[i].0 == name;
            if i < front.len() {
                assert(front[i].0 == name);
            }
        }
    }
}

/// Where no name occurs twice, each pair is what the map holds under its name.
pub proof fn lemma_map_of_at<V>(pairs: Seq<(Seq<char>, V)>, i: int)
    requires
        distinct_names(pairs),
        0 <= i < pairs.len(),
    ensures
        map_of(pairs).dom().contains(pairs[i].0),
        map_of(pairs)[pairs[i].0] == pairs[i].1,
    decreases pairs.len(),
{
    let front = pairs.drop_last();
    if i < pairs.len() - 1 {
        assert(distinct_names(front)) by {
            assert forall|a: int, b: int| 0 <= a < b < front.len() implies front[a].0
                != front[b].0 by {
                assert(pairs[a].0 != pairs[b].0);
            }
        }
        lemma_map_of_at(front, i);
        assert(front[i] == pairs[i]);
        assert(pairs[i].0 != pairs[pairs.len() - 1].0);
    }
}

/// Taking one pair out of a sequence without repeated names takes its name
/// out of the map and leaves the rest as it was.
pub proof fn lemma_map_of_remove<V>(pairs: Seq<(Seq<char>, V)>, i: int)
    requires
        distinct_names(pairs),
        0 <= i < pairs.len(),
    ensures
        distinct_names(pairs.remove(i)),
        map_of(pairs.remove(i)) == map_of(pairs).remove(pairs[i].0),
{
    let rest = pairs.remove(i);
    assert(distinct_names(rest)) by {
        assert forall|a: int, b: int| 0 <= a < b < rest.len() implies rest[a].0 != rest[b].0 by {
            let a0 = if a < i { a } else { a + 1 };
            let b0 = if b < i { b } else { b + 1 };
            assert(rest[a] == pairs[a0]);
            assert(rest[b] == pairs[b0]);
            assert(pairs[a0].0 != pairs[b0].0);
        }
    }
    assert(map_of(rest) =~= map_of(pairs).remove(pairs[i].0)) by {
        assert forall|k: Seq<char>|
            map_of(rest).dom().contains(k) <==> map_of(pairs).remove(pairs[i].0).dom().contains(
                k,
            ) by {
            lemma_map_of_dom(rest, k);
            lemma_map_of_dom(pairs, k);
            if map_of(rest).dom().contains(k) {
                let a = choose|a: int| 0 <= a < rest.len() && #[trigger] rest[a].0 == k;
                let a0 = if a < i { a } else { a + 1 };
                assert(rest[a] == pairs[a0]);
                assert(pairs[a0].0 == k);
                if a0 < i {
                    assert(pairs[a0].0 != pairs[i].0);
                } else {
                    assert(pairs[i].0 != pairs[a0].0);
                }
            }
            if map_of(pairs).remove(pairs[i].0).dom().contains(k) {
                let a0 = choose|a: int| 0 <= a < pairs.len() && #[trigger] pairs[a].0 == k;
                assert(a0 != i);
                let a = if a0 < i { a0 } else { a0 - 1 };
                assert(rest[a] == pairs[a0]);
                assert(rest[a].0 == k);
            }
        }
        assert forall|k: Seq<char>| map_of(rest).dom().contains(k) implies map_of(rest)[k]
            == map_of(pairs).remove(pairs[i].0)[k] by {
            lemma_map_of_dom(rest, k);
            let a = choose|a: int| 0 <= a < rest.len() && #[trigger] rest[a].0 == k;
            let a0 = if a < i { a } else { a + 1 };
            assert(rest[a] == pairs[a0]);
            lemma_map_of_at(rest, a);
            lemma_map_of_at(pairs, a0);
        }
    }
}

/// Adding a pair at the end puts it into the map.
pub proof fn lemma_map_of_push<V>(pairs: Seq<(Seq<char>, V)>, pair: (Seq<char>, V))
    ensures
        map_of(pairs.push(pair)) == map_of(pairs).insert(pair.0, pair.1),
{
    assert(pairs.push(pair).drop_last() =~= pairs);
}

/// The map holds under a name what the last pair of that name carries.
pub proof fn lemma_map_of_last<V>(pairs: Seq<(Seq<char>, V)>, i: int)
    requires
        0 <= i < pairs.len(),
        forall|j: int| i < j < pairs.len() ==> pairs[j].0 != pairs[i].0,
    ensures
        map_of(pairs).dom().contains(pairs[i].0),
        map_of(pairs)[pairs[i].0] == pairs[i].1,
    decreases pairs.len(),
{
    if i < pairs.len() - 1 {
        let front = pairs.drop_last();
        assert(front[i] == pairs[i]);
        assert forall|j: int| i < j < front.len() implies front[j].0 != front[i].0 by {
            assert(front[j] == pairs[j]);
        }
        lemma_map_of_last(front, i);
        assert(pairs[pairs.len() - 1].0 != pairs[i].0);
    }
}

} // verus!
