//! Pairs of a name and a value: variables of an environment, and options on a command line.

use vstd::prelude::*;

verus! {

/// Among the pairs, one alone has the name, and it has the value.
pub open spec fn sets(
    pairs: Seq<(Seq<char>, Seq<char>)>,
    name: Seq<char>,
    value: Seq<char>,
) -> bool {
    &&& exists|i: int| 0 <= i < pairs.len() && #[trigger] pairs[i] == (name, value)
    &&& forall|i: int, j: int|
        0 <= i < j < pairs.len() && #[trigger] pairs[i].0 == name ==> (#[trigger] pairs[j]).0
            != name
}

/// None of the pairs has the name.
pub open spec fn lacks(pairs: Seq<(Seq<char>, Seq<char>)>, name: Seq<char>) -> bool {
    forall|i: int| 0 <= i < pairs.len() ==> (#[trigger] pairs[i]).0 != name
}

/// Words, two by two: each a name and the value behind it.
pub open spec fn in_pairs(words: Seq<Seq<char>>) -> Seq<(Seq<char>, Seq<char>)> {
    Seq::new(words.len() / 2, |i: int| (words[2 * i], words[2 * i + 1]))
}

/// A pair whose name no other pair has sets that name.
pub proof fn lemma_sets(pairs: Seq<(Seq<char>, Seq<char>)>, k: int)
    requires
        0 <= k < pairs.len(),
        forall|i: int| 0 <= i < pairs.len() && i != k ==> (#[trigger] pairs[i]).0 != pairs[k].0,
    ensures
        sets(pairs, pairs[k].0, pairs[k].1),
{
    assert(pairs[k] == (pairs[k].0, pairs[k].1));
}

/// Words behind others, all two by two.
pub proof fn lemma_in_pairs_joined(a: Seq<Seq<char>>, b: Seq<Seq<char>>)
    requires
        a.len() % 2 == 0,
    ensures
        in_pairs(a + b) == in_pairs(a) + in_pairs(b),
{
    let n = a.len() as int;
    assert((n + b.len()) / 2 == n / 2 + b.len() / 2);
    assert forall|i: int| 0 <= i < in_pairs(a + b).len() implies #[trigger] in_pairs(a + b)[i] == (
    in_pairs(a) + in_pairs(b))[i] by {
        if i >= n / 2 {
            assert(2 * (i - n / 2) == 2 * i - n);
        }
    }
    assert(in_pairs(a + b) =~= in_pairs(a) + in_pairs(b));
}

/// A name is set to one value only.
pub proof fn lemma_sets_one(
    pairs: Seq<(Seq<char>, Seq<char>)>,
    name: Seq<char>,
    a: Seq<char>,
    b: Seq<char>,
)
    requires
        sets(pairs, name, a),
        sets(pairs, name, b),
    ensures
        a == b,
{
    let i = choose|i: int| 0 <= i < pairs.len() && #[trigger] pairs[i] == (name, a);
    let j = choose|j: int| 0 <= j < pairs.len() && #[trigger] pairs[j] == (name, b);
    assert(pairs[i].0 == name && pairs[j].0 == name);
}

} // verus!
