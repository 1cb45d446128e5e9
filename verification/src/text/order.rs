//! The order of texts, by code points, and sorting by it.

use vstd::prelude::*;

use crate::text::chars::{self, chars_of};

verus! {

/// `a` stands before `b`: at the first place where they differ `a` has the
/// smaller character, or `a` is a proper prefix of `b`.
pub open spec fn before(a: Seq<char>, b: Seq<char>) -> bool
    decreases a.len(),
{
    if b.len() == 0 {
        false
    } else if a.len() == 0 {
        true
    } else if a[0] != b[0] {
        a[0] < b[0]
    } else {
        before(a.drop_first(), b.drop_first())
    }
}

/// No text of `v` stands before an earlier one.
pub open spec fn sorted(v: Seq<Seq<char>>) -> bool {
    forall|i: int, j: int| 0 <= i < j < v.len() ==> !before(#[trigger] v[j], #[trigger] v[i])
}

/// Of two different texts exactly one stands before the other.
pub proof fn lemma_total(a: Seq<char>, b: Seq<char>)
    ensures
        !(before(a, b) && before(b, a)),
        !before(a, b) && !before(b, a) ==> a == b,
    decreases a.len(),
{
    if a.len() > 0 && b.len() > 0 && a[0] == b[0] {
        lemma_total(a.drop_first(), b.drop_first());
        if !before(a, b) && !before(b, a) {
            assert(a =~= seq![a[0]] + a.drop_first());
            assert(b =~= seq![b[0]] + b.drop_first());
        }
    } else if a.len() == 0 && b.len() == 0 {
        assert(a =~= b);
    }
}

/// The order is transitive.
pub proof fn lemma_transitive(a: Seq<char>, b: Seq<char>, c: Seq<char>)
    requires
        !before(b, a),
        !before(c, b),
    ensures
        !before(c, a),
    decreases a.len(),
{
    if a.len() > 0 && b.len() > 0 && c.len() > 0 && a[0] == b[0] && b[0] == c[0] {
        lemma_transitive(a.drop_first(), b.drop_first(), c.drop_first());
    }
}

/// Two sorted lists of the same texts are the same list.
pub proof fn lemma_sorted_unique(u: Seq<Seq<char>>, v: Seq<Seq<char>>)
    requires
        sorted(u),
        sorted(v),
        u.to_multiset() == v.to_multiset(),
    ensures
        u == v,
    decreases u.len(),
{
    broadcast use vstd::seq_lib::group_to_multiset_ensures;

    u.to_multiset_ensures();
    v.to_multiset_ensures();
    assert(u.len() == v.len());
    if u.len() > 0 {
        assert(u.to_multiset().contains(v[0])) by {
            assert(v.contains(v[0]));
        }
        assert(v.to_multiset().contains(u[0])) by {
            assert(u.contains(u[0]));
        }
        let i = choose|i: int| 0 <= i < u.len() && u[i] == v[0];
        let j = choose|j: int| 0 <= j < v.len() && v[j] == u[0];
        lemma_total(u[0], v[0]);
        assert(u[0] == v[0]);
        assert(u.remove(0).to_multiset() =~= v.remove(0).to_multiset());
        assert forall|i: int, j: int| 0 <= i < j < u.remove(0).len() implies !before(
            #[trigger] u.remove(0)[j],
            #[trigger] u.remove(0)[i],
        ) by {
            assert(u.remove(0)[j] == u[j + 1]);
            assert(u.remove(0)[i] == u[i + 1]);
        }
        assert forall|i: int, j: int| 0 <= i < j < v.remove(0).len() implies !before(
            #[trigger] v.remove(0)[j],
            #[trigger] v.remove(0)[i],
        ) by {
            assert(v.remove(0)[j] == v[j + 1]);
            assert(v.remove(0)[i] == v[i + 1]);
        }
        lemma_sorted_unique(u.remove(0), v.remove(0));
        assert(u =~= seq![u[0]] + u.remove(0));
        assert(v =~= seq![v[0]] + v.remove(0));
    } else {
        assert(u =~= v);
    }
}

/// The texts of `v`, sorted.
pub open spec fn arranged(v: Seq<Seq<char>>) -> Seq<Seq<char>> {
    choose|t: Seq<Seq<char>>| #[trigger] sorted(t) && t.to_multiset() == v.to_multiset()
}

/// The texts of `v`, sorted, are sorted, and they are the texts of `v`.
pub proof fn lemma_arranged(v: Seq<Seq<char>>)
    ensures
        sorted(arranged(v)),
        arranged(v).to_multiset() == v.to_multiset(),
{
    let leq = |a: Seq<char>, b: Seq<char>| !before(b, a);
    assert forall|a: Seq<char>| #[trigger] leq(a, a) by {
        lemma_total(a, a);
    }
    assert forall|a: Seq<char>, b: Seq<char>| #[trigger] leq(a, b) && #[trigger] leq(
        b,
        a,
    ) implies a == b by {
        lemma_total(a, b);
    }
    assert forall|a: Seq<char>, b: Seq<char>, c: Seq<char>| #[trigger]
        leq(a, b) && #[trigger] leq(b, c) implies leq(a, c) by {
        lemma_transitive(a, b, c);
    }
    assert forall|a: Seq<char>, b: Seq<char>| #[trigger] leq(a, b) || #[trigger] leq(b, a) by {
        lemma_total(a, b);
    }
    assert(vstd::relations::total_ordering(leq));
    v.lemma_sort_by_ensures(leq);
    let t = v.sort_by(leq);
    assert forall|i: int, j: int| 0 <= i < j < t.len() implies !before(
        #[trigger] t[j],
        #[trigger] t[i],
    ) by {
        assert(leq(t[i], t[j]));
    }
    assert(sorted(t));
}

/// Whether `a` stands before `b`.
pub fn precedes(a: &str, b: &str) -> (r: bool)
    ensures
        r == before(a@, b@),
{
    let x = chars_of(a);
    let y = chars_of(b);
    let mut i: usize = 0;
    assert(x@.skip(0) =~= x@);
    assert(y@.skip(0) =~= y@);
    while i < x.len() && i < y.len() && x[i] == y[i]
        invariant
            i <= x@.len(),
            i <= y@.len(),
            before(x@, y@) == before(x@.skip(i as int), y@.skip(i as int)),
        decreases x@.len() - i,
    {
        assert(x@.skip(i as int).drop_first() =~= x@.skip(i + 1));
        assert(y@.skip(i as int).drop_first() =~= y@.skip(i + 1));
        i = i + 1;
    }
    if i == y.len() {
        false
    } else if i == x.len() {
        true
    } else {
        x[i] < y[i]
    }
}

/// Puts `s` at its place in a sorted list.
fn insert_sorted(v: &mut Vec<String>, s: String)
    requires
        sorted(chars::texts(old(v)@)),
    ensures
        sorted(chars::texts(final(v)@)),
        chars::texts(final(v)@).to_multiset() == chars::texts(old(v)@).to_multiset().insert(s@),
{
    let n = v.len();
    let mut i: usize = 0;
    while i < n && !precedes(s.as_str(), v[i].as_str())
        invariant
            n == v@.len(),
            v@ == old(v)@,
            i <= n,
            forall|j: int| 0 <= j < i ==> !before(s@, #[trigger] chars::texts(v@)[j]),
        decreases n - i,
    {
        i = i + 1;
    }
    let ghost u = chars::texts(v@);
    let ghost t = s@;
    v.insert(i, s);
    proof {
        let w = chars::texts(v@);
        assert(w =~= u.insert(i as int, t));
        assert forall|a: int, b: int| 0 <= a < b < w.len() implies !before(
            #[trigger] w[b],
            #[trigger] w[a],
        ) by {
            let ua = if a < i {
                a
            } else {
                a - 1
            };
            let ub = if b < i {
                b
            } else {
                b - 1
            };
            if a == i {
                lemma_total(t, u[i as int]);
                if ub > i {
                    lemma_transitive(t, u[i as int], u[ub]);
                }
            } else if b == i {
                assert(w[a] == u[a]);
            } else {
                assert(w[a] == u[ua] && w[b] == u[ub]);
            }
        }
        vstd::seq_lib::to_multiset_insert(u, i as int, t);
    }
}

/// The strings of `v`, sorted.
pub fn sort_texts(v: Vec<String>) -> (r: Vec<String>)
    ensures
        sorted(chars::texts(r@)),
        chars::texts(r@).to_multiset() == chars::texts(v@).to_multiset(),
        chars::texts(r@) == arranged(chars::texts(v@)),
{
    let mut out: Vec<String> = Vec::new();
    let mut i: usize = 0;
    let ghost t = chars::texts(v@);
    assert(chars::texts(out@) =~= t.take(0));
    while i < v.len()
        invariant
            i <= v@.len(),
            t == chars::texts(v@),
            sorted(chars::texts(out@)),
            chars::texts(out@).to_multiset() == t.take(i as int).to_multiset(),
        decreases v@.len() - i,
    {
        insert_sorted(&mut out, v[i].clone());
        proof {
            assert(t.take(i + 1) =~= t.take(i as int).push(v@[i as int]@));
            vstd::seq_lib::to_multiset_build(t.take(i as int), v@[i as int]@);
        }
        i = i + 1;
    }
    assert(t.take(i as int) =~= t);
    proof {
        lemma_sorted_unique(chars::texts(out@), arranged(t));
    }
    out
}

} // verus!
