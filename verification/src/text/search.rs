//! Finding and replacing one text inside another.

use vstd::prelude::*;

use crate::text::chars::{chars_of, string_from};

verus! {

/// `p` occurs in `s` at position `i`.
pub open spec fn occurs_at(s: Seq<char>, p: Seq<char>, i: int) -> bool {
    &&& 0 <= i
    &&& i + p.len() <= s.len()
    &&& s.subrange(i, i + p.len()) == p
}

/// `p` occurs somewhere in `s`.
pub open spec fn contains(s: Seq<char>, p: Seq<char>) -> bool {
    exists|i: int| occurs_at(s, p, i)
}

/// `s` begins with `p`.
pub open spec fn begins(s: Seq<char>, p: Seq<char>) -> bool {
    s.len() >= p.len() && s.take(p.len() as int) == p
}

/// `s` ends with `p`.
pub open spec fn ends(s: Seq<char>, p: Seq<char>) -> bool {
    s.len() >= p.len() && s.skip(s.len() - p.len()) == p
}

/// What follows `p` at the start of `s`, if `s` begins with `p`.
pub open spec fn after_prefix(s: Seq<char>, p: Seq<char>) -> Option<Seq<char>> {
    if begins(s, p) {
        Some(s.skip(p.len() as int))
    } else {
        None
    }
}

/// `s` with each occurrence of `from`, taken from left to right and without
/// overlap, replaced by `to`.
pub open spec fn replace(s: Seq<char>, from: Seq<char>, to: Seq<char>) -> Seq<char>
    decreases s.len(),
{
    if from.len() == 0 || s.len() < from.len() {
        s
    } else if begins(s, from) {
        to + replace(s.skip(from.len() as int), from, to)
    } else {
        seq![s[0]] + replace(s.drop_first(), from, to)
    }
}

/// What stands before the first `p` in `s`, and what stands after it.
pub open spec fn around(s: Seq<char>, p: Seq<char>) -> Option<(Seq<char>, Seq<char>)>
    decreases s.len(),
{
    if begins(s, p) {
        Some((Seq::empty(), s.skip(p.len() as int)))
    } else if s.len() == 0 {
        None
    } else {
        match around(s.drop_first(), p) {
            Some((a, b)) => Some((seq![s[0]] + a, b)),
            None => None,
        }
    }
}

/// `around` cuts at the first occurrence.
pub proof fn lemma_around(s: Seq<char>, p: Seq<char>, i: int)
    requires
        occurs_at(s, p, i),
        forall|j: int| 0 <= j < i ==> !occurs_at(s, p, j),
    ensures
        around(s, p) == Some((s.take(i), s.skip(i + p.len()))),
    decreases i,
{
    if i == 0 {
        assert(s.subrange(0, p.len() as int) =~= s.take(p.len() as int));
        assert(s.take(0) =~= Seq::empty());
    } else {
        assert(!occurs_at(s, p, 0));
        if s.len() >= p.len() {
            assert(s.subrange(0, p.len() as int) =~= s.take(p.len() as int));
        }
        let t = s.drop_first();
        assert(t.subrange(i - 1, i - 1 + p.len()) =~= s.subrange(i, i + p.len()));
        assert forall|j: int| 0 <= j < i - 1 implies !occurs_at(t, p, j) by {
            assert(!occurs_at(s, p, j + 1));
            if j + p.len() <= t.len() {
                assert(t.subrange(j, j + p.len()) =~= s.subrange(j + 1, j + 1 + p.len()));
            }
        }
        lemma_around(t, p, i - 1);
        assert(seq![s[0]] + t.take(i - 1) =~= s.take(i));
        assert(t.skip(i - 1 + p.len()) =~= s.skip(i + p.len()));
    }
}

/// `around` finds nothing exactly where there is nothing to find.
pub proof fn lemma_around_none(s: Seq<char>, p: Seq<char>)
    requires
        !contains(s, p),
    ensures
        around(s, p) is None,
    decreases s.len(),
{
    assert(!occurs_at(s, p, 0));
    if s.len() >= p.len() {
        assert(s.subrange(0, p.len() as int) =~= s.take(p.len() as int));
    }
    if s.len() > 0 {
        let t = s.drop_first();
        assert forall|j: int| !occurs_at(t, p, j) by {
            assert(!occurs_at(s, p, j + 1));
            if 0 <= j && j + p.len() <= t.len() {
                assert(t.subrange(j, j + p.len()) =~= s.subrange(j + 1, j + 1 + p.len()));
            }
        }
        lemma_around_none(t, p);
    }
}

/// The first position at which `c` stands in `s`; the length of `s` if `c`
/// does not stand there.
pub open spec fn index_of(s: Seq<char>, c: char) -> int
    decreases s.len(),
{
    if s.len() == 0 || s[0] == c {
        0
    } else {
        1 + index_of(s.drop_first(), c)
    }
}

/// `index_of` is the first position of `c`, or the length where there is none.
pub proof fn lemma_index_of(s: Seq<char>, c: char)
    ensures
        0 <= index_of(s, c) <= s.len(),
        index_of(s, c) < s.len() ==> s[index_of(s, c)] == c,
        forall|i: int| 0 <= i < index_of(s, c) ==> s[i] != c,
    decreases s.len(),
{
    if s.len() > 0 && s[0] != c {
        lemma_index_of(s.drop_first(), c);
        let k = index_of(s.drop_first(), c);
        assert forall|i: int| 0 <= i < 1 + k implies s[i] != c by {
            if i > 0 {
                assert(s.drop_first()[i - 1] == s[i]);
            }
        }
    }
}

/// The first position of `c` is the one found by a scan.
pub proof fn lemma_index_of_is(s: Seq<char>, c: char, k: int)
    requires
        0 <= k <= s.len(),
        k < s.len() ==> s[k] == c,
        forall|i: int| 0 <= i < k ==> s[i] != c,
    ensures
        index_of(s, c) == k,
{
    lemma_index_of(s, c);
    let j = index_of(s, c);
    if j < k {
        assert(s[j] != c);
    }
}

/// Whether `p` stands in `cs` at position `i`.
fn matches_at(cs: &Vec<char>, p: &Vec<char>, i: usize) -> (r: bool)
    requires
        i <= cs@.len(),
    ensures
        r == occurs_at(cs@, p@, i as int),
{
    let n = cs.len();
    if n - i < p.len() {
        return false;
    }
    let mut j: usize = 0;
    while j < p.len()
        invariant
            n == cs@.len(),
            i + p@.len() <= n,
            j <= p@.len(),
            forall|k: int| 0 <= k < j ==> cs@[i + k] == p@[k],
        decreases p@.len() - j,
    {
        if cs[i + j] != p[j] {
            assert(cs@.subrange(i as int, i + p@.len())[j as int] == cs@[i + j]);
            return false;
        }
        j = j + 1;
    }
    assert(cs@.subrange(i as int, i + p@.len()) =~= p@);
    true
}

/// The first position at which `p` occurs in `cs`.
pub fn find_chars(cs: &Vec<char>, p: &Vec<char>) -> (r: Option<usize>)
    ensures
        match r {
            Some(i) => occurs_at(cs@, p@, i as int) && forall|j: int|
                0 <= j < i ==> !occurs_at(cs@, p@, j),
            None => !contains(cs@, p@),
        },
{
    let n = cs.len();
    let mut i: usize = 0;
    loop
        invariant
            n == cs@.len(),
            i <= n,
            forall|j: int| 0 <= j < i ==> !occurs_at(cs@, p@, j),
        decreases n - i,
    {
        if matches_at(cs, p, i) {
            return Some(i);
        }
        if i == n {
            assert forall|j: int| !occurs_at(cs@, p@, j) by {
                if j > n {
                    assert(j + p@.len() > cs@.len());
                }
            }
            return None;
        }
        i = i + 1;
    }
}

/// Whether `p` occurs in `s`.
pub fn includes(s: &str, p: &str) -> (r: bool)
    ensures
        r == contains(s@, p@),
{
    let cs = chars_of(s);
    let ps = chars_of(p);
    match find_chars(&cs, &ps) {
        Some(_) => true,
        None => false,
    }
}

/// Whether `s` begins with `p`.
pub fn starts(s: &str, p: &str) -> (r: bool)
    ensures
        r == begins(s@, p@),
{
    let cs = chars_of(s);
    let ps = chars_of(p);
    let r = matches_at(&cs, &ps, 0);
    if ps.len() <= cs.len() {
        assert(cs@.subrange(0, ps@.len() as int) =~= cs@.take(ps@.len() as int));
    }
    r
}

/// Whether `s` ends with `p`.
pub fn finishes(s: &str, p: &str) -> (r: bool)
    ensures
        r == ends(s@, p@),
{
    let cs = chars_of(s);
    let ps = chars_of(p);
    if ps.len() > cs.len() {
        return false;
    }
    let at = cs.len() - ps.len();
    assert(cs@.subrange(at as int, at + ps@.len()) =~= cs@.skip(at as int));
    matches_at(&cs, &ps, at)
}

/// What follows `p` at the start of `s`, if `s` begins with `p`.
pub fn stripped(s: &str, p: &str) -> (r: Option<String>)
    ensures
        match r {
            Some(t) => after_prefix(s@, p@) == Some(t@),
            None => after_prefix(s@, p@) is None,
        },
{
    if !starts(s, p) {
        return None;
    }
    let cs = chars_of(s);
    let ps = chars_of(p);
    assert(cs@.subrange(ps@.len() as int, cs@.len() as int) =~= cs@.skip(ps@.len() as int));
    Some(string_from(&cs, ps.len(), cs.len()))
}

/// What stands before the first `p` in `s`, and what stands after it.
pub fn cut_around(s: &str, p: &str) -> (r: Option<(String, String)>)
    ensures
        match r {
            Some((a, b)) => around(s@, p@) == Some((a@, b@)),
            None => around(s@, p@) is None,
        },
{
    let cs = chars_of(s);
    let ps = chars_of(p);
    match find_chars(&cs, &ps) {
        Some(i) => {
            let n = cs.len();
            let a = string_from(&cs, 0, i);
            let b = string_from(&cs, i + ps.len(), n);
            proof {
                lemma_around(s@, p@, i as int);
                assert(cs@.subrange(0, i as int) =~= s@.take(i as int));
                assert(cs@.subrange(i + ps@.len(), cs@.len() as int) =~= s@.skip(i + ps@.len()));
            }
            Some((a, b))
        },
        None => {
            proof {
                lemma_around_none(s@, p@);
            }
            None
        },
    }
}

/// `s` with each occurrence of `from` replaced by `to`.
pub fn replaced(s: &str, from: &str, to: &str) -> (r: String)
    ensures
        r@ == replace(s@, from@, to@),
{
    let cs = chars_of(s);
    let fs = chars_of(from);
    let n = cs.len();
    let m = fs.len();
    if m == 0 {
        return s.to_string();
    }
    let mut out = String::new();
    let mut i: usize = 0;
    assert(cs@.skip(0) =~= cs@);
    assert(out@ + replace(cs@.skip(0), fs@, to@) =~= replace(cs@, fs@, to@));
    while n - i >= m
        invariant
            n == cs@.len(),
            m == fs@.len(),
            m > 0,
            i <= n,
            fs@ == from@,
            replace(cs@, fs@, to@) == out@ + replace(cs@.skip(i as int), fs@, to@),
        decreases n - i,
    {
        let ghost rest = cs@.skip(i as int);
        let ghost before = out@;
        assert(rest.take(m as int) =~= cs@.subrange(i as int, i + m));
        if matches_at(&cs, &fs, i) {
            assert(rest.skip(m as int) =~= cs@.skip(i + m));
            out.append(to);
            i = i + m;
            assert(before + (to@ + replace(cs@.skip(i as int), fs@, to@)) =~= out@ + replace(
                cs@.skip(i as int),
                fs@,
                to@,
            ));
        } else {
            assert(rest.drop_first() =~= cs@.skip(i + 1));
            out.push(cs[i]);
            i = i + 1;
            assert(before + (seq![cs@[i - 1]] + replace(cs@.skip(i as int), fs@, to@)) =~= out@
                + replace(cs@.skip(i as int), fs@, to@));
        }
    }
    let tail = string_from(&cs, i, n);
    assert(tail@ =~= cs@.skip(i as int));
    out.append(tail.as_str());
    out
}

/// The first position of `c` in `cs`, or the length of `cs`.
pub fn position(cs: &Vec<char>, c: char) -> (r: usize)
    ensures
        r == index_of(cs@, c),
        r <= cs@.len(),
{
    let mut i: usize = 0;
    while i < cs.len() && cs[i] != c
        invariant
            i <= cs@.len(),
            forall|j: int| 0 <= j < i ==> cs@[j] != c,
        decreases cs@.len() - i,
    {
        i = i + 1;
    }
    proof {
        lemma_index_of_is(cs@, c, i as int);
    }
    i
}

/// A text that another one is put in front of ends the whole, and that one begins it.
pub proof fn lemma_ends_joined(a: Seq<char>, b: Seq<char>)
    ensures
        ends(a + b, b),
        begins(a + b, a),
{
    let s = a + b;
    assert(s.skip(s.len() - b.len()) =~= b);
    assert(s.take(a.len() as int) =~= a);
}

/// The first occurrence is replaced, and then those behind it; what stands before it stays.
pub proof fn lemma_replace(a: Seq<char>, from: Seq<char>, b: Seq<char>, to: Seq<char>)
    requires
        from.len() > 0,
        forall|j: int| 0 <= j < a.len() ==> !occurs_at(a + from + b, from, j),
    ensures
        replace(a + from + b, from, to) == a + to + replace(b, from, to),
    decreases a.len(),
{
    let s = a + from + b;
    if a.len() == 0 {
        assert(s.take(from.len() as int) =~= from);
        assert(s.skip(from.len() as int) =~= b);
        assert(a + to + replace(b, from, to) =~= to + replace(b, from, to));
    } else {
        let rest = a.drop_first();
        let t = rest + from + b;
        assert(s.drop_first() =~= t);
        assert(!occurs_at(s, from, 0));
        assert(s.subrange(0, from.len() as int) =~= s.take(from.len() as int));
        assert forall|j: int| 0 <= j < rest.len() implies !occurs_at(t, from, j) by {
            assert(!occurs_at(s, from, j + 1));
            if j + from.len() <= t.len() {
                assert(t.subrange(j, j + from.len()) =~= s.subrange(j + 1, j + 1 + from.len()));
            }
        }
        lemma_replace(rest, from, b, to);
        assert(seq![s[0]] + (rest + to + replace(b, from, to)) =~= a + to + replace(b, from, to));
    }
}

/// What follows a beginning is what was put behind it.
pub proof fn lemma_after_prefix(p: Seq<char>, rest: Seq<char>, s: Seq<char>)
    ensures
        after_prefix(p + rest, p) == Some(rest),
        after_prefix(s, p) matches Some(t) ==> s == p + t,
{
    assert((p + rest).take(p.len() as int) =~= p);
    assert((p + rest).skip(p.len() as int) =~= rest);
    if begins(s, p) {
        assert(s =~= s.take(p.len() as int) + s.skip(p.len() as int));
    }
}

} // verus!
