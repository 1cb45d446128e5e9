//! Removing white space, or a given character, from the ends of a text.

use vstd::prelude::*;

use crate::text::bytes;
use crate::text::chars::{self, chars_of, space, string_from};

verus! {

/// `s` without its leading white space.
pub open spec fn trim_start(s: Seq<char>) -> Seq<char>
    decreases s.len(),
{
    if s.len() > 0 && chars::is_space(s[0]) {
        trim_start(s.drop_first())
    } else {
        s
    }
}

/// `s` without its trailing white space.
pub open spec fn trim_end(s: Seq<char>) -> Seq<char>
    decreases s.len(),
{
    if s.len() > 0 && chars::is_space(s.last()) {
        trim_end(s.drop_last())
    } else {
        s
    }
}

/// `s` without leading and trailing white space.
pub open spec fn trim(s: Seq<char>) -> Seq<char> {
    trim_end(trim_start(s))
}

/// Whether nothing but white space is in `s`.
pub open spec fn is_blank(s: Seq<char>) -> bool {
    trim(s).len() == 0
}

/// `s` without the copies of `c` at its start.
pub open spec fn trim_start_char(s: Seq<char>, c: char) -> Seq<char>
    decreases s.len(),
{
    if s.len() > 0 && s[0] == c {
        trim_start_char(s.drop_first(), c)
    } else {
        s
    }
}

/// `s` without the copies of `c` at its end.
pub open spec fn trim_end_char(s: Seq<char>, c: char) -> Seq<char>
    decreases s.len(),
{
    if s.len() > 0 && s.last() == c {
        trim_end_char(s.drop_last(), c)
    } else {
        s
    }
}

/// What `trim_end` keeps: a prefix whose last character is no white space.
pub proof fn lemma_trim_end_shape(s: Seq<char>)
    ensures
        trim_end(s).len() <= s.len(),
        trim_end(s) == s.take(trim_end(s).len() as int),
        trim_end(s).len() > 0 ==> !chars::is_space(trim_end(s).last()),
        forall|i: int| trim_end(s).len() <= i < s.len() ==> chars::is_space(#[trigger] s[i]),
    decreases s.len(),
{
    if s.len() > 0 && chars::is_space(s.last()) {
        lemma_trim_end_shape(s.drop_last());
        let n = trim_end(s.drop_last()).len() as int;
        assert(s.drop_last().take(n) =~= s.take(n));
        assert forall|i: int| n <= i < s.len() implies chars::is_space(#[trigger] s[i]) by {
            if i < s.len() - 1 {
                assert(s.drop_last()[i] == s[i]);
            }
        }
    } else {
        assert(s.take(s.len() as int) =~= s);
    }
}

/// What `trim_start` keeps: a suffix whose first character is no white space.
pub proof fn lemma_trim_start_shape(s: Seq<char>)
    ensures
        trim_start(s).len() <= s.len(),
        trim_start(s) == s.skip(s.len() - trim_start(s).len()),
        trim_start(s).len() > 0 ==> !chars::is_space(trim_start(s)[0]),
        forall|i: int| 0 <= i < s.len() - trim_start(s).len() ==> chars::is_space(#[trigger] s[i]),
    decreases s.len(),
{
    if s.len() > 0 && chars::is_space(s[0]) {
        let t = s.drop_first();
        lemma_trim_start_shape(t);
        let k = t.len() - trim_start(t).len();
        assert(t.skip(k) =~= s.skip(k + 1));
        assert forall|i: int| 0 <= i < k + 1 implies chars::is_space(#[trigger] s[i]) by {
            if i > 0 {
                assert(t[i - 1] == s[i]);
            }
        }
    } else {
        assert(s.skip(0) =~= s);
    }
}

/// Trimming twice is trimming once.
pub proof fn lemma_trim_idempotent(s: Seq<char>)
    ensures
        trim(trim(s)) == trim(s),
{
    let a = trim_start(s);
    lemma_trim_start_shape(s);
    lemma_trim_end_shape(a);
    let t = trim_end(a);
    if t.len() > 0 {
        assert(t[0] == a[0]);
        assert(trim_start(t) == t);
    }
}

/// A text with no white space at either end is its own trimming.
pub proof fn lemma_trim_fixed(s: Seq<char>)
    requires
        s.len() > 0 ==> !chars::is_space(s[0]) && !chars::is_space(s.last()),
    ensures
        trim(s) == s,
{
}

/// A text is blank exactly when each of its characters is white space.
pub proof fn lemma_blank(s: Seq<char>)
    ensures
        is_blank(s) <==> (forall|i: int| 0 <= i < s.len() ==> chars::is_space(#[trigger] s[i])),
{
    let a = trim_start(s);
    lemma_trim_start_shape(s);
    lemma_trim_end_shape(a);
    let k = s.len() - a.len();
    if is_blank(s) {
        assert forall|i: int| 0 <= i < s.len() implies chars::is_space(#[trigger] s[i]) by {
            if i >= k {
                assert(a[i - k] == s[i]);
            }
        }
    } else {
        assert(a[0] == s[k]);
    }
}

/// The range of `cs` that is left after trimming.
fn trim_range(cs: &Vec<char>) -> (r: (usize, usize))
    ensures
        r.0 <= r.1 <= cs@.len(),
        cs@.subrange(r.0 as int, r.1 as int) == trim(cs@),
{
    let n = cs.len();
    let mut lo: usize = 0;
    assert(cs@.skip(0) =~= cs@);
    while lo < n && space(cs[lo])
        invariant
            n == cs@.len(),
            lo <= n,
            trim_start(cs@) == trim_start(cs@.skip(lo as int)),
        decreases n - lo,
    {
        assert(cs@.skip(lo as int).drop_first() =~= cs@.skip(lo + 1));
        lo = lo + 1;
    }
    assert(trim_start(cs@) == cs@.skip(lo as int));
    let mut hi: usize = n;
    assert(cs@.subrange(lo as int, n as int) =~= cs@.skip(lo as int));
    while lo < hi && space(cs[hi - 1])
        invariant
            n == cs@.len(),
            lo <= hi <= n,
            trim(cs@) == trim_end(cs@.subrange(lo as int, hi as int)),
        decreases hi,
    {
        assert(cs@.subrange(lo as int, hi as int).drop_last() =~= cs@.subrange(
            lo as int,
            hi - 1,
        ));
        hi = hi - 1;
    }
    (lo, hi)
}

/// A copy of `s` without leading and trailing white space.
pub fn trimmed(s: &str) -> (r: String)
    ensures
        r@ == trim(s@),
{
    let cs = chars_of(s);
    let (lo, hi) = trim_range(&cs);
    string_from(&cs, lo, hi)
}

/// The part of `s` without leading and trailing white space.
pub fn trimmed_part(s: &str) -> (r: &str)
    ensures
        r@ == trim(s@),
{
    let start = start_trimmed(s);
    let bare = trimmed(s);
    proof {
        lemma_trim_start_shape(s@);
        lemma_trim_end_shape(start@);
        let k = s@.len() - start@.len();
        assert(s@.take(k) + start@ =~= s@);
        bytes::lemma_cut(s@.take(k), start@);
        let n = bare@.len() as int;
        assert(bare@ + start@.skip(n) =~= start@);
        bytes::lemma_cut(bare@, start@.skip(n));
    }
    let (_, rest) = s.split_at(bytes::byte_count(s) - bytes::byte_count(start.as_str()));
    proof {
        vstd::utf8::encode_utf8_decode_utf8(rest@);
        assert(rest@ == start@);
    }
    let (r, _) = rest.split_at(bytes::byte_count(bare.as_str()));
    proof {
        vstd::utf8::encode_utf8_decode_utf8(r@);
    }
    r
}

/// Whether `s` holds nothing but white space.
pub fn blank(s: &str) -> (r: bool)
    ensures
        r == is_blank(s@),
{
    let cs = chars_of(s);
    let (lo, hi) = trim_range(&cs);
    assert(cs@.subrange(lo as int, hi as int).len() == hi - lo);
    lo == hi
}

/// A copy of `s` without its leading white space.
pub fn start_trimmed(s: &str) -> (r: String)
    ensures
        r@ == trim_start(s@),
{
    let cs = chars_of(s);
    let n = cs.len();
    let mut lo: usize = 0;
    assert(cs@.skip(0) =~= cs@);
    while lo < n && space(cs[lo])
        invariant
            n == cs@.len(),
            lo <= n,
            trim_start(cs@) == trim_start(cs@.skip(lo as int)),
        decreases n - lo,
    {
        assert(cs@.skip(lo as int).drop_first() =~= cs@.skip(lo + 1));
        lo = lo + 1;
    }
    assert(cs@.subrange(lo as int, n as int) =~= cs@.skip(lo as int));
    string_from(&cs, lo, n)
}

/// A copy of `s` without the copies of `c` at its start.
pub fn start_char_trimmed(s: &str, c: char) -> (r: String)
    ensures
        r@ == trim_start_char(s@, c),
{
    let cs = chars_of(s);
    let n = cs.len();
    let mut lo: usize = 0;
    assert(cs@.skip(0) =~= cs@);
    while lo < n && cs[lo] == c
        invariant
            n == cs@.len(),
            lo <= n,
            trim_start_char(cs@, c) == trim_start_char(cs@.skip(lo as int), c),
        decreases n - lo,
    {
        assert(cs@.skip(lo as int).drop_first() =~= cs@.skip(lo + 1));
        lo = lo + 1;
    }
    assert(cs@.subrange(lo as int, n as int) =~= cs@.skip(lo as int));
    string_from(&cs, lo, n)
}

/// A copy of `s` without the copies of `c` at its end.
pub fn end_char_trimmed(s: &str, c: char) -> (r: String)
    ensures
        r@ == trim_end_char(s@, c),
{
    let cs = chars_of(s);
    let mut hi: usize = cs.len();
    assert(cs@.take(hi as int) =~= cs@);
    while hi > 0 && cs[hi - 1] == c
        invariant
            hi <= cs@.len(),
            trim_end_char(cs@, c) == trim_end_char(cs@.take(hi as int), c),
        decreases hi,
    {
        assert(cs@.take(hi as int).drop_last() =~= cs@.take(hi - 1));
        hi = hi - 1;
    }
    assert(cs@.subrange(0, hi as int) =~= cs@.take(hi as int));
    string_from(&cs, 0, hi)
}

/// What is left of a text with white space around it is that text.
pub proof fn lemma_trim_around(a: Seq<char>, t: Seq<char>, b: Seq<char>)
    requires
        is_blank(a),
        is_blank(b),
        t.len() > 0 ==> !chars::is_space(t[0]) && !chars::is_space(t.last()),
    ensures
        trim(a + t + b) == t,
    decreases a.len() + b.len(),
{
    lemma_blank(a);
    lemma_blank(b);
    let s = a + t + b;
    if t.len() == 0 {
        assert forall|i: int| 0 <= i < s.len() implies chars::is_space(#[trigger] s[i]) by {
            if i < a.len() {
                assert(s[i] == a[i]);
            } else {
                assert(s[i] == b[i - a.len()]);
            }
        }
        lemma_blank(s);
        assert(trim(s) =~= t);
    } else {
        lemma_trim_start_shape(s);
        let k = s.len() - trim_start(s).len();
        if k < a.len() {
            assert(trim_start(s)[0] == s[k]);
            assert(s[k] == a[k]);
        }
        if k > a.len() {
            assert(s[a.len() as int] == t[0]);
        }
        let rest = trim_start(s);
        assert(rest =~= t + b);
        lemma_trim_end_shape(rest);
        let n = trim_end(rest).len() as int;
        if n < t.len() {
            assert(rest[t.len() - 1] == t.last());
        }
        if n > t.len() {
            assert(trim_end(rest).last() == rest[n - 1]);
            assert(rest[n - 1] == b[n - 1 - t.len()]);
        }
        assert(trim_end(rest) =~= t);
    }
}

/// The copies of a character at the ends of a text are removed, and no others.
pub proof fn lemma_trim_chars(t: Seq<char>, c: char, n: nat)
    requires
        t.len() > 0 ==> t[0] != c && t.last() != c,
    ensures
        trim_end_char(t + Seq::new(n, |i: int| c), c) == t,
        trim_start_char(Seq::new(n, |i: int| c) + t, c) == t,
    decreases n,
{
    if n == 0 {
        assert(t + Seq::new(n, |i: int| c) =~= t);
        assert(Seq::new(n, |i: int| c) + t =~= t);
    } else {
        let m = (n - 1) as nat;
        lemma_trim_chars(t, c, m);
        assert((t + Seq::new(n, |i: int| c)).drop_last() =~= t + Seq::new(m, |i: int| c));
        assert((Seq::new(n, |i: int| c) + t).drop_first() =~= Seq::new(m, |i: int| c) + t);
    }
}

} // verus!
