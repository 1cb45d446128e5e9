//! Cutting a text at a position in its UTF-8 encoding.

use vstd::prelude::*;

verus! {

/// The number of bytes of `s` in UTF-8.
pub open spec fn size(s: Seq<char>) -> nat {
    vstd::utf8::encode_utf8(s).len()
}

/// The UTF-8 encoding of `s` can be cut after `n` bytes: a character ends there.
pub open spec fn is_cut(s: Seq<char>, n: int) -> bool {
    vstd::utf8::is_char_boundary(vstd::utf8::encode_utf8(s), n)
}

/// The text in the first `n` bytes of `s`.
pub open spec fn head(s: Seq<char>, n: int) -> Seq<char> {
    vstd::utf8::decode_utf8(vstd::utf8::encode_utf8(s).subrange(0, n))
}

/// The text in the bytes of `s` from position `n` on.
pub open spec fn tail(s: Seq<char>, n: int) -> Seq<char> {
    vstd::utf8::decode_utf8(vstd::utf8::encode_utf8(s).subrange(n, size(s) as int))
}

/// The last position up to `n` at which `s` can be cut.
pub open spec fn cut_before(s: Seq<char>, n: int) -> int
    decreases n,
{
    if n <= 0 {
        0
    } else if is_cut(s, n) {
        n
    } else {
        cut_before(s, n - 1)
    }
}

/// The first position from `n` on at which `s` can be cut.
pub open spec fn cut_after(s: Seq<char>, n: int) -> int
    decreases size(s) - n,
{
    if n >= size(s) {
        size(s) as int
    } else if is_cut(s, n) {
        n
    } else {
        cut_after(s, n + 1)
    }
}

/// A text can be cut at the last position up to `n`, and at none between.
pub proof fn lemma_cut_before(s: Seq<char>, n: int)
    requires
        0 <= n,
    ensures
        0 <= cut_before(s, n) <= n,
        is_cut(s, cut_before(s, n)),
        forall|k: int| cut_before(s, n) < k <= n ==> !#[trigger] is_cut(s, k),
    decreases n,
{
    vstd::utf8::encode_utf8_valid_utf8(s);
    if n > 0 && !is_cut(s, n) {
        lemma_cut_before(s, n - 1);
    }
}

/// A text can be cut at the first position from `n` on, and at none between.
pub proof fn lemma_cut_after(s: Seq<char>, n: int)
    requires
        0 <= n <= size(s),
    ensures
        n <= cut_after(s, n) <= size(s),
        is_cut(s, cut_after(s, n)),
        forall|k: int| n <= k < cut_after(s, n) ==> !#[trigger] is_cut(s, k),
    decreases size(s) - n,
{
    vstd::utf8::encode_utf8_valid_utf8(s);
    vstd::utf8::is_char_boundary_start_end_of_seq(vstd::utf8::encode_utf8(s));
    if n < size(s) && !is_cut(s, n) {
        lemma_cut_after(s, n + 1);
    }
}

/// What follows a cut has as many bytes as there are behind it.
pub proof fn lemma_tail_size(s: Seq<char>, n: int)
    requires
        0 <= n <= size(s),
        is_cut(s, n),
    ensures
        size(tail(s, n)) == size(s) - n,
{
    let b = vstd::utf8::encode_utf8(s);
    vstd::utf8::encode_utf8_valid_utf8(s);
    vstd::utf8::valid_utf8_split(b, n);
    vstd::utf8::decode_utf8_encode_utf8(b.subrange(n, b.len() as int));
}

/// The encoding of two texts, one after the other, can be cut between them.
pub proof fn lemma_cut(a: Seq<char>, b: Seq<char>)
    ensures
        vstd::utf8::encode_utf8(a + b) == vstd::utf8::encode_utf8(a) + vstd::utf8::encode_utf8(b),
        is_cut(a + b, size(a) as int),
        head(a + b, size(a) as int) == a,
        tail(a + b, size(a) as int) == b,
    decreases a.len(),
{
    let all = vstd::utf8::encode_utf8(a + b);
    let first = vstd::utf8::encode_utf8(a);
    let second = vstd::utf8::encode_utf8(b);
    vstd::utf8::encode_utf8_valid_utf8(a + b);
    if a.len() == 0 {
        assert(a + b =~= b);
        assert(first + second =~= second);
    } else {
        let rest = a.drop_first();
        lemma_cut(rest, b);
        assert((a + b).drop_first() =~= rest + b);
        let c = vstd::utf8::encode_scalar(a[0] as u32);
        assert(all =~= first + second);
        vstd::utf8::encode_utf8_first_scalar(a + b);
        assert(vstd::utf8::pop_first_scalar(all) =~= vstd::utf8::encode_utf8(rest + b));
        assert(size(a) == c.len() + size(rest));
    }
    assert(all.subrange(0, first.len() as int) =~= first);
    assert(all.subrange(first.len() as int, all.len() as int) =~= second);
    vstd::utf8::encode_utf8_decode_utf8(a);
    vstd::utf8::encode_utf8_decode_utf8(b);
}

/// The number of bytes of `s` in UTF-8.
pub fn byte_count(s: &str) -> (r: usize)
    ensures
        r == size(s@),
{
    s.as_bytes().len()
}

/// Whether `s` can be cut after `n` bytes.
pub fn can_cut(s: &str, n: usize) -> (r: bool)
    ensures
        r == is_cut(s@, n as int),
{
    s.is_char_boundary(n)
}

/// The last position up to `n` at which `s` can be cut.
pub fn last_cut(s: &str, n: usize) -> (r: usize)
    ensures
        r == cut_before(s@, n as int),
        is_cut(s@, r as int),
{
    proof {
        lemma_cut_before(s@, n as int);
    }
    let mut k: usize = n;
    while k > 0 && !can_cut(s, k)
        invariant
            k <= n,
            cut_before(s@, n as int) == cut_before(s@, k as int),
        decreases k,
    {
        k = k - 1;
    }
    k
}

/// The first position from `n` on at which `s` can be cut.
pub fn next_cut(s: &str, n: usize) -> (r: usize)
    requires
        n <= size(s@),
    ensures
        r == cut_after(s@, n as int),
        n <= r <= size(s@),
        is_cut(s@, r as int),
{
    proof {
        lemma_cut_after(s@, n as int);
    }
    let all: usize = byte_count(s);
    let mut k: usize = n;
    while k < all && !can_cut(s, k)
        invariant
            n <= k <= all,
            all == size(s@),
            cut_after(s@, n as int) == cut_after(s@, k as int),
        decreases all - k,
    {
        k = k + 1;
    }
    k
}

/// The text in the first `n` bytes of `s`.
pub fn head_bytes(s: &str, n: usize) -> (r: String)
    requires
        is_cut(s@, n as int),
    ensures
        r@ == head(s@, n as int),
{
    let (a, _) = s.split_at(n);
    proof {
        vstd::utf8::encode_utf8_decode_utf8(a@);
    }
    a.to_string()
}

/// The text in the bytes of `s` from position `n` on.
pub fn tail_bytes(s: &str, n: usize) -> (r: String)
    requires
        is_cut(s@, n as int),
    ensures
        r@ == tail(s@, n as int),
{
    let (_, b) = s.split_at(n);
    proof {
        vstd::utf8::encode_utf8_decode_utf8(b@);
    }
    b.to_string()
}

} // verus!
