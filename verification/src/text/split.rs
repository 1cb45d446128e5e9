//! Cutting text into lines and words, and joining pieces again.

use vstd::prelude::*;

use crate::text::chars::{self, chars_of, space, string_from};
use crate::text::search::{self, position};
use crate::text::trim;

verus! {

/// `s` without one carriage return at its end.
pub open spec fn without_cr(s: Seq<char>) -> Seq<char> {
    if s.len() > 0 && s.last() == '\r' {
        s.drop_last()
    } else {
        s
    }
}

/// The lines of `s`: each ends at a line feed, with a carriage return before
/// it dropped; what follows the last line feed is a line unless it is empty.
pub open spec fn lines(s: Seq<char>) -> Seq<Seq<char>>
    decreases s.len(),
{
    if s.len() == 0 {
        Seq::empty()
    } else {
        proof {
            search::lemma_index_of(s, '\n');
        }
        let k = search::index_of(s, '\n');
        if k >= s.len() {
            seq![s]
        } else {
            seq![without_cr(s.take(k))] + lines(s.skip(k + 1))
        }
    }
}

/// How many characters at the start of `s` are no white space.
pub open spec fn word_len(s: Seq<char>) -> nat
    decreases s.len(),
{
    if s.len() == 0 || chars::is_space(s[0]) {
        0
    } else {
        1 + word_len(s.drop_first())
    }
}

/// A word is no longer than the text that it starts.
pub proof fn lemma_word_len(s: Seq<char>)
    ensures
        word_len(s) <= s.len(),
        forall|i: int| 0 <= i < word_len(s) ==> !chars::is_space(#[trigger] s[i]),
        word_len(s) < s.len() ==> chars::is_space(s[word_len(s) as int]),
    decreases s.len(),
{
    if s.len() > 0 && !chars::is_space(s[0]) {
        let t = s.drop_first();
        lemma_word_len(t);
        assert forall|i: int| 0 <= i < word_len(s) implies !chars::is_space(#[trigger] s[i]) by {
            if i > 0 {
                assert(t[i - 1] == s[i]);
            }
        }
    }
}

/// The maximal runs of `s` without white space, in order.
pub open spec fn words(s: Seq<char>) -> Seq<Seq<char>>
    decreases s.len(),
{
    if s.len() == 0 {
        Seq::empty()
    } else if chars::is_space(s[0]) {
        words(s.drop_first())
    } else {
        proof {
            lemma_word_len(s);
        }
        let k = word_len(s) as int;
        seq![s.take(k)] + words(s.skip(k))
    }
}

/// A line and a line feed are one line.
pub proof fn lemma_one_line(line: Seq<char>)
    requires
        forall|i: int| 0 <= i < line.len() ==> line[i] != '\n' && line[i] != '\r',
    ensures
        lines(line + "\n"@) == seq![line],
{
    reveal_strlit("\n");
    let s = line + "\n"@;
    search::lemma_index_of_is(s, '\n', line.len() as int);
    assert(s.take(line.len() as int) =~= line);
    assert(s.skip(line.len() as int + 1) =~= Seq::empty());
    assert(lines(Seq::<char>::empty()) =~= Seq::empty());
    assert(lines(s) =~= seq![line]);
}

/// The pieces of `v` with `sep` between each two.
pub open spec fn join(v: Seq<Seq<char>>, sep: Seq<char>) -> Seq<char>
    decreases v.len(),
{
    if v.len() == 0 {
        Seq::empty()
    } else if v.len() == 1 {
        v[0]
    } else {
        join(v.drop_last(), sep) + sep + v.last()
    }
}

/// The first piece of `v` stands before the separator and the other pieces.
pub proof fn lemma_join_first(v: Seq<Seq<char>>, sep: Seq<char>)
    requires
        v.len() >= 2,
    ensures
        join(v, sep) == v[0] + sep + join(v.drop_first(), sep),
    decreases v.len(),
{
    let w = v.drop_first();
    if v.len() == 2 {
        assert(join(v.drop_last(), sep) == v[0]);
        assert(join(w, sep) == w[0]);
        assert(join(v, sep) =~= v[0] + sep + join(w, sep));
    } else {
        lemma_join_first(v.drop_last(), sep);
        assert(v.drop_last().drop_first() =~= w.drop_last());
        assert(join(v, sep) =~= v[0] + sep + join(w, sep));
    }
}

/// The last `n` pieces of `v`, or all of them where there are fewer.
pub open spec fn last_pieces<T>(v: Seq<T>, n: nat) -> Seq<T> {
    if v.len() <= n {
        v
    } else {
        v.skip(v.len() - n)
    }
}

/// The lines of `s` that are not blank, each without the white space around it.
pub open spec fn filled_lines(v: Seq<Seq<char>>) -> Seq<Seq<char>>
    decreases v.len(),
{
    if v.len() == 0 {
        Seq::empty()
    } else if trim::is_blank(v.last()) {
        filled_lines(v.drop_last())
    } else {
        filled_lines(v.drop_last()).push(trim::trim(v.last()))
    }
}

/// The part of `s` before the first `c` and the part after it.
pub open spec fn split_once(s: Seq<char>, c: char) -> Option<(Seq<char>, Seq<char>)> {
    let k = search::index_of(s, c);
    if k < s.len() {
        Some((s.take(k), s.skip(k + 1)))
    } else {
        None
    }
}

/// The pieces of `s` between the occurrences of `c`; empty pieces count.
pub open spec fn split_on(s: Seq<char>, c: char) -> Seq<Seq<char>>
    decreases s.len(),
{
    proof {
        search::lemma_index_of(s, c);
    }
    let k = search::index_of(s, c);
    if k >= s.len() {
        seq![s]
    } else {
        seq![s.take(k)] + split_on(s.skip(k + 1), c)
    }
}

/// The lines of `s`.
pub fn split_lines(s: &str) -> (r: Vec<String>)
    ensures
        chars::texts(r@) == lines(s@),
{
    let cs = chars_of(s);
    let n = cs.len();
    let mut out: Vec<String> = Vec::new();
    let mut from: usize = 0;
    assert(cs@.skip(0) =~= cs@);
    assert(chars::texts(out@) + lines(cs@) =~= lines(cs@));
    while from < n
        invariant
            n == cs@.len(),
            from <= n,
            lines(cs@) == chars::texts(out@) + lines(cs@.skip(from as int)),
        decreases n - from,
    {
        let ghost rest = cs@.skip(from as int);
        let ghost start = from as int;
        let ghost before = out@;
        let mut k: usize = from;
        while k < n && cs[k] != '\n'
            invariant
                n == cs@.len(),
                from <= k <= n,
                forall|j: int| from <= j < k ==> cs@[j] != '\n',
            decreases n - k,
        {
            k = k + 1;
        }
        proof {
            assert forall|i: int| 0 <= i < k - from implies rest[i] != '\n' by {
                assert(rest[i] == cs@[from + i]);
            }
            search::lemma_index_of_is(rest, '\n', k - from);
        }
        if k == n {
            let piece = string_from(&cs, from, n);
            assert(piece@ =~= rest);
            out.push(piece);
            from = n;
            assert(chars::texts(out@) =~= chars::texts(before).push(rest));
            assert(cs@.skip(n as int) =~= Seq::<char>::empty());
            assert(chars::texts(before) + seq![rest] =~= chars::texts(out@) + lines(
                cs@.skip(n as int),
            ));
        } else {
            let mut end: usize = k;
            if k > from && cs[k - 1] == '\r' {
                end = k - 1;
            }
            let piece = string_from(&cs, from, end);
            let ghost line = rest.take(k - from);
            assert(line =~= cs@.subrange(from as int, k as int));
            assert(piece@ =~= without_cr(line));
            out.push(piece);
            from = k + 1;
            assert(rest.skip(k - start + 1) =~= cs@.skip(from as int));
            assert(chars::texts(out@) =~= chars::texts(before).push(without_cr(line)));
            assert(chars::texts(before) + (seq![without_cr(line)] + lines(cs@.skip(from as int)))
                =~= chars::texts(out@) + lines(cs@.skip(from as int)));
        }
    }
    assert(cs@.skip(from as int) =~= Seq::<char>::empty());
    assert(chars::texts(out@) + Seq::<Seq<char>>::empty() =~= chars::texts(out@));
    out
}

/// The words of `s`.
pub fn split_words(s: &str) -> (r: Vec<String>)
    ensures
        chars::texts(r@) == words(s@),
{
    let cs = chars_of(s);
    let n = cs.len();
    let mut out: Vec<String> = Vec::new();
    let mut from: usize = 0;
    assert(cs@.skip(0) =~= cs@);
    assert(chars::texts(out@) + words(cs@) =~= words(cs@));
    while from < n
        invariant
            n == cs@.len(),
            from <= n,
            words(cs@) == chars::texts(out@) + words(cs@.skip(from as int)),
        decreases n - from,
    {
        let ghost rest = cs@.skip(from as int);
        if space(cs[from]) {
            assert(rest.drop_first() =~= cs@.skip(from + 1));
            from = from + 1;
        } else {
            let ghost before = out@;
            let mut k: usize = from;
            assert(cs@.skip(k as int) =~= rest);
            while k < n && !space(cs[k])
                invariant
                    n == cs@.len(),
                    from <= k <= n,
                    word_len(cs@.skip(from as int)) == k - from + word_len(cs@.skip(k as int)),
                decreases n - k,
            {
                assert(cs@.skip(k as int).drop_first() =~= cs@.skip(k + 1));
                k = k + 1;
            }
            assert(word_len(rest) == k - from);
            let piece = string_from(&cs, from, k);
            assert(piece@ =~= rest.take(k - from));
            assert(rest.skip(k - from) =~= cs@.skip(k as int));
            proof {
                assert(word_len(rest) > 0);
            }
            out.push(piece);
            from = k;
            assert(chars::texts(out@) =~= chars::texts(before).push(piece@));
            assert(chars::texts(before) + (seq![piece@] + words(cs@.skip(from as int)))
                =~= chars::texts(out@) + words(cs@.skip(from as int)));
        }
    }
    assert(cs@.skip(from as int) =~= Seq::<char>::empty());
    assert(chars::texts(out@) + Seq::<Seq<char>>::empty() =~= chars::texts(out@));
    out
}

/// The pieces of `s` between the occurrences of `c`.
pub fn split_at_each(s: &str, c: char) -> (r: Vec<String>)
    ensures
        chars::texts(r@) == split_on(s@, c),
{
    let cs = chars_of(s);
    let n = cs.len();
    let mut out: Vec<String> = Vec::new();
    let mut from: usize = 0;
    assert(cs@.skip(0) =~= cs@);
    assert(chars::texts(out@) + split_on(cs@, c) =~= split_on(cs@, c));
    loop
        invariant
            n == cs@.len(),
            cs@ == s@,
            from <= n,
            split_on(cs@, c) == chars::texts(out@) + split_on(cs@.skip(from as int), c),
        decreases n - from,
    {
        let ghost rest = cs@.skip(from as int);
        let ghost start = from as int;
        let ghost before = out@;
        let mut k: usize = from;
        while k < n && cs[k] != c
            invariant
                n == cs@.len(),
                from <= k <= n,
                forall|j: int| from <= j < k ==> cs@[j] != c,
            decreases n - k,
        {
            k = k + 1;
        }
        proof {
            assert forall|i: int| 0 <= i < k - from implies rest[i] != c by {
                assert(rest[i] == cs@[from + i]);
            }
            search::lemma_index_of_is(rest, c, k - from);
        }
        let piece = string_from(&cs, from, k);
        assert(piece@ =~= rest.take(k - from));
        out.push(piece);
        assert(chars::texts(out@) =~= chars::texts(before).push(rest.take(k - from)));
        if k == n {
            assert(rest.take(k - from) =~= rest);
            assert(chars::texts(before) + seq![rest] =~= chars::texts(out@));
            return out;
        }
        from = k + 1;
        assert(rest.skip(k - start + 1) =~= cs@.skip(from as int));
        assert(chars::texts(before) + (seq![rest.take(k - start)] + split_on(
            cs@.skip(from as int),
            c,
        )) =~= chars::texts(out@) + split_on(cs@.skip(from as int), c));
    }
}

/// The part of `s` before the first `c` and the part after it.
pub fn cut_once(s: &str, c: char) -> (r: Option<(String, String)>)
    ensures
        match r {
            Some((a, b)) => split_once(s@, c) == Some((a@, b@)),
            None => split_once(s@, c) is None,
        },
{
    let cs = chars_of(s);
    let k = position(&cs, c);
    if k < cs.len() {
        let a = string_from(&cs, 0, k);
        let b = string_from(&cs, k + 1, cs.len());
        assert(a@ =~= s@.take(k as int));
        assert(b@ =~= s@.skip(k + 1));
        Some((a, b))
    } else {
        None
    }
}

/// The strings of `v` from position `lo` up to `hi`, with `sep` between each two.
pub fn joined_range(v: &Vec<String>, lo: usize, hi: usize, sep: &str) -> (r: String)
    requires
        lo <= hi <= v@.len(),
    ensures
        r@ == join(chars::texts(v@).subrange(lo as int, hi as int), sep@),
{
    let mut out = String::new();
    let mut i: usize = lo;
    let ghost t = chars::texts(v@);
    assert(t.subrange(lo as int, lo as int) =~= Seq::<Seq<char>>::empty());
    while i < hi
        invariant
            lo <= i <= hi <= v@.len(),
            t == chars::texts(v@),
            out@ == join(t.subrange(lo as int, i as int), sep@),
        decreases hi - i,
    {
        let ghost before = out@;
        if i > lo {
            out.append(sep);
        }
        out.append(v[i].as_str());
        proof {
            let u = t.subrange(lo as int, i + 1);
            assert(u.drop_last() =~= t.subrange(lo as int, i as int));
            assert(u.last() == v@[i as int]@);
            if i == lo {
                assert(out@ =~= u[0]);
            }
        }
        i = i + 1;
    }
    out
}

/// The strings of `v` with `sep` between each two.
pub fn joined(v: &Vec<String>, sep: &str) -> (r: String)
    ensures
        r@ == join(chars::texts(v@), sep@),
{
    assert(chars::texts(v@).subrange(0, v@.len() as int) =~= chars::texts(v@));
    joined_range(v, 0, v.len(), sep)
}

/// The last `n` lines of `content`, with a line feed between each two.
pub fn joined_tail(content: &str, n: usize) -> (r: String)
    ensures
        r@ == join(last_pieces(lines(content@), n as nat), "\n"@),
{
    let v = split_lines(content);
    let lo: usize = if v.len() > n {
        v.len() - n
    } else {
        0
    };
    assert(chars::texts(v@).subrange(lo as int, v@.len() as int) =~= last_pieces(
        lines(content@),
        n as nat,
    ));
    joined_range(&v, lo, v.len(), "\n")
}

/// The lines of `s` that are not blank, each without the white space around it.
pub fn split_filled_lines(s: &str) -> (r: Vec<String>)
    ensures
        chars::texts(r@) == filled_lines(lines(s@)),
{
    let all = split_lines(s);
    let mut out: Vec<String> = Vec::new();
    let mut i: usize = 0;
    let ghost t = lines(s@);
    assert(chars::texts(out@) =~= filled_lines(t.take(0)));
    while i < all.len()
        invariant
            i <= all@.len(),
            t == chars::texts(all@),
            chars::texts(out@) == filled_lines(t.take(i as int)),
        decreases all@.len() - i,
    {
        proof {
            assert(t.take(i + 1).drop_last() =~= t.take(i as int));
            assert(t.take(i + 1).last() == all@[i as int]@);
        }
        if !trim::blank(all[i].as_str()) {
            let line = trim::trimmed(all[i].as_str());
            chars::push_text(&mut out, line.as_str());
        }
        i = i + 1;
    }
    assert(t.take(i as int) =~= t);
    out
}

/// Lines that end in a line feed, and the lines behind them.
pub proof fn lemma_lines_joined(a: Seq<char>, b: Seq<char>)
    requires
        a.len() > 0 ==> a.last() == '\n',
    ensures
        lines(a + b) == lines(a) + lines(b),
    decreases a.len(),
{
    if a.len() == 0 {
        assert(a + b =~= b);
        assert(lines(a) + lines(b) =~= lines(b));
    } else {
        let k = search::index_of(a, '\n');
        search::lemma_index_of(a, '\n');
        assert(k < a.len()) by {
            assert(a[a.len() - 1] == '\n');
        }
        search::lemma_index_of_is(a + b, '\n', k);
        let rest = a.skip(k + 1);
        assert((a + b).take(k) =~= a.take(k));
        assert((a + b).skip(k + 1) =~= rest + b);
        if rest.len() > 0 {
            assert(rest.last() == a.last());
        }
        lemma_lines_joined(rest, b);
        assert(lines(a + b) =~= lines(a) + lines(b));
    }
}

/// A line of its own is one line, with or without the line feed that ends it.
pub proof fn lemma_single_line(line: Seq<char>)
    requires
        line.len() > 0,
        forall|i: int| 0 <= i < line.len() ==> line[i] != '\n',
    ensures
        lines(line) == seq![line],
        lines(line.push('\n')) == seq![without_cr(line)],
{
    search::lemma_index_of_is(line, '\n', line.len() as int);
    let s = line.push('\n');
    search::lemma_index_of_is(s, '\n', line.len() as int);
    assert(s.take(line.len() as int) =~= line);
    assert(s.skip(line.len() as int + 1) =~= Seq::empty());
    assert(lines(Seq::<char>::empty()) =~= Seq::empty());
    assert(lines(s) =~= seq![without_cr(line)]);
}

/// Pieces that hold no line feed, joined by line feeds, are the lines of the text, if the
/// last one is not empty and none ends in a carriage return.
pub proof fn lemma_lines_of_joined(v: Seq<Seq<char>>)
    requires
        forall|i: int, j: int|
            0 <= i < v.len() && 0 <= j < v[i].len() ==> #[trigger] v[i][j] != '\n' && v[i][j] != '\r',
        v.len() > 0 ==> v.last().len() > 0,
    ensures
        lines(join(v, "\n"@)) == v,
    decreases v.len(),
{
    reveal_strlit("\n");
    if v.len() == 0 {
        assert(v =~= Seq::empty());
    } else if v.len() == 1 {
        assert forall|i: int| 0 <= i < v[0].len() implies v[0][i] != '\n' by {
            assert(v[0][i] != '\n');
        }
        lemma_single_line(v[0]);
        assert(v =~= seq![v[0]]);
    } else {
        let w = v.drop_first();
        assert forall|i: int, j: int| 0 <= i < w.len() && 0 <= j < w[i].len() implies #[trigger] w[i][j]
            != '\n' && w[i][j] != '\r' by {
            assert(w[i] == v[i + 1]);
            assert(v[i + 1][j] != '\n');
        }
        lemma_lines_of_joined(w);
        lemma_join_first(v, "\n"@);
        let first = v[0] + "\n"@;
        assert forall|i: int| 0 <= i < v[0].len() implies v[0][i] != '\n' && v[0][i] != '\r' by {
            assert(v[0][i] != '\n');
        }
        lemma_one_line(v[0]);
        lemma_lines_joined(first, join(w, "\n"@));
        assert(join(v, "\n"@) =~= first + join(w, "\n"@));
        assert(v =~= seq![v[0]] + w);
    }
}

/// How long a word is that white space or nothing follows.
proof fn lemma_word_len_is(s: Seq<char>, k: int)
    requires
        0 <= k <= s.len(),
        forall|i: int| 0 <= i < k ==> !chars::is_space(#[trigger] s[i]),
        k < s.len() ==> chars::is_space(s[k]),
    ensures
        word_len(s) == k,
    decreases s.len(),
{
    if k > 0 {
        let t = s.drop_first();
        assert(!chars::is_space(s[0]));
        assert forall|i: int| 0 <= i < k - 1 implies !chars::is_space(#[trigger] t[i]) by {
            assert(t[i] == s[i + 1]);
        }
        lemma_word_len_is(t, k - 1);
    }
}

/// A word, a space and more are that word and the words of the rest.
pub proof fn lemma_words_first(word: Seq<char>, rest: Seq<char>)
    requires
        word.len() > 0,
        forall|i: int| 0 <= i < word.len() ==> !chars::is_space(#[trigger] word[i]),
    ensures
        words(word.push(' ') + rest) == seq![word] + words(rest),
        words(word) == seq![word],
{
    let s = word.push(' ') + rest;
    let k = word.len() as int;
    assert forall|i: int| 0 <= i < k implies !chars::is_space(#[trigger] s[i]) by {
        assert(s[i] == word[i]);
    }
    assert(s[k] == ' ');
    lemma_word_len_is(s, k);
    assert(s.take(k) =~= word);
    let more = s.skip(k);
    assert(more[0] == ' ');
    assert(more.drop_first() =~= rest);
    assert(!chars::is_space(s[0]));
    assert(words(more) == words(rest));
    lemma_word_len_is(word, k);
    assert(word.take(k) =~= word);
    assert(word.skip(k) =~= Seq::empty());
    assert(!chars::is_space(word[0]));
    assert(words(Seq::<char>::empty()) =~= Seq::empty());
    assert(words(word) =~= seq![word]);
}

/// Pieces without a character, joined by it, are the pieces between its occurrences.
pub proof fn lemma_split_joined(v: Seq<Seq<char>>, c: char)
    requires
        v.len() > 0,
        forall|i: int| 0 <= i < v.len() ==> !(#[trigger] v[i]).contains(c),
    ensures
        split_on(join(v, seq![c]), c) == v,
    decreases v.len(),
{
    let s = join(v, seq![c]);
    assert(!v[0].contains(c));
    if v.len() == 1 {
        assert forall|i: int| 0 <= i < s.len() implies s[i] != c by {
            assert(v[0].contains(v[0][i]));
        }
        search::lemma_index_of_is(s, c, s.len() as int);
        assert(v =~= seq![v[0]]);
    } else {
        let w = v.drop_first();
        assert forall|i: int| 0 <= i < w.len() implies !(#[trigger] w[i]).contains(c) by {
            assert(w[i] == v[i + 1]);
        }
        lemma_split_joined(w, c);
        lemma_join_first(v, seq![c]);
        let k = v[0].len() as int;
        assert forall|i: int| 0 <= i < k implies s[i] != c by {
            assert(s[i] == v[0][i]);
            assert(v[0].contains(v[0][i]));
        }
        assert(s[k] == c);
        search::lemma_index_of_is(s, c, k);
        assert(s.take(k) =~= v[0]);
        assert(s.skip(k + 1) =~= join(w, seq![c]));
        assert(v =~= seq![v[0]] + w);
    }
}

/// The last pieces of a list are those behind the others.
pub proof fn lemma_last_pieces<T>(a: Seq<T>, b: Seq<T>)
    ensures
        last_pieces(a + b, b.len()) == b,
        last_pieces(b, (b.len() + a.len()) as nat) == b,
{
    assert(last_pieces(a + b, b.len()) =~= b);
}

/// A text with a separator is cut at the first one.
pub proof fn lemma_split_once(a: Seq<char>, b: Seq<char>, c: char)
    requires
        !a.contains(c),
    ensures
        split_once(a.push(c) + b, c) == Some((a, b)),
{
    let s = a.push(c) + b;
    assert forall|i: int| 0 <= i < a.len() implies s[i] != c by {
        assert(a.contains(a[i]));
    }
    search::lemma_index_of_is(s, c, a.len() as int);
    assert(s.take(a.len() as int) =~= a);
    assert(s.skip(a.len() as int + 1) =~= b);
}

/// Blank lines are left out, and the others stand without white space around them.
pub proof fn lemma_filled_lines(v: Seq<Seq<char>>, line: Seq<char>)
    ensures
        trim::is_blank(line) ==> filled_lines(v.push(line)) == filled_lines(v),
        !trim::is_blank(line) ==> filled_lines(v.push(line)) == filled_lines(v).push(
            trim::trim(line),
        ),
        filled_lines(Seq::empty()).len() == 0,
{
    assert(v.push(line).drop_last() =~= v);
}

/// A carriage return before a line feed belongs to the end of the line.
pub proof fn lemma_crlf(line: Seq<char>, rest: Seq<char>)
    requires
        forall|i: int| 0 <= i < line.len() ==> line[i] != '\n' && line[i] != '\r',
    ensures
        lines(line + seq!['\r', '\n'] + rest) == seq![line] + lines(rest),
        lines(line + seq!['\n'] + rest) == seq![line] + lines(rest),
{
    let s = line + seq!['\r', '\n'] + rest;
    let k = line.len() as int + 1;
    assert forall|i: int| 0 <= i < k implies s[i] != '\n' by {
        if i < line.len() {
            assert(s[i] == line[i]);
        }
    }
    assert(s[k] == '\n');
    search::lemma_index_of_is(s, '\n', k);
    assert(s.take(k) =~= line.push('\r'));
    assert(without_cr(line.push('\r')) =~= line);
    assert(s.skip(k + 1) =~= rest);
    let t = line + seq!['\n'] + rest;
    let m = line.len() as int;
    assert forall|i: int| 0 <= i < m implies t[i] != '\n' by {
        assert(t[i] == line[i]);
    }
    assert(t[m] == '\n');
    search::lemma_index_of_is(t, '\n', m);
    assert(t.take(m) =~= line);
    assert(without_cr(line) == line);
    assert(t.skip(m + 1) =~= rest);
}

} // verus!
