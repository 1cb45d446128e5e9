//! Paths as texts, with `/` between their parts.

use vstd::prelude::*;

use crate::text::chars::{cat2, cat3, chars_of, string_from};

verus! {

/// The path of `name` below `dir`. An absolute `name` stands for itself.
pub open spec fn join(dir: Seq<char>, name: Seq<char>) -> Seq<char> {
    if name.len() > 0 && name[0] == '/' {
        name
    } else if dir.len() == 0 || dir.last() == '/' {
        dir + name
    } else {
        dir + "/"@ + name
    }
}

/// The path of `b` below `a` below `dir`.
pub open spec fn join2(dir: Seq<char>, a: Seq<char>, b: Seq<char>) -> Seq<char> {
    join(join(dir, a), b)
}

/// The path of `name` below `dir`.
pub fn join_path(dir: &str, name: &str) -> (r: String)
    ensures
        r@ == join(dir@, name@),
{
    let d = chars_of(dir);
    let n = chars_of(name);
    if n.len() > 0 && n[0] == '/' {
        name.to_string()
    } else if d.len() == 0 || d[d.len() - 1] == '/' {
        cat2(dir, name)
    } else {
        cat3(dir, "/", name)
    }
}

/// The path of `b` below `a` below `dir`.
pub fn join_path2(dir: &str, a: &str, b: &str) -> (r: String)
    ensures
        r@ == join2(dir@, a@, b@),
{
    let first = join_path(dir, a);
    join_path(first.as_str(), b)
}

/// Where the last dot of `s` stands; -1, if nowhere.
pub open spec fn last_dot(s: Seq<char>) -> int
    decreases s.len(),
{
    if s.len() == 0 || s.last() == '.' {
        s.len() - 1
    } else {
        last_dot(s.drop_last())
    }
}

/// A file name without its extension. A dot at its start begins no extension.
pub open spec fn stem(name: Seq<char>) -> Seq<char> {
    if last_dot(name) > 0 {
        name.take(last_dot(name))
    } else {
        name
    }
}

/// A file name without its extension.
pub fn file_stem(name: &str) -> (r: String)
    ensures
        r@ == stem(name@),
{
    let cs = chars_of(name);
    let mut i: usize = cs.len();
    assert(name@.take(i as int) =~= name@);
    while i > 0 && cs[i - 1] != '.'
        invariant
            i <= cs@.len(),
            cs@ == name@,
            last_dot(name@) == last_dot(name@.take(i as int)),
        decreases i,
    {
        assert(name@.take(i as int).drop_last() =~= name@.take(i - 1));
        i = i - 1;
    }
    if i > 1 {
        assert(name@.take(i as int).last() == '.');
        assert(cs@.subrange(0, i - 1) =~= name@.take(i - 1));
        string_from(&cs, 0, i - 1)
    } else {
        name.to_string()
    }
}

/// The path of a name that is not absolute begins with the directory and ends in the name,
/// with one separator between them.
pub proof fn lemma_join(dir: Seq<char>, name: Seq<char>)
    requires
        name.len() > 0 ==> name[0] != '/',
    ensures
        dir.len() > 0 && dir.last() != '/' ==> join(dir, name) == dir.push('/') + name,
        dir.len() > 0 && dir.last() == '/' ==> join(dir, name) == dir + name,
        dir.len() == 0 ==> join(dir, name) == name,
{
    reveal_strlit("/");
    assert(dir + "/"@ + name =~= dir.push('/') + name);
    assert(Seq::<char>::empty() + name =~= name);
    if dir.len() == 0 {
        assert(dir =~= Seq::empty());
    }
}

/// Different names have different paths below a directory.
pub proof fn lemma_join_tells_apart(dir: Seq<char>, a: Seq<char>, b: Seq<char>)
    requires
        a.len() > 0 ==> a[0] != '/',
        b.len() > 0 ==> b[0] != '/',
        join(dir, a) == join(dir, b),
    ensures
        a == b,
{
    lemma_join(dir, a);
    lemma_join(dir, b);
    let n = join(dir, a).len() - a.len();
    assert(a.len() == b.len());
    assert(join(dir, a).skip(n) =~= a);
    assert(join(dir, b).skip(n) =~= b);
}

/// The last dot stands where no dot follows.
proof fn lemma_last_dot(s: Seq<char>, k: int)
    requires
        0 <= k < s.len(),
        s[k] == '.',
        forall|i: int| k < i < s.len() ==> s[i] != '.',
    ensures
        last_dot(s) == k,
    decreases s.len(),
{
    if k < s.len() - 1 {
        assert(s.last() != '.');
        lemma_last_dot(s.drop_last(), k);
    }
}

/// What stands before an extension is the name without it.
pub proof fn lemma_stem(name: Seq<char>, extension: Seq<char>)
    requires
        name.len() > 0,
        !extension.contains('.'),
    ensures
        stem(name.push('.') + extension) == name,
{
    let s = name.push('.') + extension;
    assert forall|i: int| name.len() < i < s.len() implies s[i] != '.' by {
        assert(s[i] == extension[i - name.len() - 1]);
    }
    lemma_last_dot(s, name.len() as int);
    assert(s.take(name.len() as int) =~= name);
}

/// Two names below a directory are one below the other.
pub proof fn lemma_join2(dir: Seq<char>, a: Seq<char>, b: Seq<char>)
    requires
        dir.len() > 0 && dir.last() != '/',
        a.len() > 0 && a[0] != '/' && a.last() != '/',
        b.len() > 0 && b[0] != '/',
    ensures
        join2(dir, a, b) == dir.push('/') + a.push('/') + b,
{
    lemma_join(dir, a);
    lemma_join(join(dir, a), b);
    assert((dir.push('/') + a).push('/') + b =~= dir.push('/') + a.push('/') + b);
}

} // verus!
