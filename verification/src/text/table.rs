//! Values under names.

use vstd::prelude::*;

use crate::text::chars::same;

verus! {

/// A value for each of some names.
#[derive(Debug)]
pub struct Table<T> {
    /// The names and their values: no name stands twice.
    pub entries: Vec<(String, T)>,
}

/// What stands first under `name`.
pub open spec fn lookup<T>(entries: Seq<(String, T)>, name: Seq<char>) -> Option<T>
    decreases entries.len(),
{
    if entries.len() == 0 {
        None
    } else if entries[0].0@ == name {
        Some(entries[0].1)
    } else {
        lookup(entries.drop_first(), name)
    }
}

/// The values under their names.
pub open spec fn table<T>(entries: Seq<(String, T)>) -> Map<Seq<char>, T> {
    Map::new(
        |name: Seq<char>| lookup(entries, name) is Some,
        |name: Seq<char>| lookup(entries, name)->0,
    )
}

/// No name stands twice.
pub open spec fn distinct_names<T>(entries: Seq<(String, T)>) -> bool {
    forall|i: int, j: int|
        0 <= i < j < entries.len() ==> (#[trigger] entries[i]).0@ != (#[trigger] entries[j]).0@
}

/// What is found is what stands at the first place with the name.
proof fn lemma_lookup<T>(entries: Seq<(String, T)>, name: Seq<char>, k: int)
    requires
        0 <= k <= entries.len(),
        forall|i: int| 0 <= i < k ==> (#[trigger] entries[i]).0@ != name,
        k < entries.len() ==> entries[k].0@ == name,
    ensures
        lookup(entries, name) == if k < entries.len() {
            Some(entries[k].1)
        } else {
            None
        },
    decreases entries.len(),
{
    if k > 0 {
        assert(entries[0].0@ != name);
        let rest = entries.drop_first();
        assert forall|i: int| 0 <= i < k - 1 implies (#[trigger] rest[i]).0@ != name by {
            assert(rest[i] == entries[i + 1]);
        }
        lemma_lookup(rest, name, k - 1);
    }
}

/// Where `name` first stands, or the number of entries, if nowhere.
proof fn lemma_place<T>(entries: Seq<(String, T)>, name: Seq<char>) -> (k: int)
    ensures
        0 <= k <= entries.len(),
        forall|i: int| 0 <= i < k ==> (#[trigger] entries[i]).0@ != name,
        k < entries.len() ==> entries[k].0@ == name,
        lookup(entries, name) == if k < entries.len() {
            Some(entries[k].1)
        } else {
            None
        },
    decreases entries.len(),
{
    if entries.len() == 0 || entries[0].0@ == name {
        0
    } else {
        let rest = entries.drop_first();
        let m = lemma_place(rest, name);
        assert forall|i: int| 0 <= i < m + 1 implies (#[trigger] entries[i]).0@ != name by {
            if i > 0 {
                assert(entries[i] == rest[i - 1]);
            }
        }
        m + 1
    }
}

impl<T> View for Table<T> {
    type V = Map<Seq<char>, T>;

    open spec fn view(&self) -> Map<Seq<char>, T> {
        table(self.entries@)
    }
}

impl<T> Table<T> {
    /// No name stands twice.
    pub open spec fn wf(&self) -> bool {
        distinct_names(self.entries@)
    }

    /// No names.
    pub fn new() -> (r: Self)
        ensures
            r.wf(),
            r@ == Map::<Seq<char>, T>::empty(),
    {
        let r = Table { entries: Vec::new() };
        assert(r@ =~= Map::empty());
        r
    }

    /// Where `name` stands.
    fn place(&self, name: &str) -> (r: usize)
        ensures
            r <= self.entries@.len(),
            forall|i: int| 0 <= i < r ==> (#[trigger] self.entries@[i]).0@ != name@,
            r < self.entries@.len() ==> self.entries@[r as int].0@ == name@,
    {
        let n = self.entries.len();
        let mut i: usize = 0;
        while i < n && !same(self.entries[i].0.as_str(), name)
            invariant
                i <= n,
                n == self.entries@.len(),
                forall|j: int| 0 <= j < i ==> (#[trigger] self.entries@[j]).0@ != name@,
            decreases n - i,
        {
            i = i + 1;
        }
        i
    }

    /// The value under `name`.
    pub fn get(&self, name: &str) -> (r: Option<&T>)
        ensures
            r is Some == self@.contains_key(name@),
            r is Some ==> *r->0 == self@[name@],
    {
        let i = self.place(name);
        proof {
            lemma_lookup(self.entries@, name@, i as int);
        }
        if i < self.entries.len() {
            Some(&self.entries[i].1)
        } else {
            None
        }
    }

    /// Whether there is no name.
    pub fn is_empty(&self) -> (r: bool)
        ensures
            r == (self@ == Map::<Seq<char>, T>::empty()),
    {
        proof {
            let e = self.entries@;
            if e.len() > 0 {
                lemma_lookup(e, e[0].0@, 0);
                assert(self@.contains_key(e[0].0@));
            } else {
                assert(self@ =~= Map::empty());
            }
        }
        self.entries.len() == 0
    }

    /// Puts `value` under `name`, in place of what stands there.
    pub fn insert(&mut self, name: &str, value: T)
        requires
            old(self).wf(),
        ensures
            final(self).wf(),
            final(self)@ == old(self)@.insert(name@, value),
    {
        let ghost before = self.entries@;
        let i = self.place(name);
        if i < self.entries.len() {
            self.entries.set(i, (name.to_string(), value));
        } else {
            self.entries.push((name.to_string(), value));
        }
        proof {
            let after = self.entries@;
            assert forall|a: int, b: int| 0 <= a < b < after.len() implies (#[trigger] after[a]).0@
                != (#[trigger] after[b]).0@ by {
                if b < before.len() {
                    assert(before[a].0@ != before[b].0@);
                } else {
                    assert(after[a] == before[a]);
                }
            }
            assert forall|a: int| 0 <= a < i implies (#[trigger] after[a]).0@ != name@ by {
                assert(after[a] == before[a]);
            }
            lemma_lookup(after, name@, i as int);
            assert forall|other: Seq<char>| other != name@ implies lookup(after, other) == lookup(
                before,
                other,
            ) by {
                let k = lemma_place(before, other);
                if k < before.len() {
                    assert forall|a: int| 0 <= a < k implies (#[trigger] after[a]).0@ != other by {
                        if a != i {
                            assert(after[a] == before[a]);
                        }
                    }
                    assert(after[k] == before[k]);
                    lemma_lookup(after, other, k);
                } else {
                    assert forall|a: int| 0 <= a < after.len() implies (#[trigger] after[a]).0@
                        != other by {
                        if a < before.len() && a != i {
                            assert(after[a] == before[a]);
                        }
                    }
                    lemma_lookup(after, other, after.len() as int);
                }
            }
            assert(self@ =~= old(self)@.insert(name@, value));
        }
    }

    /// Takes out the value under `name`.
    pub fn remove(&mut self, name: &str) -> (r: Option<T>)
        requires
            old(self).wf(),
        ensures
            final(self).wf(),
            final(self)@ == old(self)@.remove(name@),
            r is Some == old(self)@.contains_key(name@),
            r is Some ==> r->0 == old(self)@[name@],
    {
        let ghost before = self.entries@;
        let i = self.place(name);
        proof {
            lemma_lookup(before, name@, i as int);
        }
        if i >= self.entries.len() {
            assert(self@ =~= old(self)@.remove(name@));
            return None;
        }
        let (_, value) = self.entries.remove(i);
        proof {
            let after = self.entries@;
            assert(after =~= before.remove(i as int));
            assert forall|a: int, b: int| 0 <= a < b < after.len() implies (#[trigger] after[a]).0@
                != (#[trigger] after[b]).0@ by {
                let x = if a < i {
                    a
                } else {
                    a + 1
                };
                let y = if b < i {
                    b
                } else {
                    b + 1
                };
                assert(before[x].0@ != before[y].0@);
            }
            assert forall|a: int| 0 <= a < after.len() implies (#[trigger] after[a]).0@ != name@ by {
                if a < i {
                    assert(after[a] == before[a]);
                } else {
                    assert(after[a] == before[a + 1]);
                    assert(before[i as int].0@ != before[a + 1].0@);
                }
            }
            lemma_lookup(after, name@, after.len() as int);
            assert forall|other: Seq<char>| other != name@ implies lookup(after, other) == lookup(
                before,
                other,
            ) by {
                let k = lemma_place(before, other);
                let m = if k <= i {
                    k
                } else {
                    k - 1
                };
                assert forall|a: int| 0 <= a < m implies (#[trigger] after[a]).0@ != other by {
                    if a < i {
                        assert(after[a] == before[a]);
                    } else {
                        assert(after[a] == before[a + 1]);
                    }
                }
                if k < before.len() {
                    assert(k != i);
                    assert(after[m] == before[k]);
                }
                lemma_lookup(after, other, m);
            }
            assert(self@ =~= old(self)@.remove(name@));
        }
        Some(value)
    }
}

} // verus!
