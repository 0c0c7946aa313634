use vstd::prelude::*;
use vstd::string::StringExecFns;

verus! {

/// A table of values keyed by name, each name at most once, in the order the names
/// came in.
pub struct NameTable<V> {
    entries: Vec<(String, V)>,
}

/// The names of the entries `s`, in order.
pub open spec fn keys_of<V>(s: Seq<(String, V)>) -> Seq<Seq<char>> {
    s.map_values(|e: (String, V)| e.0@)
}

/// The map from each name of `s` to the value kept with it.
pub open spec fn table_view<V>(s: Seq<(String, V)>) -> Map<Seq<char>, V> {
    Map::new(
        |k: Seq<char>| keys_of(s).contains(k),
        |k: Seq<char>| s[keys_of(s).index_of(k)].1,
    )
}

impl<V> View for NameTable<V> {
    type V = Map<Seq<char>, V>;

    closed spec fn view(&self) -> Map<Seq<char>, V> {
        table_view(self.entries@)
    }
}

proof fn lemma_index_of<V>(s: Seq<(String, V)>, i: int)
    requires
        keys_of(s).no_duplicates(),
        0 <= i < s.len(),
    ensures
        keys_of(s).contains(s[i].0@),
        keys_of(s).index_of(s[i].0@) == i,
        table_view(s).contains_key(s[i].0@),
        table_view(s)[s[i].0@] == s[i].1,
{
    assert(keys_of(s)[i] == s[i].0@);
    assert(keys_of(s).contains(s[i].0@));
}

proof fn lemma_contains_at<V>(s: Seq<(String, V)>, k: Seq<char>) -> (i: int)
    requires
        keys_of(s).no_duplicates(),
        keys_of(s).contains(k),
    ensures
        0 <= i < s.len(),
        s[i].0@ == k,
        table_view(s)[k] == s[i].1,
{
    let i = keys_of(s).index_of(k);
    lemma_index_of(s, i);
    i
}

impl<V> NameTable<V> {
    /// Each name occurs once.
    pub closed spec fn wf(&self) -> bool {
        keys_of(self.entries@).no_duplicates()
    }

    /// A table holds finitely many names.
    pub proof fn lemma_finite(&self)
        requires
            self.wf(),
        ensures
            self@.dom().finite(),
    {
        assert(self@.dom() =~= keys_of(self.entries@).to_set());
    }

    /// An empty table.
    pub fn new() -> (r: Self)
        ensures
            r.wf(),
            r@ == Map::<Seq<char>, V>::empty(),
    {
        let r = NameTable { entries: Vec::new() };
        assert(r@ =~= Map::<Seq<char>, V>::empty());
        r
    }

    /// The position of `key`, if the table holds it.
    fn find(&self, key: &String) -> (r: Option<usize>)
        requires
            self.wf(),
        ensures
            match r {
                Some(i) => i < self.entries@.len() && self.entries@[i as int].0@ == key@,
                None => !self@.contains_key(key@),
            },
    {
        let mut i: usize = 0;
        while i < self.entries.len()
            invariant
                i <= self.entries@.len(),
                forall|j: int| 0 <= j < i ==> self.entries@[j].0@ != key@,
            decreases self.entries.len() - i,
        {
            if self.entries[i].0 == *key {
                return Some(i);
            }
            i = i + 1;
        }
        proof {
            if keys_of(self.entries@).contains(key@) {
                let j = lemma_contains_at(self.entries@, key@);
            }
        }
        None
    }

    /// The value kept under `name`, if there is one.
    pub fn get(&self, name: &str) -> (r: Option<&V>)
        requires
            self.wf(),
        ensures
            match r {
                Some(v) => self@.contains_key(name@) && *v == self@[name@],
                None => !self@.contains_key(name@),
            },
    {
        let key = String::from_str(name);
        match self.find(&key) {
            Some(i) => {
                proof {
                    lemma_index_of(self.entries@, i as int);
                }
                Some(&self.entries[i].1)
            },
            None => None,
        }
    }

    /// The table holds `name`.
    pub fn contains(&self, name: &str) -> (r: bool)
        requires
            self.wf(),
        ensures
            r == self@.contains_key(name@),
    {
        let key = String::from_str(name);
        match self.find(&key) {
            Some(i) => {
                proof {
                    lemma_index_of(self.entries@, i as int);
                }
                true
            },
            None => false,
        }
    }

    /// Keeps `value` under `name`, in place of what was kept there.
    pub fn insert(&mut self, name: String, value: V)
        requires
            old(self).wf(),
        ensures
            final(self).wf(),
            final(self)@ == old(self)@.insert(name@, value),
            final(self)@.len() == old(self)@.len() + (if old(self)@.contains_key(name@) {
                0int
            } else {
                1int
            }),
    {
        proof {
            old(self).lemma_finite();
        }
        let ghost k = name@;
        let ghost v = value;
        match self.find(&name) {
            Some(i) => {
                let ghost s = self.entries@;
                self.entries.set(i, (name, value));
                proof {
                    let t = self.entries@;
                    assert(keys_of(t) =~= keys_of(s));
                    lemma_index_of(t, i as int);
                    assert forall|x: Seq<char>| #[trigger] table_view(t).contains_key(x) implies (
                    if x == k {
                        table_view(t)[x] == v
                    } else {
                        old(self)@.contains_key(x) && table_view(t)[x] == old(self)@[x]
                    }) by {
                        let j = lemma_contains_at(t, x);
                        if x != k {
                            lemma_index_of(s, j);
                        } else {
                            lemma_index_of(t, i as int);
                        }
                    }
                    assert forall|x: Seq<char>| #[trigger] old(self)@.contains_key(x) implies table_view(
                        t,
                    ).contains_key(x) by {
                        let j = lemma_contains_at(s, x);
                    }
                    assert(table_view(t) =~= old(self)@.insert(k, v));
                }
            },
            None => {
                let ghost s = self.entries@;
                self.entries.push((name, value));
                proof {
                    let t = self.entries@;
                    assert(keys_of(t) =~= keys_of(s).push(k));
                    assert(!keys_of(s).contains(k));
                    assert forall|x: Seq<char>| #[trigger] table_view(t).contains_key(x) implies (
                    if x == k {
                        table_view(t)[x] == v
                    } else {
                        old(self)@.contains_key(x) && table_view(t)[x] == old(self)@[x]
                    }) by {
                        let j = lemma_contains_at(t, x);
                        if x != k {
                            lemma_index_of(s, j);
                        }
                    }
                    assert forall|x: Seq<char>| #[trigger] old(self)@.contains_key(x) implies table_view(
                        t,
                    ).contains_key(x) by {
                        let j = lemma_contains_at(s, x);
                        assert(keys_of(t)[j] == x);
                    }
                    assert(table_view(t).contains_key(k)) by {
                        assert(keys_of(t)[s.len() as int] == k);
                    }
                    assert(table_view(t) =~= old(self)@.insert(k, v));
                }
            },
        }
    }

    /// Drops what is kept under `name`, and gives it.
    pub fn remove(&mut self, name: &str) -> (r: Option<V>)
        requires
            old(self).wf(),
        ensures
            final(self).wf(),
            final(self)@ == old(self)@.remove(name@),
            r == (if old(self)@.contains_key(name@) {
                Some(old(self)@[name@])
            } else {
                None::<V>
            }),
            final(self)@.len() == old(self)@.len() - (if old(self)@.contains_key(name@) {
                1int
            } else {
                0int
            }),
    {
        proof {
            old(self).lemma_finite();
        }
        let key = String::from_str(name);
        match self.find(&key) {
            Some(i) => {
                let ghost s = self.entries@;
                let ghost k = name@;
                proof {
                    lemma_index_of(s, i as int);
                }
                let (_, value) = self.entries.remove(i);
                proof {
                    let t = self.entries@;
                    assert(keys_of(t) =~= keys_of(s).remove(i as int));
                    assert forall|a: int, b: int|
                        0 <= a < keys_of(t).len() && 0 <= b < keys_of(t).len() && a != b implies keys_of(
                        t,
                    )[a] != keys_of(t)[b] by {
                        let a2 = if a < i { a } else { a + 1 };
                        let b2 = if b < i { b } else { b + 1 };
                        assert(keys_of(t)[a] == keys_of(s)[a2]);
                        assert(keys_of(t)[b] == keys_of(s)[b2]);
                    }
                    assert forall|x: Seq<char>| #[trigger] table_view(t).contains_key(x) implies x
                        != k && old(self)@.contains_key(x) && table_view(t)[x] == old(self)@[x] by {
                        let j = lemma_contains_at(t, x);
                        let j2 = if j < i { j } else { j + 1 };
                        assert(t[j] == s[j2]);
                        lemma_index_of(s, j2);
                    }
                    assert forall|x: Seq<char>| #[trigger]
                        old(self)@.contains_key(x) && x != k implies table_view(t).contains_key(x) by {
                        let j = lemma_contains_at(s, x);
                        let j2 = if j < i { j } else { j - 1 };
                        assert(keys_of(t)[j2] == x);
                    }
                    assert(table_view(t) =~= old(self)@.remove(k));
                }
                Some(value)
            },
            None => {
                proof {
                    assert(old(self)@.remove(name@) =~= old(self)@);
                }
                None
            },
        }
    }

    /// The number of names in the table.
    pub fn len(&self) -> (r: usize)
        requires
            self.wf(),
        ensures
            r == self@.len(),
    {
        proof {
            let ks = keys_of(self.entries@);
            ks.unique_seq_to_set();
            assert(self@.dom() =~= ks.to_set());
        }
        self.entries.len()
    }
}

} // verus!
