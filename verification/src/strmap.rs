//! A map keyed by strings, kept as a list of entries. The value stored for a key
//! is the one of its first entry; `insert` and `remove` rebuild the list so that
//! a key is held by at most the entry just inserted.
use vstd::prelude::*;

verus! {

/// The value the entries give to key `k`: that of its first entry.
pub open spec fn assoc_get<V>(s: Seq<(String, V)>, k: Seq<char>) -> Option<V>
    decreases s.len(),
{
    if s.len() == 0 {
        None
    } else {
        let r = assoc_get(s.drop_last(), k);
        if r is Some {
            r
        } else if s.last().0@ == k {
            Some(s.last().1)
        } else {
            None
        }
    }
}

/// The entries whose key is not `k`, in order.
pub open spec fn assoc_without<V>(s: Seq<(String, V)>, k: Seq<char>) -> Seq<(String, V)> {
    s.filter(|e: (String, V)| e.0@ != k)
}

pub proof fn lemma_without_get<V>(s: Seq<(String, V)>, k: Seq<char>, k2: Seq<char>)
    ensures
        assoc_get(assoc_without(s, k), k2) == (if k2 == k {
            None
        } else {
            assoc_get(s, k2)
        }),
    decreases s.len(),
{
    reveal_with_fuel(Seq::filter, 1);
    if s.len() > 0 {
        lemma_without_get(s.drop_last(), k, k2);
        let f = assoc_without(s.drop_last(), k);
        if s.last().0@ != k {
            assert(assoc_without(s, k) == f.push(s.last()));
            assert(f.push(s.last()).drop_last() =~= f);
        } else {
            assert(assoc_without(s, k) == f);
        }
    }
}

pub proof fn lemma_push_get<V>(s: Seq<(String, V)>, e: (String, V), k2: Seq<char>)
    ensures
        assoc_get(s.push(e), k2) == (if assoc_get(s, k2) is Some {
            assoc_get(s, k2)
        } else if e.0@ == k2 {
            Some(e.1)
        } else {
            None
        }),
{
    assert(s.push(e).drop_last() =~= s);
}

pub struct StrMap<V> {
    pub entries: Vec<(String, V)>,
}

impl<V> StrMap<V> {
    pub open spec fn get_spec(&self, k: Seq<char>) -> Option<V> {
        assoc_get(self.entries@, k)
    }

    pub fn new() -> (r: Self)
        ensures
            r.entries@ == Seq::<(String, V)>::empty(),
    {
        StrMap { entries: Vec::new() }
    }

    /// Index of the entry that holds the value of `k`.
    pub fn find(&self, k: &String) -> (r: Option<usize>)
        ensures
            match r {
                Some(j) => j < self.entries@.len() && self.entries@[j as int].0@ == k@
                    && self.get_spec(k@) == Some(self.entries@[j as int].1),
                None => self.get_spec(k@) is None,
            },
    {
        let mut found: Option<usize> = None;
        let mut i: usize = 0;
        while i < self.entries.len()
            invariant
                i <= self.entries@.len(),
                match found {
                    Some(j) => j < i && self.entries@[j as int].0@ == k@ && assoc_get(
                        self.entries@.take(i as int),
                        k@,
                    ) == Some(self.entries@[j as int].1),
                    None => assoc_get(self.entries@.take(i as int), k@) is None,
                },
            decreases self.entries@.len() - i,
        {
            assert(self.entries@.take(i + 1).drop_last() =~= self.entries@.take(i as int));
            if found.is_none() && self.entries[i].0 == *k {
                found = Some(i);
            }
            i += 1;
        }
        assert(self.entries@.take(i as int) =~= self.entries@);
        found
    }

    pub fn get(&self, k: &String) -> (r: Option<&V>)
        ensures
            match r {
                Some(v) => self.get_spec(k@) == Some(*v),
                None => self.get_spec(k@) is None,
            },
    {
        match self.find(k) {
            Some(j) => Some(&self.entries[j].1),
            None => None,
        }
    }

    /// Removes every entry of `k`, handing back the value that `k` had.
    pub fn take(&mut self, k: &String) -> (r: Option<V>)
        ensures
            r == old(self).get_spec(k@),
            final(self).entries@ == assoc_without(old(self).entries@, k@),
    {
        let ghost orig = self.entries@;
        let mut rest: Vec<(String, V)> = Vec::new();
        std::mem::swap(&mut rest, &mut self.entries);
        let mut out: Vec<(String, V)> = Vec::new();
        let mut got: Option<V> = None;
        let ghost mut c: int = 0;
        while rest.len() > 0
            invariant
                0 <= c <= orig.len(),
                rest@ == orig.skip(c),
                out@ == assoc_without(orig.take(c), k@),
                got == assoc_get(orig.take(c), k@),
            decreases rest@.len(),
        {
            let e = rest.remove(0);
            proof {
                reveal_with_fuel(Seq::filter, 1);
                assert(e == orig[c]);
                assert(orig.take(c + 1).drop_last() =~= orig.take(c));
                assert(orig.skip(c).remove(0) =~= orig.skip(c + 1));
                assert(orig.take(c + 1).last() == orig[c]);
            }
            let (ek, ev) = e;
            if ek == *k {
                if got.is_none() {
                    got = Some(ev);
                }
            } else {
                out.push((ek, ev));
            }
            proof {
                c = c + 1;
            }
        }
        assert(orig.take(c) =~= orig);
        self.entries = out;
        got
    }

    pub fn remove(&mut self, k: &String)
        ensures
            final(self).entries@ == assoc_without(old(self).entries@, k@),
            forall|k2: Seq<char>| #[trigger] final(self).get_spec(k2) == (if k2 == k@ {
                None
            } else {
                old(self).get_spec(k2)
            }),
    {
        let _ = self.take(k);
        proof {
            assert forall|k2: Seq<char>| #[trigger] self.get_spec(k2) == (if k2 == k@ {
                None
            } else {
                old(self).get_spec(k2)
            }) by {
                lemma_without_get(old(self).entries@, k@, k2);
            }
        }
    }

    pub fn insert(&mut self, k: String, v: V)
        ensures
            final(self).get_spec(k@) == Some(v),
            forall|k2: Seq<char>| k2 != k@ ==> #[trigger] final(self).get_spec(k2)
                == old(self).get_spec(k2),
    {
        self.remove(&k);
        let ghost mid = self.entries@;
        let ghost m1 = *self;
        let ghost kk = k@;
        self.entries.push((k, v));
        proof {
            assert forall|k2: Seq<char>| #[trigger] self.get_spec(k2) == (if k2 == kk {
                Some(v)
            } else {
                old(self).get_spec(k2)
            }) by {
                assert(m1.get_spec(k2) == assoc_get(mid, k2));
                lemma_push_get(mid, self.entries@.last(), k2);
                assert(self.entries@ == mid.push(self.entries@.last()));
            }
        }
    }
}

} // verus!
