use vstd::prelude::*;

use crate::text::{chars_of, string_of};

verus! {

/// Values keyed by name, each name once (a `HashMap<String, V>` without
/// its hashing).
pub struct NamedMap<V> {
    entries: Vec<(String, V)>,
}

pub open spec fn key_view<V>(e: (String, V)) -> (Seq<char>, V) {
    (e.0@, e.1)
}

pub open spec fn pairs_map<V>(v: Seq<(Seq<char>, V)>) -> Map<Seq<char>, V>
    decreases v.len(),
{
    if v.len() == 0 {
        Map::empty()
    } else {
        pairs_map(v.drop_last()).insert(v.last().0, v.last().1)
    }
}

pub open spec fn distinct_keys<V>(v: Seq<(Seq<char>, V)>) -> bool {
    forall|i: int, j: int| 0 <= i < j < v.len() ==> #[trigger] v[i].0 != #[trigger] v[j].0
}

proof fn lemma_pairs_index<V>(v: Seq<(Seq<char>, V)>, i: int)
    requires
        distinct_keys(v),
        0 <= i < v.len(),
    ensures
        pairs_map(v).contains_key(v[i].0),
        pairs_map(v)[v[i].0] == v[i].1,
    decreases v.len(),
{
    if i < v.len() - 1 {
        assert(v.drop_last()[i] == v[i]);
        assert(distinct_keys(v.drop_last()));
        lemma_pairs_index(v.drop_last(), i);
    }
}

proof fn lemma_pairs_absent<V>(v: Seq<(Seq<char>, V)>, k: Seq<char>)
    requires
        forall|i: int| 0 <= i < v.len() ==> #[trigger] v[i].0 != k,
    ensures
        !pairs_map(v).contains_key(k),
    decreases v.len(),
{
    if v.len() > 0 {
        assert forall|i: int| 0 <= i < v.drop_last().len() implies #[trigger] v.drop_last()[i].0 != k by {
            assert(v.drop_last()[i] == v[i]);
        }
        lemma_pairs_absent(v.drop_last(), k);
    }
}

proof fn lemma_pairs_update<V>(v: Seq<(Seq<char>, V)>, i: int, val: V)
    requires
        distinct_keys(v),
        0 <= i < v.len(),
    ensures
        distinct_keys(v.update(i, (v[i].0, val))),
        pairs_map(v.update(i, (v[i].0, val))) == pairs_map(v).insert(v[i].0, val),
    decreases v.len(),
{
    let w = v.update(i, (v[i].0, val));
    assert forall|a: int, b: int| 0 <= a < b < w.len() implies #[trigger] w[a].0 != #[trigger] w[b].0 by {
        assert(w[a].0 == v[a].0);
        assert(w[b].0 == v[b].0);
    }
    if i == v.len() - 1 {
        assert(w.drop_last() =~= v.drop_last());
        assert(pairs_map(w) =~= pairs_map(v).insert(v[i].0, val));
    } else {
        assert(w.drop_last() =~= v.drop_last().update(i, (v[i].0, val)));
        assert(distinct_keys(v.drop_last()));
        lemma_pairs_update(v.drop_last(), i, val);
        assert(v.last().0 != v[i].0);
        assert(pairs_map(w) =~= pairs_map(v).insert(v[i].0, val));
    }
}

proof fn lemma_pairs_remove<V>(v: Seq<(Seq<char>, V)>, i: int)
    requires
        distinct_keys(v),
        0 <= i < v.len(),
    ensures
        distinct_keys(v.remove(i)),
        pairs_map(v.remove(i)) == pairs_map(v).remove(v[i].0),
    decreases v.len(),
{
    let w = v.remove(i);
    assert forall|a: int, b: int| 0 <= a < b < w.len() implies #[trigger] w[a].0 != #[trigger] w[b].0 by {
        let a2 = if a < i { a } else { a + 1 };
        let b2 = if b < i { b } else { b + 1 };
        assert(w[a] == v[a2]);
        assert(w[b] == v[b2]);
    }
    if i == v.len() - 1 {
        assert(w =~= v.drop_last());
        assert forall|j: int| 0 <= j < w.len() implies #[trigger] w[j].0 != v[i].0 by {
            assert(w[j] == v[j]);
        }
        lemma_pairs_absent(w, v[i].0);
        assert(pairs_map(w) =~= pairs_map(v).remove(v[i].0));
    } else {
        assert(w.drop_last() =~= v.drop_last().remove(i));
        assert(w.last() == v.last());
        assert(distinct_keys(v.drop_last()));
        lemma_pairs_remove(v.drop_last(), i);
        assert(v.last().0 != v[i].0);
        assert(pairs_map(w) =~= pairs_map(v).remove(v[i].0));
    }
}

impl<V> NamedMap<V> {
    pub closed spec fn pairs(&self) -> Seq<(Seq<char>, V)> {
        self.entries@.map_values(|e: (String, V)| key_view(e))
    }

    /// The values by name.
    pub closed spec fn view(&self) -> Map<Seq<char>, V> {
        pairs_map(self.pairs())
    }

    pub closed spec fn wf(&self) -> bool {
        distinct_keys(self.pairs())
    }

    pub fn new() -> (r: Self)
        ensures
            r.wf(),
            r@ == Map::<Seq<char>, V>::empty(),
    {
        let r = NamedMap { entries: Vec::new() };
        assert(r.pairs() =~= Seq::<(Seq<char>, V)>::empty());
        r
    }

    fn position(&self, name: &String) -> (r: Option<usize>)
        ensures
            match r {
                Some(i) => i < self.pairs().len() && self.pairs()[i as int].0 == name@,
                None => forall|i: int| 0 <= i < self.pairs().len() ==> #[trigger] self.pairs()[i].0 != name@,
            },
    {
        let n = self.entries.len();
        let mut i: usize = 0;
        while i < n
            invariant
                i <= n == self.entries@.len(),
                forall|j: int| 0 <= j < i ==> #[trigger] self.pairs()[j].0 != name@,
            decreases n - i,
        {
            assert(self.pairs()[i as int] == key_view(self.entries@[i as int]));
            if self.entries[i].0 == *name {
                return Some(i);
            }
            i = i + 1;
        }
        None
    }

    /// Sets `name` to `value`, replacing an earlier value.
    pub fn insert(&mut self, name: String, value: V)
        requires
            old(self).wf(),
        ensures
            final(self).wf(),
            final(self)@ == old(self)@.insert(name@, value),
    {
        let ghost before = self.pairs();
        match self.position(&name) {
            Some(i) => {
                let ghost k = before[i as int].0;
                let ghost e = (name@, value);
                self.entries.set(i, (name, value));
                proof {
                    assert(self.pairs() =~= before.update(i as int, (k, e.1)));
                    lemma_pairs_update(before, i as int, e.1);
                }
            },
            None => {
                let ghost e = (name@, value);
                self.entries.push((name, value));
                proof {
                    assert(self.pairs() =~= before.push(e));
                    assert(self.pairs().drop_last() =~= before);
                    assert forall|a: int, b: int| 0 <= a < b < self.pairs().len() implies #[trigger] self.pairs()[a].0 != #[trigger] self.pairs()[b].0 by {
                        assert(self.pairs()[a] == before[a]);
                        if b < before.len() {
                            assert(self.pairs()[b] == before[b]);
                        }
                    }
                }
            },
        }
    }

    /// Removes `name` and its value.
    pub fn remove(&mut self, name: &str)
        requires
            old(self).wf(),
        ensures
            final(self).wf(),
            final(self)@ == old(self)@.remove(name@),
    {
        let key = string_of(chars_of(name).as_slice());
        let ghost before = self.pairs();
        match self.position(&key) {
            Some(i) => {
                self.entries.remove(i);
                proof {
                    assert(self.pairs() =~= before.remove(i as int));
                    lemma_pairs_remove(before, i as int);
                }
            },
            None => {
                proof {
                    lemma_pairs_absent(before, name@);
                    assert(self@ =~= old(self)@.remove(name@));
                }
            },
        }
    }

    /// The value of `name`, when there is one.
    pub fn get(&self, name: &str) -> (r: Option<&V>)
        requires
            self.wf(),
        ensures
            match r {
                Some(v) => self@.contains_key(name@) && self@[name@] == *v,
                None => !self@.contains_key(name@),
            },
    {
        let key = string_of(chars_of(name).as_slice());
        match self.position(&key) {
            Some(i) => {
                proof {
                    lemma_pairs_index(self.pairs(), i as int);
                    assert(self.pairs()[i as int] == key_view(self.entries@[i as int]));
                }
                Some(&self.entries[i].1)
            },
            None => {
                proof {
                    lemma_pairs_absent(self.pairs(), name@);
                }
                None
            },
        }
    }
}

} // verus!
