use vstd::prelude::*;

use crate::text::{chars_of, string_of, trim, trim_range};

verus! {

/// Preprocessor definitions: each name once, with its value or none.
pub struct DefineMap {
    entries: Vec<(String, Option<String>)>,
}

pub open spec fn opt_view(v: Option<String>) -> Option<Seq<char>> {
    match v {
        Some(x) => Some(x@),
        None => None,
    }
}

pub open spec fn entry_view(e: (String, Option<String>)) -> (Seq<char>, Option<Seq<char>>) {
    (e.0@, opt_view(e.1))
}

/// The map of a list of entries whose names are distinct.
pub open spec fn entries_map(v: Seq<(Seq<char>, Option<Seq<char>>)>) -> Map<Seq<char>, Option<Seq<char>>>
    decreases v.len(),
{
    if v.len() == 0 {
        Map::empty()
    } else {
        entries_map(v.drop_last()).insert(v.last().0, v.last().1)
    }
}

pub open spec fn distinct_names(v: Seq<(Seq<char>, Option<Seq<char>>)>) -> bool {
    forall|i: int, j: int| 0 <= i < j < v.len() ==> #[trigger] v[i].0 != #[trigger] v[j].0
}

proof fn lemma_entries_map_index(v: Seq<(Seq<char>, Option<Seq<char>>)>, i: int)
    requires
        distinct_names(v),
        0 <= i < v.len(),
    ensures
        entries_map(v).contains_key(v[i].0),
        entries_map(v)[v[i].0] == v[i].1,
    decreases v.len(),
{
    if i < v.len() - 1 {
        assert(v.drop_last()[i] == v[i]);
        assert(distinct_names(v.drop_last()));
        lemma_entries_map_index(v.drop_last(), i);
    }
}

proof fn lemma_entries_map_absent(v: Seq<(Seq<char>, Option<Seq<char>>)>, k: Seq<char>)
    requires
        forall|i: int| 0 <= i < v.len() ==> #[trigger] v[i].0 != k,
    ensures
        !entries_map(v).contains_key(k),
    decreases v.len(),
{
    if v.len() > 0 {
        assert forall|i: int| 0 <= i < v.drop_last().len() implies #[trigger] v.drop_last()[i].0 != k by {
            assert(v.drop_last()[i] == v[i]);
        }
        lemma_entries_map_absent(v.drop_last(), k);
    }
}

proof fn lemma_entries_map_update(v: Seq<(Seq<char>, Option<Seq<char>>)>, i: int, val: Option<Seq<char>>)
    requires
        distinct_names(v),
        0 <= i < v.len(),
    ensures
        distinct_names(v.update(i, (v[i].0, val))),
        entries_map(v.update(i, (v[i].0, val))) == entries_map(v).insert(v[i].0, val),
    decreases v.len(),
{
    let w = v.update(i, (v[i].0, val));
    assert forall|a: int, b: int| 0 <= a < b < w.len() implies #[trigger] w[a].0 != #[trigger] w[b].0 by {
        assert(w[a].0 == v[a].0);
        assert(w[b].0 == v[b].0);
    }
    if i == v.len() - 1 {
        assert(w.drop_last() =~= v.drop_last());
        assert(entries_map(w) =~= entries_map(v).insert(v[i].0, val));
    } else {
        assert(w.drop_last() =~= v.drop_last().update(i, (v[i].0, val)));
        assert(distinct_names(v.drop_last()));
        lemma_entries_map_update(v.drop_last(), i, val);
        assert(v.last().0 != v[i].0);
        assert(entries_map(w) =~= entries_map(v).insert(v[i].0, val));
    }
}

impl DefineMap {
    pub closed spec fn entries_view(&self) -> Seq<(Seq<char>, Option<Seq<char>>)> {
        self.entries@.map_values(|e: (String, Option<String>)| entry_view(e))
    }

    /// The definitions as a map from name to value.
    pub closed spec fn view(&self) -> Map<Seq<char>, Option<Seq<char>>> {
        entries_map(self.entries_view())
    }

    pub closed spec fn wf(&self) -> bool {
        distinct_names(self.entries_view())
    }

    pub fn new() -> (r: Self)
        ensures
            r.wf(),
            r.view() == Map::<Seq<char>, Option<Seq<char>>>::empty(),
    {
        let r = DefineMap { entries: Vec::new() };
        assert(r.entries_view() =~= Seq::<(Seq<char>, Option<Seq<char>>)>::empty());
        r
    }

    fn position(&self, name: &String) -> (r: Option<usize>)
        ensures
            match r {
                Some(i) => i < self.entries_view().len() && self.entries_view()[i as int].0 == name@,
                None => forall|i: int| 0 <= i < self.entries_view().len() ==> #[trigger] self.entries_view()[i].0 != name@,
            },
    {
        let n = self.entries.len();
        let mut i: usize = 0;
        while i < n
            invariant
                i <= n == self.entries@.len(),
                forall|j: int| 0 <= j < i ==> #[trigger] self.entries_view()[j].0 != name@,
            decreases n - i,
        {
            assert(self.entries_view()[i as int] == entry_view(self.entries@[i as int]));
            if self.entries[i].0 == *name {
                return Some(i);
            }
            i = i + 1;
        }
        None
    }

    /// Sets `name` to `value`, replacing an earlier value.
    pub fn insert(&mut self, name: String, value: Option<String>)
        requires
            old(self).wf(),
        ensures
            final(self).wf(),
            final(self).view() == old(self).view().insert(name@, opt_view(value)),
    {
        let ghost before = self.entries_view();
        match self.position(&name) {
            Some(i) => {
                let ghost vv = opt_view(value);
                self.entries.set(i, (name, value));
                proof {
                    assert(self.entries_view() =~= before.update(i as int, (before[i as int].0, vv)));
                    lemma_entries_map_update(before, i as int, vv);
                }
            },
            None => {
                let ghost e = (name@, opt_view(value));
                self.entries.push((name, value));
                proof {
                    assert(self.entries_view() =~= before.push(e));
                    assert(self.entries_view().drop_last() =~= before);
                    assert forall|a: int, b: int| 0 <= a < b < self.entries_view().len() implies #[trigger] self.entries_view()[a].0 != #[trigger] self.entries_view()[b].0 by {
                        if b == before.len() {
                            assert(self.entries_view()[a] == before[a]);
                        } else {
                            assert(self.entries_view()[a] == before[a]);
                            assert(self.entries_view()[b] == before[b]);
                        }
                    }
                }
            },
        }
    }

    /// The value of `name`, when it is defined.
    pub fn get(&self, name: &str) -> (r: Option<&Option<String>>)
        requires
            self.wf(),
        ensures
            match r {
                Some(v) => self.view().contains_key(name@) && self.view()[name@] == opt_view(*v),
                None => !self.view().contains_key(name@),
            },
    {
        let key = string_of(chars_of(name).as_slice());
        match self.position(&key) {
            Some(i) => {
                proof {
                    lemma_entries_map_index(self.entries_view(), i as int);
                    assert(self.entries_view()[i as int] == entry_view(self.entries@[i as int]));
                }
                Some(&self.entries[i].1)
            },
            None => {
                proof {
                    lemma_entries_map_absent(self.entries_view(), name@);
                }
                None
            },
        }
    }

    /// Number of names defined.
    pub fn len(&self) -> (r: usize)
        requires
            self.wf(),
        ensures
            r == self.view().len(),
    {
        proof {
            lemma_entries_map_len(self.entries_view());
        }
        self.entries.len()
    }

    /// The definitions in the order they were first given.
    pub fn entries(&self) -> (r: &Vec<(String, Option<String>)>)
        ensures
            r@.map_values(|e: (String, Option<String>)| entry_view(e)) == self.entries_view(),
    {
        &self.entries
    }
}

proof fn lemma_entries_map_len(v: Seq<(Seq<char>, Option<Seq<char>>)>)
    requires
        distinct_names(v),
    ensures
        entries_map(v).dom().finite(),
        entries_map(v).len() == v.len(),
    decreases v.len(),
{
    if v.len() > 0 {
        assert(distinct_names(v.drop_last()));
        lemma_entries_map_len(v.drop_last());
        assert forall|i: int| 0 <= i < v.drop_last().len() implies #[trigger] v.drop_last()[i].0 != v.last().0 by {
            assert(v.drop_last()[i] == v[i]);
        }
        lemma_entries_map_absent(v.drop_last(), v.last().0);
    }
}

} // verus!
