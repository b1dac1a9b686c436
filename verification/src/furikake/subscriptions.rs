use vstd::prelude::*;

use super::handle::Handle;
use crate::bento::named::NamedMap;
use crate::text::{chars_of, string_of};

verus! {

/// A bind table binding that follows a reserved binding: the table, the
/// binding in it and the number of slots it has.
#[derive(Clone, Copy, Debug, PartialEq, Eq, Structural)]
pub struct TableTarget {
    pub table: Handle,
    pub binding: u32,
    pub size: u32,
}

pub open spec fn same_binding(a: TableTarget, b: TableTarget) -> bool {
    a.table == b.table && a.binding == b.binding
}

/// `targets` without those at the binding of `t`.
pub open spec fn without_binding(targets: Seq<TableTarget>, t: TableTarget) -> Seq<TableTarget>
    decreases targets.len(),
{
    if targets.len() == 0 {
        Seq::empty()
    } else {
        let before = without_binding(targets.drop_last(), t);
        if same_binding(targets.last(), t) {
            before
        } else {
            before.push(targets.last())
        }
    }
}

/// The targets that a resource in `slot` reaches: those with room for it.
pub open spec fn reaching(targets: Seq<TableTarget>, slot: u32) -> Seq<TableTarget>
    decreases targets.len(),
{
    if targets.len() == 0 {
        Seq::empty()
    } else {
        let before = reaching(targets.drop_last(), slot);
        if slot < targets.last().size {
            before.push(targets.last())
        } else {
            before
        }
    }
}

/// The targets of each name after `t` is registered under `key`: added
/// at the end unless a target at the same table binding is there already.
pub open spec fn registered(m: Map<Seq<char>, Seq<TableTarget>>, key: Seq<char>, t: TableTarget) -> Map<Seq<char>, Seq<TableTarget>> {
    m.insert(
        key,
        if m.contains_key(key) {
            if exists|i: int| 0 <= i < m[key].len() && #[trigger] same_binding(m[key][i], t) {
                m[key]
            } else {
                m[key].push(t)
            }
        } else {
            seq![t]
        },
    )
}

/// The targets of each name after the binding of `t` stops following `key`.
pub open spec fn unregistered(m: Map<Seq<char>, Seq<TableTarget>>, key: Seq<char>, t: TableTarget) -> Map<Seq<char>, Seq<TableTarget>> {
    if !m.contains_key(key) {
        m
    } else if without_binding(m[key], t).len() > 0 {
        m.insert(key, without_binding(m[key], t))
    } else {
        m.remove(key)
    }
}

proof fn lemma_without_binding(targets: Seq<TableTarget>, t: TableTarget)
    ensures
        forall|i: int| 0 <= i < without_binding(targets, t).len() ==> !same_binding(#[trigger] without_binding(targets, t)[i], t),
    decreases targets.len(),
{
    if targets.len() > 0 {
        lemma_without_binding(targets.drop_last(), t);
        let before = without_binding(targets.drop_last(), t);
        if !same_binding(targets.last(), t) {
            assert forall|i: int| 0 <= i < before.push(targets.last()).len() implies !same_binding(#[trigger] before.push(targets.last())[i], t) by {
                if i < before.len() {
                    assert(before.push(targets.last())[i] == before[i]);
                }
            }
        }
    }
}

/// Registering a target twice is registering it once.
pub proof fn law_register_idempotent(m: Map<Seq<char>, Seq<TableTarget>>, key: Seq<char>, t: TableTarget)
    ensures
        registered(registered(m, key, t), key, t) == registered(m, key, t),
{
    let once = registered(m, key, t);
    let l = once[key];
    assert(once.contains_key(key));
    if m.contains_key(key) && exists|i: int| 0 <= i < m[key].len() && #[trigger] same_binding(m[key][i], t) {
        assert(l == m[key]);
    } else if m.contains_key(key) {
        assert(l == m[key].push(t));
        assert(same_binding(l[l.len() - 1], t));
    } else {
        assert(l == seq![t]);
        assert(same_binding(l[0], t));
    }
    assert(exists|i: int| 0 <= i < l.len() && #[trigger] same_binding(l[i], t));
    assert(registered(once, key, t) =~= once);
}

/// After a target is registered and then unregistered under `key`, no
/// target at its table binding follows `key`.
pub proof fn law_unregister_removes(m: Map<Seq<char>, Seq<TableTarget>>, key: Seq<char>, t: TableTarget)
    ensures
        unregistered(registered(m, key, t), key, t).contains_key(key) ==> forall|i: int|
            0 <= i < unregistered(registered(m, key, t), key, t)[key].len() ==> !same_binding(
                #[trigger] unregistered(registered(m, key, t), key, t)[key][i],
                t,
            ),
{
    let once = registered(m, key, t);
    lemma_without_binding(once[key], t);
}

fn copy_targets(v: &Vec<TableTarget>) -> (r: Vec<TableTarget>)
    ensures
        r@ == v@,
{
    let mut out: Vec<TableTarget> = Vec::new();
    let mut i: usize = 0;
    while i < v.len()
        invariant
            i <= v@.len(),
            out@ == v@.take(i as int),
        decreases v@.len() - i,
    {
        out.push(v[i]);
        i = i + 1;
        assert(out@ =~= v@.take(i as int));
    }
    assert(v@.take(v@.len() as int) =~= v@);
    out
}

/// The bind table bindings that follow each reserved binding, by name.
pub struct TableSubscriptions {
    pub targets: NamedMap<Vec<TableTarget>>,
}

pub open spec fn targets_view(m: Map<Seq<char>, Vec<TableTarget>>) -> Map<Seq<char>, Seq<TableTarget>> {
    m.map_values(|v: Vec<TableTarget>| v@)
}

impl TableSubscriptions {
    /// The targets of each name; a name is present only with targets.
    pub open spec fn view(&self) -> Map<Seq<char>, Seq<TableTarget>> {
        targets_view(self.targets@)
    }

    pub open spec fn wf(&self) -> bool {
        self.targets.wf()
    }

    pub fn new() -> (r: Self)
        ensures
            r.wf(),
            r@ == Map::<Seq<char>, Seq<TableTarget>>::empty(),
    {
        let r = TableSubscriptions { targets: NamedMap::new() };
        assert(r@ =~= Map::<Seq<char>, Seq<TableTarget>>::empty());
        r
    }

    /// Makes `target` follow `key`, unless a target at the same table
    /// binding already does.
    pub fn register_table_target(&mut self, key: &str, target: TableTarget)
        requires
            old(self).wf(),
        ensures
            final(self).wf(),
            final(self)@ == registered(old(self)@, key@, target),
    {
        let mut list: Vec<TableTarget> = match self.targets.get(key) {
            Some(existing) => copy_targets(existing),
            None => Vec::new(),
        };
        let ghost start = list@;
        let n = list.len();
        let mut i: usize = 0;
        let mut found = false;
        while i < n
            invariant
                i <= n == list@.len(),
                list@ == start,
                found == exists|j: int| 0 <= j < i && #[trigger] same_binding(list@[j], target),
            decreases n - i,
        {
            if list[i].table == target.table && list[i].binding == target.binding {
                assert(same_binding(list@[i as int], target));
                found = true;
            }
            i = i + 1;
        }
        if !found {
            list.push(target);
        }
        proof {
            if !old(self)@.contains_key(key@) {
                assert(list@ =~= seq![target]);
            }
        }
        let ghost lv = list@;
        self.targets.insert(string_of(chars_of(key).as_slice()), list);
        assert(self@ =~= old(self)@.insert(key@, lv));
    }

    /// Stops the target at the table binding of `target` from following
    /// `key`; a name left without targets goes.
    pub fn unregister_table(&mut self, key: &str, target: TableTarget)
        requires
            old(self).wf(),
        ensures
            final(self).wf(),
            final(self)@ == unregistered(old(self)@, key@, target),
    {
        let current = match self.targets.get(key) {
            Some(existing) => copy_targets(existing),
            None => {
                return;
            },
        };
        let mut kept: Vec<TableTarget> = Vec::new();
        let n = current.len();
        let mut i: usize = 0;
        assert(current@.take(0) =~= Seq::<TableTarget>::empty());
        while i < n
            invariant
                i <= n == current@.len(),
                kept@ == without_binding(current@.take(i as int), target),
            decreases n - i,
        {
            assert(current@.take(i + 1).drop_last() =~= current@.take(i as int));
            let t = current[i];
            if !(t.table == target.table && t.binding == target.binding) {
                kept.push(t);
            }
            i = i + 1;
        }
        assert(current@.take(n as int) =~= current@);
        if kept.len() == 0 {
            self.targets.remove(key);
            assert(self@ =~= old(self)@.remove(key@));
        } else {
            let ghost kv = kept@;
            self.targets.insert(string_of(chars_of(key).as_slice()), kept);
            assert(self@ =~= old(self)@.insert(key@, kv));
        }
    }

    /// The targets that a resource in `slot` of `key` must be written to.
    pub fn update_targets(&self, key: &str, slot: u32) -> (r: Vec<TableTarget>)
        requires
            self.wf(),
        ensures
            r@ == (if self@.contains_key(key@) {
                reaching(self@[key@], slot)
            } else {
                Seq::empty()
            }),
    {
        let mut out: Vec<TableTarget> = Vec::new();
        match self.targets.get(key) {
            None => out,
            Some(list) => {
                let n = list.len();
                let mut i: usize = 0;
                assert(list@.take(0) =~= Seq::<TableTarget>::empty());
                while i < n
                    invariant
                        i <= n == list@.len(),
                        out@ == reaching(list@.take(i as int), slot),
                    decreases n - i,
                {
                    assert(list@.take(i + 1).drop_last() =~= list@.take(i as int));
                    if slot < list[i].size {
                        out.push(list[i]);
                    }
                    i = i + 1;
                }
                assert(list@.take(n as int) =~= list@);
                out
            },
        }
    }
}

} // verus!
