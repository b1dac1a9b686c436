use vstd::prelude::*;

use super::named::NamedMap;
use super::reflect::{var_view, var_views, VarView};
use super::types::{BindTableVariable as VarKind, CompilationResult, ShaderType, ShaderVariable};
use crate::text::{chars_of, string_of};

verus! {

// ------------------------------------------------------------------ basics

/// The stage flags of a binding that two stages share: the stage itself
/// when both are the same, else every stage.
pub open spec fn merged_flags(lhs: ShaderType, rhs: ShaderType) -> ShaderType {
    if lhs == rhs {
        lhs
    } else {
        ShaderType::All
    }
}

pub fn merge_stage_flags(lhs: ShaderType, rhs: ShaderType) -> (r: ShaderType)
    ensures
        r == merged_flags(lhs, rhs),
{
    if lhs == rhs {
        lhs
    } else {
        ShaderType::All
    }
}

/// Merging stage flags is symmetric and idempotent: a stage merged with
/// itself stays that stage, two different stages give every stage.
pub proof fn law_merge_stage_flags(a: ShaderType, b: ShaderType)
    ensures
        merged_flags(a, b) == merged_flags(b, a),
        merged_flags(a, a) == a,
        a != b ==> merged_flags(a, b) == ShaderType::All,
        merged_flags(merged_flags(a, b), b) == merged_flags(a, b),
{
}

/// A resource placed in slot `slot` of a bind table binding.
pub struct IndexedResource<R> {
    pub resource: R,
    pub slot: u32,
}

/// How a bind table binding is to be filled: `size` default resources, or
/// the given resources.
pub enum BindTableVariable<R> {
    Empty { size: u32 },
    WithResources { resources: Vec<IndexedResource<R>> },
}

/// The number of descriptors a bind table binding gets: the configured size
/// (the number of given resources, kept to 32 bits), else the shader's
/// count; 0 means 256.
pub open spec fn binding_count<R>(kind: VarKind, config: Option<BindTableVariable<R>>) -> u32 {
    let count = match config {
        Some(BindTableVariable::Empty { size }) => size,
        Some(BindTableVariable::WithResources { resources }) => resources@.len() as u32,
        None => kind.count,
    };
    if count == 0 {
        256
    } else {
        count
    }
}

/// A binding never gets zero descriptors: a configured size (or number of
/// given resources) is taken when it is not zero, else the shader's count
/// when that is not zero, and 256 otherwise.
pub proof fn law_binding_count<R>(kind: VarKind, config: Option<BindTableVariable<R>>)
    ensures
        binding_count(kind, config) != 0,
        config matches Some(BindTableVariable::Empty { size }) ==> (size != 0 ==> binding_count(kind, config) == size),
        config is None && kind.count != 0 ==> binding_count(kind, config) == kind.count,
        config is None && kind.count == 0 ==> binding_count(kind, config) == 256,
{
}

pub fn resolve_binding_count<R>(var: &VarKind, config: Option<&BindTableVariable<R>>) -> (r: u32)
    ensures
        r == binding_count(*var, match config {
            Some(c) => Some(*c),
            None => None,
        }),
{
    let count = match config {
        Some(BindTableVariable::Empty { size }) => *size,
        Some(BindTableVariable::WithResources { resources }) => resources.len() as u32,
        None => var.count,
    };
    if count == 0 {
        256
    } else {
        count
    }
}

/// How a table binding's initial resources come: `expected` default
/// resources (at the slots `default_slots` gives), or the resources given.
#[derive(Clone, Copy, Debug, PartialEq, Eq, Structural)]
pub enum TableFill {
    Defaults,
    Provided,
}

pub open spec fn slots_of<R>(resources: Seq<IndexedResource<R>>) -> Seq<u32> {
    resources.map_values(|r: IndexedResource<R>| r.slot)
}

/// Every slot below `expected`, and no slot twice.
pub open spec fn slots_valid(slots: Seq<u32>, expected: u32) -> bool {
    &&& forall|i: int| 0 <= i < slots.len() ==> #[trigger] slots[i] < expected
    &&& forall|i: int, j: int| 0 <= i < j < slots.len() ==> #[trigger] slots[i] != #[trigger] slots[j]
}

/// Whether a table configuration can fill a binding of `expected`
/// descriptors: an empty one of exactly that size with defaults, a given
/// one with exactly that many resources in distinct slots below it.
pub open spec fn table_fill<R>(config: BindTableVariable<R>, expected: u32) -> Option<TableFill> {
    match config {
        BindTableVariable::Empty { size } => if size == expected {
            Some(TableFill::Defaults)
        } else {
            None
        },
        BindTableVariable::WithResources { resources } => if resources@.len() == expected && slots_valid(
            slots_of(resources@),
            expected,
        ) {
            Some(TableFill::Provided)
        } else {
            None
        },
    }
}

/// Checks a table configuration against the binding it fills (see
/// `table_fill`).
pub fn resources_from_config<R>(config: &BindTableVariable<R>, expected_count: u32) -> (r: Option<TableFill>)
    ensures
        r == table_fill(*config, expected_count),
{
    match config {
        BindTableVariable::Empty { size } => {
            if *size != expected_count {
                None
            } else {
                Some(TableFill::Defaults)
            }
        },
        BindTableVariable::WithResources { resources } => {
            if resources.len() != expected_count as usize {
                return None;
            }
            let ghost slots = slots_of(resources@);
            let ghost outcome = table_fill(*config, expected_count);
            assert(outcome == if slots_valid(slots, expected_count) {
                Some(TableFill::Provided)
            } else {
                None
            });
            let n = resources.len();
            let mut i: usize = 0;
            while i < n
                invariant
                    i <= n == resources@.len(),
                    n == expected_count,
                    outcome == table_fill(*config, expected_count),
                    outcome == if slots_valid(slots, expected_count) {
                        Some(TableFill::Provided)
                    } else {
                        None
                    },
                    slots == slots_of(resources@),
                    forall|a: int| 0 <= a < i ==> #[trigger] slots[a] < expected_count,
                    forall|a: int, b: int| 0 <= a < b < i ==> #[trigger] slots[a] != #[trigger] slots[b],
                decreases n - i,
            {
                let s = resources[i].slot;
                assert(slots[i as int] == s);
                if s >= expected_count {
                    assert(!slots_valid(slots, expected_count));
                    return None;
                }
                let mut j: usize = 0;
                while j < i
                    invariant
                        j <= i < n == resources@.len(),
                        n == expected_count,
                        outcome == table_fill(*config, expected_count),
                        outcome == if slots_valid(slots, expected_count) {
                            Some(TableFill::Provided)
                        } else {
                            None
                        },
                        slots == slots_of(resources@),
                        s == slots[i as int],
                        forall|a: int| 0 <= a < j ==> #[trigger] slots[a] != s,
                    decreases i - j,
                {
                    assert(slots[j as int] == resources@[j as int].slot);
                    if resources[j].slot == s {
                        assert(slots[j as int] == slots[i as int]);
                        assert(!slots_valid(slots, expected_count));
                        return None;
                    }
                    j = j + 1;
                }
                i = i + 1;
            }
            Some(TableFill::Provided)
        },
    }
}

/// The slots a binding of `count` descriptors filled with defaults takes:
/// `0, 1, .., count - 1`, in order.
pub open spec fn default_slot_seq(count: u32) -> Seq<u32> {
    Seq::new(count as nat, |i: int| i as u32)
}

/// The slots that `TableFill::Defaults` fills for a binding of `count`
/// descriptors, one default resource at each.
pub fn default_slots(count: u32) -> (r: Vec<u32>)
    ensures
        r@ == default_slot_seq(count),
{
    let mut v: Vec<u32> = Vec::new();
    let mut i: u32 = 0;
    while i < count
        invariant
            i <= count,
            v@ == Seq::new(i as nat, |k: int| k as u32),
        decreases count - i,
    {
        v.push(i);
        i = i + 1;
        assert(v@ =~= Seq::new(i as nat, |k: int| k as u32));
    }
    v
}

// ------------------------------------------------------ bind group sets

pub open spec fn kind_of(v: VarView) -> VarKind {
    VarKind { var_type: v.2, binding: v.3, count: v.4 }
}

/// A binding shared by the stages of a pipeline: its variable, the stages
/// that use it and the names they give it.
pub struct MergedVariable {
    pub var: VarKind,
    pub stage: ShaderType,
    pub names: Vec<String>,
}

pub type MergedView = (VarKind, ShaderType, Seq<Seq<char>>);

pub open spec fn names_view(v: Seq<String>) -> Seq<Seq<char>> {
    v.map_values(|s: String| s@)
}

pub open spec fn merged_view(m: MergedVariable) -> MergedView {
    (m.var, m.stage, names_view(m.names@))
}

pub open spec fn merged_views(v: Seq<MergedVariable>) -> Seq<MergedView> {
    v.map_values(|m: MergedVariable| merged_view(m))
}

/// First index from `k` on of an entry for binding `b`.
pub open spec fn find_binding(es: Seq<MergedView>, b: u32, k: int) -> Option<int>
    decreases es.len() - k,
{
    if k < 0 || k >= es.len() {
        None
    } else if es[k].0.binding == b {
        Some(k)
    } else {
        find_binding(es, b, k + 1)
    }
}

pub proof fn lemma_find_binding(es: Seq<MergedView>, b: u32, k: int)
    requires
        0 <= k,
    ensures
        find_binding(es, b, k) matches Some(i) ==> k <= i < es.len() && es[i].0.binding == b,
        find_binding(es, b, k) is None ==> forall|j: int| k <= j < es.len() ==> #[trigger] es[j].0.binding != b,
    decreases es.len() - k,
{
    if k < es.len() && es[k].0.binding != b {
        lemma_find_binding(es, b, k + 1);
    }
}

/// Adds variable `v` of a stage to the entries: a binding seen before takes
/// the variable, widens its stages and gains the name if new; a new binding
/// gets an entry of its own.
pub open spec fn merge_var(es: Seq<MergedView>, v: VarView, stage: ShaderType) -> Seq<MergedView> {
    match find_binding(es, v.3, 0) {
        Some(i) => es.update(
            i,
            (
                kind_of(v),
                merged_flags(es[i].1, stage),
                if es[i].2.contains(v.0) {
                    es[i].2
                } else {
                    es[i].2.push(v.0)
                },
            ),
        ),
        None => es.push((kind_of(v), stage, seq![v.0])),
    }
}

/// The entries after the variables `vs` of a stage whose set is `set`.
pub open spec fn merge_vars(es: Seq<MergedView>, vs: Seq<VarView>, set: u32, stage: ShaderType) -> Seq<MergedView>
    decreases vs.len(),
{
    if vs.len() == 0 {
        es
    } else {
        let before = merge_vars(es, vs.drop_last(), set, stage);
        if vs.last().1 == set {
            merge_var(before, vs.last(), stage)
        } else {
            before
        }
    }
}

/// Where `x` goes among `s`: after the last entry of no larger binding.
pub open spec fn merged_insert_pos(s: Seq<MergedView>, x: MergedView) -> int
    decreases s.len(),
{
    if s.len() == 0 {
        0
    } else if s.last().0.binding <= x.0.binding {
        s.len() as int
    } else {
        merged_insert_pos(s.drop_last(), x)
    }
}

/// The entries sorted by binding.
pub open spec fn sort_merged(s: Seq<MergedView>) -> Seq<MergedView>
    decreases s.len(),
{
    if s.len() == 0 {
        Seq::empty()
    } else {
        let t = sort_merged(s.drop_last());
        t.insert(merged_insert_pos(t, s.last()), s.last())
    }
}

pub proof fn lemma_merged_insert_pos(s: Seq<MergedView>, x: MergedView)
    ensures
        0 <= merged_insert_pos(s, x) <= s.len(),
    decreases s.len(),
{
    if s.len() > 0 && s.last().0.binding > x.0.binding {
        lemma_merged_insert_pos(s.drop_last(), x);
    }
}

/// The bindings of `set` in a graphics pipeline: the vertex stage's
/// variables, then the fragment stage's, merged by binding and sorted by
/// binding.
pub open spec fn group_set(vertex: Seq<VarView>, vstage: ShaderType, fragment: Seq<VarView>, fstage: ShaderType, set: u32) -> Seq<MergedView> {
    sort_merged(merge_vars(merge_vars(Seq::empty(), vertex, set, vstage), fragment, set, fstage))
}

pub(crate) fn contains_name(names: &Vec<String>, name: &String) -> (r: bool)
    ensures
        r == names_view(names@).contains(name@),
{
    let n = names.len();
    let mut i: usize = 0;
    while i < n
        invariant
            i <= n == names@.len(),
            forall|j: int| 0 <= j < i ==> #[trigger] names_view(names@)[j] != name@,
        decreases n - i,
    {
        assert(names_view(names@)[i as int] == names@[i as int]@);
        if names[i] == *name {
            return true;
        }
        i = i + 1;
    }
    false
}

fn find_binding_exec(es: &Vec<MergedVariable>, b: u32) -> (r: Option<usize>)
    ensures
        r matches Some(i) ==> find_binding(merged_views(es@), b, 0) == Some(i as int),
        r is None ==> find_binding(merged_views(es@), b, 0) is None,
{
    let ghost mv = merged_views(es@);
    let n = es.len();
    let mut i: usize = 0;
    while i < n
        invariant
            i <= n == es@.len(),
            mv == merged_views(es@),
            find_binding(mv, b, 0) == find_binding(mv, b, i as int),
        decreases n - i,
    {
        assert(mv[i as int] == merged_view(es@[i as int]));
        if es[i].var.binding == b {
            return Some(i);
        }
        i = i + 1;
    }
    None
}

fn merge_var_exec(es: &mut Vec<MergedVariable>, v: &ShaderVariable, stage: ShaderType)
    ensures
        merged_views(final(es)@) == merge_var(merged_views(old(es)@), var_view(*v), stage),
{
    let ghost before = merged_views(es@);
    proof {
        lemma_find_binding(before, v.kind.binding, 0);
    }
    match find_binding_exec(es, v.kind.binding) {
        Some(i) => {
            let entry = es.remove(i);
            assert(before[i as int] == merged_view(entry));
            let mut names = entry.names;
            let ghost old_names = names_view(names@);
            if !contains_name(&names, &v.name) {
                names.push(v.name.clone());
                assert(names_view(names@) =~= old_names.push(v.name@));
            }
            let flags = merge_stage_flags(entry.stage, stage);
            let updated = MergedVariable { var: v.kind, stage: flags, names };
            let ghost uv = merged_view(updated);
            assert(uv.0 == kind_of(var_view(*v)));
            assert(uv.1 == merged_flags(before[i as int].1, stage));
            assert(uv.2 == if before[i as int].2.contains(v.name@) {
                before[i as int].2
            } else {
                before[i as int].2.push(v.name@)
            });
            let ghost after_remove = es@;
            es.insert(i, updated);
            assert(merged_views(es@) =~= before.update(i as int, uv));
            assert(find_binding(before, var_view(*v).3, 0) == Some(i as int));
            assert(merged_views(es@) == merge_var(before, var_view(*v), stage));
        },
        None => {
            let mut names: Vec<String> = Vec::new();
            names.push(v.name.clone());
            assert(names_view(names@) =~= seq![v.name@]);
            let fresh = MergedVariable { var: v.kind, stage, names };
            assert(merged_view(fresh) == (kind_of(var_view(*v)), stage, seq![var_view(*v).0]));
            es.push(fresh);
            assert(merged_views(es@) =~= before.push(merged_view(fresh)));
            assert(find_binding(before, var_view(*v).3, 0) is None);
            assert(merged_views(es@) == merge_var(before, var_view(*v), stage));
        },
    }
}

fn merge_vars_exec(es: &mut Vec<MergedVariable>, vs: &Vec<ShaderVariable>, set: u32, stage: ShaderType)
    ensures
        merged_views(final(es)@) == merge_vars(merged_views(old(es)@), var_views(vs@), set, stage),
{
    let ghost start = merged_views(es@);
    let ghost all = var_views(vs@);
    let n = vs.len();
    let mut i: usize = 0;
    assert(all.take(0) =~= Seq::<VarView>::empty());
    while i < n
        invariant
            i <= n == vs@.len(),
            all == var_views(vs@),
            merged_views(es@) == merge_vars(start, all.take(i as int), set, stage),
        decreases n - i,
    {
        assert(all.take(i + 1).drop_last() =~= all.take(i as int));
        assert(all.take(i + 1).last() == var_view(vs@[i as int]));
        if vs[i].set == set {
            merge_var_exec(es, &vs[i], stage);
        }
        i = i + 1;
    }
    assert(all.take(n as int) =~= all);
}

fn insert_merged(v: &mut Vec<MergedVariable>, x: MergedVariable)
    ensures
        merged_views(final(v)@) == merged_views(old(v)@).insert(
            merged_insert_pos(merged_views(old(v)@), merged_view(x)),
            merged_view(x),
        ),
{
    let ghost vv = merged_views(v@);
    let ghost xv = merged_view(x);
    let mut p = v.len();
    proof {
        assert(vv.take(p as int) =~= vv);
    }
    while p > 0 && v[p - 1].var.binding > x.var.binding
        invariant
            p <= v@.len(),
            vv == merged_views(v@),
            xv == merged_view(x),
            merged_insert_pos(vv, xv) == merged_insert_pos(vv.take(p as int), xv),
        decreases p,
    {
        proof {
            assert(vv.take(p as int).drop_last() =~= vv.take(p - 1));
            assert(vv.take(p as int).last() == merged_view(v@[p - 1]));
        }
        p = p - 1;
    }
    proof {
        if p > 0 {
            assert(vv.take(p as int).last() == merged_view(v@[p - 1]));
        }
        lemma_merged_insert_pos(vv, xv);
    }
    v.insert(p, x);
    assert(merged_views(v@) =~= vv.insert(p as int, xv));
}

fn sort_merged_exec(es: Vec<MergedVariable>) -> (r: Vec<MergedVariable>)
    ensures
        merged_views(r@) == sort_merged(merged_views(es@)),
{
    let ghost all = merged_views(es@);
    let mut rest = es;
    let mut out: Vec<MergedVariable> = Vec::new();
    let n = rest.len();
    let mut i: usize = 0;
    assert(all.take(0) =~= Seq::<MergedView>::empty());
    assert(merged_views(rest@) =~= all.skip(0));
    while i < n
        invariant
            i <= n == all.len(),
            merged_views(rest@) == all.skip(i as int),
            merged_views(out@) == sort_merged(all.take(i as int)),
        decreases n - i,
    {
        let ghost rv = merged_views(rest@);
        let ghost old_rest = rest@;
        assert(rv.len() == n - i);
        let x = rest.remove(0);
        assert(rv[0] == merged_view(x));
        assert(rest@ =~= old_rest.subrange(1, old_rest.len() as int));
        assert forall|j: int| 0 <= j < rest@.len() implies #[trigger] merged_views(rest@)[j] == all.skip(i + 1)[j] by {
            assert(merged_views(rest@)[j] == merged_view(old_rest[j + 1]));
            assert(rv[j + 1] == merged_view(old_rest[j + 1]));
        }
        assert(merged_views(rest@) =~= all.skip(i + 1));
        assert(all.take(i + 1).drop_last() =~= all.take(i as int));
        assert(all.take(i + 1).last() == all[i as int]);
        insert_merged(&mut out, x);
        i = i + 1;
    }
    assert(all.take(n as int) =~= all);
    out
}

/// The bindings of `set` in the pipeline of `vertex` and `fragment` (see
/// `group_set`).
pub fn plan_bind_group_set(vertex: &CompilationResult, fragment: &CompilationResult, set: u32) -> (r: Vec<MergedVariable>)
    ensures
        merged_views(r@) == group_set(var_views(vertex.variables@), vertex.stage, var_views(fragment.variables@), fragment.stage, set),
{
    let mut es: Vec<MergedVariable> = Vec::new();
    assert(merged_views(es@) =~= Seq::<MergedView>::empty());
    merge_vars_exec(&mut es, &vertex.variables, set, vertex.stage);
    merge_vars_exec(&mut es, &fragment.variables, set, fragment.stage);
    sort_merged_exec(es)
}

/// The variables of the entries whose stages are exactly `stage`.
pub open spec fn stage_filter(es: Seq<MergedView>, stage: ShaderType) -> Seq<VarKind>
    decreases es.len(),
{
    if es.len() == 0 {
        Seq::empty()
    } else {
        let before = stage_filter(es.drop_last(), stage);
        if es.last().1 == stage {
            before.push(es.last().0)
        } else {
            before
        }
    }
}

/// The bind group layout of a set split by stage: the vertex-only, the
/// fragment-only and the shared variables, each in entry order.
pub fn stage_variables(merged: &Vec<MergedVariable>) -> (r: (Vec<VarKind>, Vec<VarKind>, Vec<VarKind>))
    ensures
        r.0@ == stage_filter(merged_views(merged@), ShaderType::Vertex),
        r.1@ == stage_filter(merged_views(merged@), ShaderType::Fragment),
        r.2@ == stage_filter(merged_views(merged@), ShaderType::All),
{
    let ghost mv = merged_views(merged@);
    let mut vertex: Vec<VarKind> = Vec::new();
    let mut fragment: Vec<VarKind> = Vec::new();
    let mut shared: Vec<VarKind> = Vec::new();
    let n = merged.len();
    let mut i: usize = 0;
    while i < n
        invariant
            i <= n == merged@.len(),
            mv == merged_views(merged@),
            vertex@ == stage_filter(mv.take(i as int), ShaderType::Vertex),
            fragment@ == stage_filter(mv.take(i as int), ShaderType::Fragment),
            shared@ == stage_filter(mv.take(i as int), ShaderType::All),
        decreases n - i,
    {
        assert(mv.take(i + 1).drop_last() =~= mv.take(i as int));
        assert(mv.take(i + 1).last() == merged_view(merged@[i as int]));
        match merged[i].stage {
            ShaderType::Vertex => vertex.push(merged[i].var),
            ShaderType::Fragment => fragment.push(merged[i].var),
            ShaderType::All => shared.push(merged[i].var),
            ShaderType::Compute => {},
        }
        i = i + 1;
    }
    assert(mv.take(n as int) =~= mv);
    (vertex, fragment, shared)
}

/// The first of `names` that has a resource, if any.
pub open spec fn first_provided<R>(names: Seq<Seq<char>>, provided: Map<Seq<char>, R>) -> Option<Seq<char>>
    decreases names.len(),
{
    if names.len() == 0 {
        None
    } else if provided.contains_key(names[0]) {
        Some(names[0])
    } else {
        first_provided(names.drop_first(), provided)
    }
}

/// The bind group bindings of a set: for each entry that some name of it
/// has a resource for, its binding and that name.
pub open spec fn group_bindings_of<R>(es: Seq<MergedView>, provided: Map<Seq<char>, R>) -> Seq<(u32, Seq<char>)>
    decreases es.len(),
{
    if es.len() == 0 {
        Seq::empty()
    } else {
        let before = group_bindings_of(es.drop_last(), provided);
        match first_provided(es.last().2, provided) {
            Some(n) => before.push((es.last().0.binding, n)),
            None => before,
        }
    }
}

pub open spec fn bound_names_view(v: Seq<(u32, String)>) -> Seq<(u32, Seq<char>)> {
    v.map_values(|b: (u32, String)| (b.0, b.1@))
}

fn first_provided_exec<R>(names: &Vec<String>, provided: &NamedMap<R>) -> (r: Option<String>)
    requires
        provided.wf(),
    ensures
        match first_provided(names_view(names@), provided@) {
            Some(n) => r matches Some(x) && x@ == n,
            None => r is None,
        },
{
    let ghost nv = names_view(names@);
    let n = names.len();
    let mut i: usize = 0;
    assert(nv.skip(0) =~= nv);
    while i < n
        invariant
            i <= n == names@.len(),
            nv == names_view(names@),
            provided.wf(),
            first_provided(nv, provided@) == first_provided(nv.skip(i as int), provided@),
        decreases n - i,
    {
        assert(nv.skip(i as int)[0] == names@[i as int]@);
        assert(nv.skip(i as int).drop_first() =~= nv.skip(i + 1));
        match provided.get(names[i].as_str()) {
            Some(_) => {
                return Some(names[i].clone());
            },
            None => {},
        }
        i = i + 1;
    }
    None
}

/// The bind group bindings of a set (see `group_bindings_of`); the
/// resources are looked up by the names returned.
pub fn group_bindings<R>(merged: &Vec<MergedVariable>, provided: &NamedMap<R>) -> (r: Vec<(u32, String)>)
    requires
        provided.wf(),
    ensures
        bound_names_view(r@) == group_bindings_of(merged_views(merged@), provided@),
{
    let ghost mv = merged_views(merged@);
    let mut out: Vec<(u32, String)> = Vec::new();
    let n = merged.len();
    let mut i: usize = 0;
    while i < n
        invariant
            i <= n == merged@.len(),
            mv == merged_views(merged@),
            provided.wf(),
            bound_names_view(out@) == group_bindings_of(mv.take(i as int), provided@),
        decreases n - i,
    {
        assert(mv.take(i + 1).drop_last() =~= mv.take(i as int));
        assert(mv.take(i + 1).last() == merged_view(merged@[i as int]));
        match first_provided_exec(&merged[i].names, provided) {
            Some(name) => {
                let ghost before = bound_names_view(out@);
                let b = merged[i].var.binding;
                let ghost e = (b, name@);
                out.push((b, name));
                assert(bound_names_view(out@) =~= before.push(e));
            },
            None => {},
        }
        i = i + 1;
    }
    assert(mv.take(n as int) =~= mv);
    out
}

// ------------------------------------------------------ bind table sets

pub open spec fn config_of<R>(configs: Map<Seq<char>, BindTableVariable<R>>, name: Seq<char>) -> Option<BindTableVariable<R>> {
    if configs.contains_key(name) {
        Some(configs[name])
    } else {
        None
    }
}

/// First index from `k` on of a variable with binding `b`.
pub open spec fn find_kind(ks: Seq<VarKind>, b: u32, k: int) -> Option<int>
    decreases ks.len() - k,
{
    if k < 0 || k >= ks.len() {
        None
    } else if ks[k].binding == b {
        Some(k)
    } else {
        find_kind(ks, b, k + 1)
    }
}

pub proof fn lemma_find_kind(ks: Seq<VarKind>, b: u32, k: int)
    requires
        0 <= k,
    ensures
        find_kind(ks, b, k) matches Some(i) ==> k <= i < ks.len() && ks[i].binding == b,
        find_kind(ks, b, k) is None ==> forall|j: int| k <= j < ks.len() ==> #[trigger] ks[j].binding != b,
    decreases ks.len() - k,
{
    if k < ks.len() && ks[k].binding != b {
        lemma_find_kind(ks, b, k + 1);
    }
}

/// The table variables of `set`, one per binding with its resolved count,
/// in order of first appearance; two variables of one binding that resolve
/// to different counts make the set unusable.
pub open spec fn combine_table_vars<R>(vs: Seq<VarView>, set: u32, configs: Map<Seq<char>, BindTableVariable<R>>) -> Option<Seq<VarKind>>
    decreases vs.len(),
{
    if vs.len() == 0 {
        Some(Seq::empty())
    } else {
        match combine_table_vars(vs.drop_last(), set, configs) {
            None => None,
            Some(acc) => {
                let v = vs.last();
                if v.1 != set {
                    Some(acc)
                } else {
                    let count = binding_count(kind_of(v), config_of(configs, v.0));
                    match find_kind(acc, v.3, 0) {
                        Some(i) => if acc[i].count != count {
                            None
                        } else {
                            Some(acc)
                        },
                        None => Some(acc.push(VarKind { var_type: v.2, binding: v.3, count })),
                    }
                }
            },
        }
    }
}

/// Where `x` goes among `s`: after the last variable of no larger binding.
pub open spec fn kind_insert_pos(s: Seq<VarKind>, x: VarKind) -> int
    decreases s.len(),
{
    if s.len() == 0 {
        0
    } else if s.last().binding <= x.binding {
        s.len() as int
    } else {
        kind_insert_pos(s.drop_last(), x)
    }
}

/// The variables sorted by binding.
pub open spec fn sort_kinds(s: Seq<VarKind>) -> Seq<VarKind>
    decreases s.len(),
{
    if s.len() == 0 {
        Seq::empty()
    } else {
        let t = sort_kinds(s.drop_last());
        t.insert(kind_insert_pos(t, s.last()), s.last())
    }
}

pub proof fn lemma_kind_insert_pos(s: Seq<VarKind>, x: VarKind)
    ensures
        0 <= kind_insert_pos(s, x) <= s.len(),
    decreases s.len(),
{
    if s.len() > 0 && s.last().binding > x.binding {
        lemma_kind_insert_pos(s.drop_last(), x);
    }
}

/// A bind table binding to create: binding, the name it is updated by,
/// its size and how it is first filled.
pub struct TableEntry {
    pub binding: u32,
    pub name: String,
    pub size: u32,
    pub fill: TableFill,
}

pub type TableEntryView = (u32, Seq<char>, u32, TableFill);

pub open spec fn table_entry_view(e: TableEntry) -> TableEntryView {
    (e.binding, e.name@, e.size, e.fill)
}

pub open spec fn table_entry_views(v: Seq<TableEntry>) -> Seq<TableEntryView> {
    v.map_values(|e: TableEntry| table_entry_view(e))
}

pub open spec fn has_binding(es: Seq<TableEntryView>, b: u32) -> bool {
    exists|i: int| 0 <= i < es.len() && #[trigger] es[i].0 == b
}

/// The table bindings of `set`: each variable with a table configuration
/// whose configuration fits the binding's resolved count (else the set is
/// unusable); with `once`, a binding is taken at its first variable only.
pub open spec fn table_entries_of<R>(vs: Seq<VarView>, set: u32, configs: Map<Seq<char>, BindTableVariable<R>>, once: bool) -> Option<Seq<TableEntryView>>
    decreases vs.len(),
{
    if vs.len() == 0 {
        Some(Seq::empty())
    } else {
        match table_entries_of(vs.drop_last(), set, configs, once) {
            None => None,
            Some(acc) => {
                let v = vs.last();
                if v.1 != set || !configs.contains_key(v.0) {
                    Some(acc)
                } else if once && has_binding(acc, v.3) {
                    Some(acc)
                } else {
                    let expected = binding_count(kind_of(v), Some(configs[v.0]));
                    match table_fill(configs[v.0], expected) {
                        None => None,
                        Some(f) => Some(acc.push((v.3, v.0, expected, f))),
                    }
                }
            },
        }
    }
}

/// What a set of a pipeline's bind tables needs: its layout variables and
/// the bindings to create.
pub struct TableSetPlan {
    pub layout: Vec<VarKind>,
    pub entries: Vec<TableEntry>,
}

/// The bind table plan of `set` for the variables `vs` of a graphics
/// pipeline's stages, in stage order.
pub open spec fn graphics_table_set<R>(vs: Seq<VarView>, set: u32, configs: Map<Seq<char>, BindTableVariable<R>>) -> Option<(Seq<VarKind>, Seq<TableEntryView>)> {
    match combine_table_vars(vs, set, configs) {
        None => None,
        Some(c) => match table_entries_of(vs, set, configs, true) {
            None => None,
            Some(es) => Some((sort_kinds(c), es)),
        },
    }
}

pub(crate) fn clone_variable(v: &ShaderVariable) -> (r: ShaderVariable)
    ensures
        r == *v,
{
    ShaderVariable { name: v.name.clone(), set: v.set, kind: v.kind }
}

/// The variables of `a`, then those of `b`.
pub fn chain_variables(a: &Vec<ShaderVariable>, b: &Vec<ShaderVariable>) -> (r: Vec<ShaderVariable>)
    ensures
        r@ == a@ + b@,
{
    let mut out: Vec<ShaderVariable> = Vec::new();
    let mut i: usize = 0;
    while i < a.len()
        invariant
            i <= a@.len(),
            out@ == a@.take(i as int),
        decreases a@.len() - i,
    {
        out.push(clone_variable(&a[i]));
        i = i + 1;
        assert(out@ =~= a@.take(i as int));
    }
    assert(a@.take(a@.len() as int) =~= a@);
    let mut j: usize = 0;
    while j < b.len()
        invariant
            j <= b@.len(),
            out@ == a@ + b@.take(j as int),
        decreases b@.len() - j,
    {
        out.push(clone_variable(&b[j]));
        j = j + 1;
        assert(out@ =~= a@ + b@.take(j as int));
    }
    assert(b@.take(b@.len() as int) =~= b@);
    out
}

fn find_kind_exec(ks: &Vec<VarKind>, b: u32) -> (r: Option<usize>)
    ensures
        r matches Some(i) ==> find_kind(ks@, b, 0) == Some(i as int),
        r is None ==> find_kind(ks@, b, 0) is None,
{
    let n = ks.len();
    let mut i: usize = 0;
    while i < n
        invariant
            i <= n == ks@.len(),
            find_kind(ks@, b, 0) == find_kind(ks@, b, i as int),
        decreases n - i,
    {
        if ks[i].binding == b {
            return Some(i);
        }
        i = i + 1;
    }
    None
}

fn combine_table_vars_exec<R>(vs: &Vec<ShaderVariable>, set: u32, configs: &NamedMap<BindTableVariable<R>>) -> (r: Option<Vec<VarKind>>)
    requires
        configs.wf(),
    ensures
        match combine_table_vars(var_views(vs@), set, configs@) {
            Some(c) => r matches Some(x) && x@ == c,
            None => r is None,
        },
{
    let ghost all = var_views(vs@);
    let mut acc: Vec<VarKind> = Vec::new();
    let n = vs.len();
    let mut i: usize = 0;
    assert(all.take(0) =~= Seq::<VarView>::empty());
    while i < n
        invariant
            i <= n == vs@.len(),
            all == var_views(vs@),
            configs.wf(),
            combine_table_vars(all.take(i as int), set, configs@) == Some(acc@),
        decreases n - i,
    {
        assert(all.take(i + 1).drop_last() =~= all.take(i as int));
        assert(all.take(i + 1).last() == var_view(vs@[i as int]));
        let v = &vs[i];
        if v.set == set {
            let config = configs.get(v.name.as_str());
            let count = resolve_binding_count(&v.kind, config);
            assert(config_of(configs@, v.name@) == match config {
                Some(c) => Some(*c),
                None => None::<BindTableVariable<R>>,
            });
            proof {
                lemma_find_kind(acc@, v.kind.binding, 0);
            }
            match find_kind_exec(&acc, v.kind.binding) {
                Some(k) => {
                    if acc[k].count != count {
                        proof {
                            lemma_combine_none_stays(all, i + 1, set, configs@);
                        }
                        return None;
                    }
                },
                None => {
                    acc.push(VarKind { var_type: v.kind.var_type, binding: v.kind.binding, count });
                },
            }
        }
        i = i + 1;
    }
    assert(all.take(n as int) =~= all);
    Some(acc)
}

proof fn lemma_combine_none_stays<R>(all: Seq<VarView>, k: int, set: u32, configs: Map<Seq<char>, BindTableVariable<R>>)
    requires
        0 <= k <= all.len(),
        combine_table_vars(all.take(k), set, configs) is None,
    ensures
        combine_table_vars(all, set, configs) is None,
    decreases all.len() - k,
{
    if k < all.len() {
        assert(all.take(k + 1).drop_last() =~= all.take(k));
        lemma_combine_none_stays(all, k + 1, set, configs);
    } else {
        assert(all.take(k) =~= all);
    }
}

proof fn lemma_entries_none_stays<R>(all: Seq<VarView>, k: int, set: u32, configs: Map<Seq<char>, BindTableVariable<R>>, once: bool)
    requires
        0 <= k <= all.len(),
        table_entries_of(all.take(k), set, configs, once) is None,
    ensures
        table_entries_of(all, set, configs, once) is None,
    decreases all.len() - k,
{
    if k < all.len() {
        assert(all.take(k + 1).drop_last() =~= all.take(k));
        lemma_entries_none_stays(all, k + 1, set, configs, once);
    } else {
        assert(all.take(k) =~= all);
    }
}

fn has_binding_exec(es: &Vec<TableEntry>, b: u32) -> (r: bool)
    ensures
        r == has_binding(table_entry_views(es@), b),
{
    let ghost ev = table_entry_views(es@);
    let n = es.len();
    let mut i: usize = 0;
    while i < n
        invariant
            i <= n == es@.len(),
            ev == table_entry_views(es@),
            forall|j: int| 0 <= j < i ==> #[trigger] ev[j].0 != b,
        decreases n - i,
    {
        assert(ev[i as int] == table_entry_view(es@[i as int]));
        if es[i].binding == b {
            assert(ev[i as int].0 == b);
            return true;
        }
        i = i + 1;
    }
    false
}

fn table_entries_exec<R>(vs: &Vec<ShaderVariable>, set: u32, configs: &NamedMap<BindTableVariable<R>>, once: bool) -> (r: Option<Vec<TableEntry>>)
    requires
        configs.wf(),
    ensures
        match table_entries_of(var_views(vs@), set, configs@, once) {
            Some(es) => r matches Some(x) && table_entry_views(x@) == es,
            None => r is None,
        },
{
    let ghost all = var_views(vs@);
    let mut acc: Vec<TableEntry> = Vec::new();
    let n = vs.len();
    let mut i: usize = 0;
    assert(all.take(0) =~= Seq::<VarView>::empty());
    assert(table_entry_views(acc@) =~= Seq::<TableEntryView>::empty());
    while i < n
        invariant
            i <= n == vs@.len(),
            all == var_views(vs@),
            configs.wf(),
            table_entries_of(all.take(i as int), set, configs@, once) == Some(table_entry_views(acc@)),
        decreases n - i,
    {
        assert(all.take(i + 1).drop_last() =~= all.take(i as int));
        assert(all.take(i + 1).last() == var_view(vs@[i as int]));
        let v = &vs[i];
        if v.set == set {
            match configs.get(v.name.as_str()) {
                Some(config) => {
                    let skip = once && has_binding_exec(&acc, v.kind.binding);
                    if !skip {
                        let expected = resolve_binding_count(&v.kind, Some(config));
                        match resources_from_config(config, expected) {
                            None => {
                                proof {
                                    lemma_entries_none_stays(all, i + 1, set, configs@, once);
                                }
                                return None;
                            },
                            Some(fill) => {
                                let ghost before = table_entry_views(acc@);
                                let e = TableEntry { binding: v.kind.binding, name: v.name.clone(), size: expected, fill };
                                let ghost ev = table_entry_view(e);
                                acc.push(e);
                                assert(table_entry_views(acc@) =~= before.push(ev));
                            },
                        }
                    }
                },
                None => {},
            }
        }
        i = i + 1;
    }
    assert(all.take(n as int) =~= all);
    Some(acc)
}

fn insert_kind(v: &mut Vec<VarKind>, x: VarKind)
    ensures
        final(v)@ == old(v)@.insert(kind_insert_pos(old(v)@, x), x),
{
    let ghost vv = v@;
    let mut p = v.len();
    proof {
        assert(vv.take(p as int) =~= vv);
    }
    while p > 0 && v[p - 1].binding > x.binding
        invariant
            p <= v@.len(),
            vv == v@,
            kind_insert_pos(vv, x) == kind_insert_pos(vv.take(p as int), x),
        decreases p,
    {
        proof {
            assert(vv.take(p as int).drop_last() =~= vv.take(p - 1));
        }
        p = p - 1;
    }
    proof {
        lemma_kind_insert_pos(vv, x);
    }
    v.insert(p, x);
}

fn sort_kinds_exec(ks: &Vec<VarKind>) -> (r: Vec<VarKind>)
    ensures
        r@ == sort_kinds(ks@),
{
    let mut out: Vec<VarKind> = Vec::new();
    let n = ks.len();
    let mut i: usize = 0;
    assert(ks@.take(0) =~= Seq::<VarKind>::empty());
    while i < n
        invariant
            i <= n == ks@.len(),
            out@ == sort_kinds(ks@.take(i as int)),
        decreases n - i,
    {
        assert(ks@.take(i + 1).drop_last() =~= ks@.take(i as int));
        insert_kind(&mut out, ks[i]);
        i = i + 1;
    }
    assert(ks@.take(n as int) =~= ks@);
    out
}

/// The bind table plan of `set` in the pipeline of `vertex` and `fragment`
/// (see `graphics_table_set`); `None` when counts clash or a configuration
/// does not fit its binding.
pub fn plan_graphics_table_set<R>(vertex: &CompilationResult, fragment: &CompilationResult, set: u32, configs: &NamedMap<BindTableVariable<R>>) -> (r: Option<TableSetPlan>)
    requires
        configs.wf(),
    ensures
        match graphics_table_set(var_views(vertex.variables@) + var_views(fragment.variables@), set, configs@) {
            Some((layout, es)) => r matches Some(p) && p.layout@ == layout && table_entry_views(p.entries@) == es,
            None => r is None,
        },
{
    let vs = chain_variables(&vertex.variables, &fragment.variables);
    assert(var_views(vs@) =~= var_views(vertex.variables@) + var_views(fragment.variables@));
    let combined = match combine_table_vars_exec(&vs, set, configs) {
        Some(c) => c,
        None => return None,
    };
    let entries = match table_entries_exec(&vs, set, configs, true) {
        Some(e) => e,
        None => return None,
    };
    Some(TableSetPlan { layout: sort_kinds_exec(&combined), entries })
}

// --------------------------------------------------------- compute sets

/// The variables of `set` in a compute shader, each with its resolved
/// count, in shader order.
pub open spec fn compute_set_vars<R>(vs: Seq<VarView>, set: u32, configs: Map<Seq<char>, BindTableVariable<R>>) -> Seq<VarKind>
    decreases vs.len(),
{
    if vs.len() == 0 {
        Seq::empty()
    } else {
        let before = compute_set_vars(vs.drop_last(), set, configs);
        let v = vs.last();
        if v.1 == set {
            before.push(VarKind { var_type: v.2, binding: v.3, count: binding_count(kind_of(v), config_of(configs, v.0)) })
        } else {
            before
        }
    }
}

/// The bind group bindings of `set` in a compute shader: each variable
/// that has a resource, with its binding and name.
pub open spec fn provided_bindings<R>(vs: Seq<VarView>, set: u32, provided: Map<Seq<char>, R>) -> Seq<(u32, Seq<char>)>
    decreases vs.len(),
{
    if vs.len() == 0 {
        Seq::empty()
    } else {
        let before = provided_bindings(vs.drop_last(), set, provided);
        let v = vs.last();
        if v.1 == set && provided.contains_key(v.0) {
            before.push((v.3, v.0))
        } else {
            before
        }
    }
}

/// The layout variables of `set` in a compute shader (see
/// `compute_set_vars`).
pub fn plan_compute_set_vars<R>(shader: &CompilationResult, set: u32, configs: &NamedMap<BindTableVariable<R>>) -> (r: Vec<VarKind>)
    requires
        configs.wf(),
    ensures
        r@ == compute_set_vars(var_views(shader.variables@), set, configs@),
{
    let ghost all = var_views(shader.variables@);
    let mut out: Vec<VarKind> = Vec::new();
    let n = shader.variables.len();
    let mut i: usize = 0;
    assert(all.take(0) =~= Seq::<VarView>::empty());
    while i < n
        invariant
            i <= n == shader.variables@.len(),
            all == var_views(shader.variables@),
            configs.wf(),
            out@ == compute_set_vars(all.take(i as int), set, configs@),
        decreases n - i,
    {
        assert(all.take(i + 1).drop_last() =~= all.take(i as int));
        assert(all.take(i + 1).last() == var_view(shader.variables@[i as int]));
        let v = &shader.variables[i];
        if v.set == set {
            let config = configs.get(v.name.as_str());
            let count = resolve_binding_count(&v.kind, config);
            assert(config_of(configs@, v.name@) == match config {
                Some(c) => Some(*c),
                None => None::<BindTableVariable<R>>,
            });
            out.push(VarKind { var_type: v.kind.var_type, binding: v.kind.binding, count });
        }
        i = i + 1;
    }
    assert(all.take(n as int) =~= all);
    out
}

/// The bind group bindings of `set` in a compute shader (see
/// `provided_bindings`).
pub fn plan_compute_bindings<R>(shader: &CompilationResult, set: u32, provided: &NamedMap<R>) -> (r: Vec<(u32, String)>)
    requires
        provided.wf(),
    ensures
        bound_names_view(r@) == provided_bindings(var_views(shader.variables@), set, provided@),
{
    let ghost all = var_views(shader.variables@);
    let mut out: Vec<(u32, String)> = Vec::new();
    let n = shader.variables.len();
    let mut i: usize = 0;
    assert(all.take(0) =~= Seq::<VarView>::empty());
    assert(bound_names_view(out@) =~= Seq::<(u32, Seq<char>)>::empty());
    while i < n
        invariant
            i <= n == shader.variables@.len(),
            all == var_views(shader.variables@),
            provided.wf(),
            bound_names_view(out@) == provided_bindings(all.take(i as int), set, provided@),
        decreases n - i,
    {
        assert(all.take(i + 1).drop_last() =~= all.take(i as int));
        assert(all.take(i + 1).last() == var_view(shader.variables@[i as int]));
        let v = &shader.variables[i];
        if v.set == set {
            if provided.get(v.name.as_str()).is_some() {
                let ghost before = bound_names_view(out@);
                out.push((v.kind.binding, v.name.clone()));
                assert(bound_names_view(out@) =~= before.push((v.kind.binding, v.name@)));
            }
        }
        i = i + 1;
    }
    assert(all.take(n as int) =~= all);
    out
}

/// The bind table plan of `set` in a compute shader: its layout variables
/// and a binding for every variable with a table configuration; `None` when
/// a configuration does not fit its binding.
pub fn plan_compute_table_set<R>(shader: &CompilationResult, set: u32, configs: &NamedMap<BindTableVariable<R>>) -> (r: Option<TableSetPlan>)
    requires
        configs.wf(),
    ensures
        match table_entries_of(var_views(shader.variables@), set, configs@, false) {
            Some(es) => r matches Some(p) && p.layout@ == compute_set_vars(var_views(shader.variables@), set, configs@)
                && table_entry_views(p.entries@) == es,
            None => r is None,
        },
{
    let layout = plan_compute_set_vars(shader, set, configs);
    match table_entries_exec(&shader.variables, set, configs, false) {
        Some(entries) => Some(TableSetPlan { layout, entries }),
        None => None,
    }
}

// ------------------------------------------------------- table updates

/// Where a named bind table binding lives: the table, its binding and its
/// size.
#[derive(Clone, Copy)]
pub struct TableBinding<T> {
    pub table: T,
    pub binding: u32,
    pub size: u32,
}

/// The binding that an update of `key` with resources in `slots` writes:
/// none when the key is unknown or a slot lies outside the binding.
pub open spec fn update_target<T>(bindings: Map<Seq<char>, TableBinding<T>>, key: Seq<char>, slots: Seq<u32>) -> Option<TableBinding<T>> {
    if bindings.contains_key(key) && (forall|i: int| 0 <= i < slots.len() ==> #[trigger] slots[i] < bindings[key].size) {
        Some(bindings[key])
    } else {
        None
    }
}

/// Checks an update of table binding `key` (see `update_target`).
pub fn update_table_slice<T: Copy>(bindings: &NamedMap<TableBinding<T>>, key: &str, slots: &Vec<u32>) -> (r: Option<TableBinding<T>>)
    requires
        bindings.wf(),
    ensures
        r == update_target(bindings@, key@, slots@),
{
    match bindings.get(key) {
        None => None,
        Some(info) => {
            let n = slots.len();
            let mut i: usize = 0;
            while i < n
                invariant
                    i <= n == slots@.len(),
                    bindings@.contains_key(key@),
                    bindings@[key@] == *info,
                    forall|j: int| 0 <= j < i ==> #[trigger] slots@[j] < info.size,
                decreases n - i,
            {
                if slots[i] >= info.size {
                    assert(!(slots@[i as int] < info.size));
                    return None;
                }
                i = i + 1;
            }
            Some(*info)
        },
    }
}

/// The first four handles, in slots 0 to 3; missing ones are `None`.
pub fn first_four<H: Copy>(v: &Vec<H>) -> (r: [Option<H>; 4])
    ensures
        forall|i: int| 0 <= i < 4 ==> #[trigger] r@[i] == if i < v@.len() {
            Some(v@[i])
        } else {
            None
        },
{
    let mut out: [Option<H>; 4] = [None, None, None, None];
    let mut i: usize = 0;
    while i < 4 && i < v.len()
        invariant
            i <= 4,
            i <= v@.len(),
            forall|j: int| 0 <= j < 4 ==> #[trigger] out@[j] == if j < i {
                Some(v@[j])
            } else {
                None
            },
        decreases 4 - i,
    {
        out.set(i, Some(v[i]));
        i = i + 1;
    }
    out
}

// ----------------------------------------------------------------- builders

/// Collects the stages, resources and table configurations of a graphics
/// pipeline; `details` stays `None` until set (the backend's defaults).
pub struct GraphicsPipelineBuilder<R, D> {
    pub vertex: Option<CompilationResult>,
    pub fragment: Option<CompilationResult>,
    pub variables: NamedMap<R>,
    pub table_variables: NamedMap<BindTableVariable<R>>,
    pub details: Option<D>,
}

impl<R, D> GraphicsPipelineBuilder<R, D> {
    pub open spec fn wf(&self) -> bool {
        self.variables.wf() && self.table_variables.wf()
    }

    pub fn new() -> (r: Self)
        ensures
            r.wf(),
            r.vertex is None,
            r.fragment is None,
            r.variables@ == Map::<Seq<char>, R>::empty(),
            r.table_variables@ == Map::<Seq<char>, BindTableVariable<R>>::empty(),
            r.details is None,
    {
        GraphicsPipelineBuilder {
            vertex: None,
            fragment: None,
            variables: NamedMap::new(),
            table_variables: NamedMap::new(),
            details: None,
        }
    }

    /// Uses `shader`, when given, as the vertex stage.
    pub fn vertex_compiled(self, shader: Option<CompilationResult>) -> (r: Self)
        ensures
            r.vertex == (match shader {
                Some(s) => Some(s),
                None => self.vertex,
            }),
            r.fragment == self.fragment,
            r.variables == self.variables,
            r.table_variables == self.table_variables,
            r.details == self.details,
    {
        match shader {
            Some(compiled) => GraphicsPipelineBuilder {
                vertex: Some(compiled),
                fragment: self.fragment,
                variables: self.variables,
                table_variables: self.table_variables,
                details: self.details,
            },
            None => self,
        }
    }

    /// Uses `shader`, when given, as the fragment stage.
    pub fn fragment_compiled(self, shader: Option<CompilationResult>) -> (r: Self)
        ensures
            r.fragment == (match shader {
                Some(s) => Some(s),
                None => self.fragment,
            }),
            r.vertex == self.vertex,
            r.variables == self.variables,
            r.table_variables == self.table_variables,
            r.details == self.details,
    {
        match shader {
            Some(compiled) => GraphicsPipelineBuilder {
                vertex: self.vertex,
                fragment: Some(compiled),
                variables: self.variables,
                table_variables: self.table_variables,
                details: self.details,
            },
            None => self,
        }
    }

    /// Configures table binding `key` with `size` default resources.
    pub fn add_table_variable(self, key: &str, size: u32) -> (r: Self)
        requires
            self.wf(),
        ensures
            r.wf(),
            r.table_variables@ == self.table_variables@.insert(key@, BindTableVariable::Empty { size }),
            r.vertex == self.vertex,
            r.fragment == self.fragment,
            r.variables == self.variables,
            r.details == self.details,
    {
        let mut table_variables = self.table_variables;
        table_variables.insert(string_of(chars_of(key).as_slice()), BindTableVariable::Empty { size });
        GraphicsPipelineBuilder {
            vertex: self.vertex,
            fragment: self.fragment,
            variables: self.variables,
            table_variables,
            details: self.details,
        }
    }

    /// Configures table binding `key` with the given resources.
    pub fn add_table_variable_with_resources(self, key: &str, resources: Vec<IndexedResource<R>>) -> (r: Self)
        requires
            self.wf(),
        ensures
            r.wf(),
            r.table_variables@ == self.table_variables@.insert(key@, BindTableVariable::WithResources { resources }),
            r.vertex == self.vertex,
            r.fragment == self.fragment,
            r.variables == self.variables,
            r.details == self.details,
    {
        let mut table_variables = self.table_variables;
        table_variables.insert(string_of(chars_of(key).as_slice()), BindTableVariable::WithResources { resources });
        GraphicsPipelineBuilder {
            vertex: self.vertex,
            fragment: self.fragment,
            variables: self.variables,
            table_variables,
            details: self.details,
        }
    }

    /// Binds resource `variable` to the shader variable named `key`.
    pub fn add_variable(self, key: &str, variable: R) -> (r: Self)
        requires
            self.wf(),
        ensures
            r.wf(),
            r.variables@ == self.variables@.insert(key@, variable),
            r.vertex == self.vertex,
            r.fragment == self.fragment,
            r.table_variables == self.table_variables,
            r.details == self.details,
    {
        let mut variables = self.variables;
        variables.insert(string_of(chars_of(key).as_slice()), variable);
        GraphicsPipelineBuilder {
            vertex: self.vertex,
            fragment: self.fragment,
            variables,
            table_variables: self.table_variables,
            details: self.details,
        }
    }

    pub fn set_details(self, details: D) -> (r: Self)
        ensures
            r.details == Some(details),
            r.vertex == self.vertex,
            r.fragment == self.fragment,
            r.variables == self.variables,
            r.table_variables == self.table_variables,
    {
        GraphicsPipelineBuilder {
            vertex: self.vertex,
            fragment: self.fragment,
            variables: self.variables,
            table_variables: self.table_variables,
            details: Some(details),
        }
    }
}

/// Collects the shader, resources and table configurations of a compute
/// pipeline.
pub struct ComputePipelineBuilder<R> {
    pub shader: Option<CompilationResult>,
    pub variables: NamedMap<R>,
    pub table_variables: NamedMap<BindTableVariable<R>>,
}

impl<R> ComputePipelineBuilder<R> {
    pub open spec fn wf(&self) -> bool {
        self.variables.wf() && self.table_variables.wf()
    }

    pub fn new() -> (r: Self)
        ensures
            r.wf(),
            r.shader is None,
            r.variables@ == Map::<Seq<char>, R>::empty(),
            r.table_variables@ == Map::<Seq<char>, BindTableVariable<R>>::empty(),
    {
        ComputePipelineBuilder { shader: None, variables: NamedMap::new(), table_variables: NamedMap::new() }
    }

    /// Uses `shader`, when given, as the compute stage.
    pub fn shader_compiled(self, shader: Option<CompilationResult>) -> (r: Self)
        ensures
            r.shader == (match shader {
                Some(s) => Some(s),
                None => self.shader,
            }),
            r.variables == self.variables,
            r.table_variables == self.table_variables,
    {
        match shader {
            Some(compiled) => ComputePipelineBuilder {
                shader: Some(compiled),
                variables: self.variables,
                table_variables: self.table_variables,
            },
            None => self,
        }
    }

    /// Configures table binding `key` with `size` default resources.
    pub fn add_table_variable(self, key: &str, size: u32) -> (r: Self)
        requires
            self.wf(),
        ensures
            r.wf(),
            r.table_variables@ == self.table_variables@.insert(key@, BindTableVariable::Empty { size }),
            r.shader == self.shader,
            r.variables == self.variables,
    {
        let mut table_variables = self.table_variables;
        table_variables.insert(string_of(chars_of(key).as_slice()), BindTableVariable::Empty { size });
        ComputePipelineBuilder { shader: self.shader, variables: self.variables, table_variables }
    }

    /// Configures table binding `key` with the given resources.
    pub fn add_table_variable_with_resources(self, key: &str, resources: Vec<IndexedResource<R>>) -> (r: Self)
        requires
            self.wf(),
        ensures
            r.wf(),
            r.table_variables@ == self.table_variables@.insert(key@, BindTableVariable::WithResources { resources }),
            r.shader == self.shader,
            r.variables == self.variables,
    {
        let mut table_variables = self.table_variables;
        table_variables.insert(string_of(chars_of(key).as_slice()), BindTableVariable::WithResources { resources });
        ComputePipelineBuilder { shader: self.shader, variables: self.variables, table_variables }
    }

    /// Binds resource `variable` to the shader variable named `key`.
    pub fn add_variable(self, key: &str, variable: R) -> (r: Self)
        requires
            self.wf(),
        ensures
            r.wf(),
            r.variables@ == self.variables@.insert(key@, variable),
            r.shader == self.shader,
            r.table_variables == self.table_variables,
    {
        let mut variables = self.variables;
        variables.insert(string_of(chars_of(key).as_slice()), variable);
        ComputePipelineBuilder { shader: self.shader, variables, table_variables: self.table_variables }
    }
}

} // verus!
