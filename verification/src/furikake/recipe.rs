//! Recipes for the bind tables that a set of shaders needs from a state:
//! which sets get a table, the layout of each set by stage, and the
//! bindings each table is cooked from.

use vstd::prelude::*;

use super::resolver::{resolved_from, FurikakeError, ReservedMetadata, Resolver};
use crate::bento::builder::{clone_variable, contains_name, kind_of, names_view};
use crate::bento::reflect::{insert_by_slot, sort_by_slot, var_view, var_views, VarView};
use crate::bento::types::{BindTableVariable as VarKind, CompilationResult, ShaderType, ShaderVariable};

verus! {

/// A shader's stage with one of its variables.
pub type StagePair = (ShaderType, VarView);

pub open spec fn shader_pairs(s: CompilationResult) -> Seq<StagePair> {
    var_views(s.variables@).map_values(|v: VarView| (s.stage, v))
}

/// The variables of all shaders, in order, each with its shader's stage.
pub open spec fn all_pairs(shaders: Seq<CompilationResult>) -> Seq<StagePair>
    decreases shaders.len(),
{
    if shaders.len() == 0 {
        Seq::empty()
    } else {
        all_pairs(shaders.drop_last()) + shader_pairs(shaders.last())
    }
}

/// The name of the first variable that the state does not reserve.
pub open spec fn first_unknown(vs: Seq<VarView>, names: Seq<Seq<char>>) -> Option<Seq<char>>
    decreases vs.len(),
{
    if vs.len() == 0 {
        None
    } else {
        match first_unknown(vs.drop_last(), names) {
            Some(n) => Some(n),
            None => if names.contains(vs.last().0) {
                None
            } else {
                Some(vs.last().0)
            },
        }
    }
}

/// The first refusal among `shaders`, in order: a shader whose reserved
/// bindings do not resolve (see `resolved_from`), else a variable the state
/// does not reserve (a missing binding).
pub open spec fn recipe_error(metas: Seq<ReservedMetadata>, names: Seq<Seq<char>>, shaders: Seq<CompilationResult>) -> Option<(Seq<char>, bool)>
    decreases shaders.len(),
{
    if shaders.len() == 0 {
        None
    } else {
        match recipe_error(metas, names, shaders.drop_last()) {
            Some(e) => Some(e),
            None => {
                let vs = var_views(shaders.last().variables@);
                match resolved_from(metas, vs, 0) {
                    Err(e) => Some(e),
                    Ok(_) => match first_unknown(vs, names) {
                        Some(n) => Some((n, true)),
                        None => None,
                    },
                }
            },
        }
    }
}

pub type StageGroup = (ShaderType, Seq<VarKind>);

/// The first group of stage `st`.
pub open spec fn stage_index(g: Seq<StageGroup>, st: ShaderType) -> Option<int>
    decreases g.len(),
{
    if g.len() == 0 {
        None
    } else {
        match stage_index(g.drop_last(), st) {
            Some(i) => Some(i),
            None => if g.last().0 == st {
                Some(g.len() - 1)
            } else {
                None
            },
        }
    }
}

/// The layout of `set`: for each stage, in the order the stages first
/// show up, the variables of that stage in `set`.
pub open spec fn stage_groups(pairs: Seq<StagePair>, set: u32) -> Seq<StageGroup>
    decreases pairs.len(),
{
    if pairs.len() == 0 {
        Seq::empty()
    } else {
        let g = stage_groups(pairs.drop_last(), set);
        let (st, v) = pairs.last();
        if v.1 != set {
            g
        } else {
            match stage_index(g, st) {
                Some(i) => g.update(i, (st, g[i].1.push(kind_of(v)))),
                None => g.push((st, seq![kind_of(v)])),
            }
        }
    }
}

pub open spec fn names_of(vs: Seq<VarView>) -> Seq<Seq<char>> {
    vs.map_values(|v: VarView| v.0)
}

/// The variables of `set`, the first of each name only.
pub open spec fn first_by_name(pairs: Seq<StagePair>, set: u32) -> Seq<VarView>
    decreases pairs.len(),
{
    if pairs.len() == 0 {
        Seq::empty()
    } else {
        let acc = first_by_name(pairs.drop_last(), set);
        let v = pairs.last().1;
        if v.1 == set && !names_of(acc).contains(v.0) {
            acc.push(v)
        } else {
            acc
        }
    }
}

/// The sets that variables are declared in.
pub open spec fn sets_of(pairs: Seq<StagePair>) -> Set<u32> {
    Set::new(|s: u32| exists|i: int| 0 <= i < pairs.len() && #[trigger] pairs[i].1.1 == s)
}

pub open spec fn ascending(s: Seq<u32>) -> bool {
    forall|i: int, j: int| 0 <= i < j < s.len() ==> #[trigger] s[i] < #[trigger] s[j]
}

/// The bind table of one set: its layout by stage and the variables it is
/// cooked from, sorted by binding.
pub struct RecipeSetPlan {
    pub set: u32,
    pub stages: Vec<(ShaderType, Vec<VarKind>)>,
    pub bindings: Vec<ShaderVariable>,
}

pub open spec fn plan_sets(plans: Seq<RecipeSetPlan>) -> Seq<u32> {
    plans.map_values(|p: RecipeSetPlan| p.set)
}

pub open spec fn group_views(g: Seq<(ShaderType, Vec<VarKind>)>) -> Seq<StageGroup> {
    g.map_values(|x: (ShaderType, Vec<VarKind>)| (x.0, x.1@))
}

// ------------------------------------------------------------- executable

fn first_unknown_exec(vars: &Vec<ShaderVariable>, names: &Vec<String>) -> (r: Option<usize>)
    ensures
        r matches Some(i) ==> i < vars@.len() && first_unknown(var_views(vars@), names_view(names@)) == Some(
            vars@[i as int].name@,
        ),
        r is None ==> first_unknown(var_views(vars@), names_view(names@)) is None,
{
    let ghost vs = var_views(vars@);
    let ghost ns = names_view(names@);
    let n = vars.len();
    let mut i: usize = 0;
    while i < n
        invariant
            i <= n == vars@.len(),
            vs == var_views(vars@),
            ns == names_view(names@),
            first_unknown(vs.take(i as int), ns) is None,
        decreases n - i,
    {
        proof {
            assert(vs.take(i + 1).drop_last() =~= vs.take(i as int));
            assert(vs.take(i + 1).last() == var_view(vars@[i as int]));
        }
        if !contains_name(names, &vars[i].name) {
            proof {
                lemma_first_unknown_extend(vs, i + 1, ns);
            }
            return Some(i);
        }
        i = i + 1;
    }
    assert(vs.take(n as int) =~= vs);
    None
}

proof fn lemma_first_unknown_extend(vs: Seq<VarView>, j: int, ns: Seq<Seq<char>>)
    requires
        0 <= j <= vs.len(),
        first_unknown(vs.take(j), ns) is Some,
    ensures
        first_unknown(vs, ns) == first_unknown(vs.take(j), ns),
    decreases vs.len() - j,
{
    if j < vs.len() {
        assert(vs.take(j + 1).drop_last() =~= vs.take(j));
        lemma_first_unknown_extend(vs, j + 1, ns);
    } else {
        assert(vs.take(j) =~= vs);
    }
}

fn check_shaders(metadata: &Vec<ReservedMetadata>, names: &Vec<String>, shaders: &Vec<CompilationResult>) -> (r: Result<(), FurikakeError>)
    ensures
        match recipe_error(metadata@, names_view(names@), shaders@) {
            None => r is Ok,
            Some((t, true)) => r matches Err(FurikakeError::MissingReservedBinding { name }) && name@ == t,
            Some((t, false)) => r matches Err(FurikakeError::ResolverReflection { source }) && source@ == t,
        },
{
    let ghost ns = names_view(names@);
    let n = shaders.len();
    let mut k: usize = 0;
    while k < n
        invariant
            k <= n == shaders@.len(),
            ns == names_view(names@),
            recipe_error(metadata@, ns, shaders@.take(k as int)) is None,
        decreases n - k,
    {
        proof {
            assert(shaders@.take(k + 1).drop_last() =~= shaders@.take(k as int));
            assert(shaders@.take(k + 1).last() == shaders@[k as int]);
        }
        let outcome = Resolver::new(metadata, &shaders[k]);
        match outcome {
            Err(e) => {
                proof {
                    lemma_recipe_error_extend(metadata@, ns, shaders@, k + 1);
                }
                return Err(e);
            },
            Ok(_) => {},
        }
        match first_unknown_exec(&shaders[k].variables, names) {
            Some(i) => {
                proof {
                    lemma_recipe_error_extend(metadata@, ns, shaders@, k + 1);
                }
                return Err(FurikakeError::MissingReservedBinding { name: shaders[k].variables[i].name.clone() });
            },
            None => {},
        }
        k = k + 1;
    }
    assert(shaders@.take(n as int) =~= shaders@);
    Ok(())
}

proof fn lemma_recipe_error_extend(metas: Seq<ReservedMetadata>, ns: Seq<Seq<char>>, s: Seq<CompilationResult>, j: int)
    requires
        0 <= j <= s.len(),
        recipe_error(metas, ns, s.take(j)) is Some,
    ensures
        recipe_error(metas, ns, s) == recipe_error(metas, ns, s.take(j)),
    decreases s.len() - j,
{
    if j < s.len() {
        assert(s.take(j + 1).drop_last() =~= s.take(j));
        lemma_recipe_error_extend(metas, ns, s, j + 1);
    } else {
        assert(s.take(j) =~= s);
    }
}

pub open spec fn pair_views(v: Seq<(ShaderType, ShaderVariable)>) -> Seq<StagePair> {
    v.map_values(|p: (ShaderType, ShaderVariable)| (p.0, var_view(p.1)))
}

fn flatten_pairs(shaders: &Vec<CompilationResult>) -> (r: Vec<(ShaderType, ShaderVariable)>)
    ensures
        pair_views(r@) == all_pairs(shaders@),
{
    let mut out: Vec<(ShaderType, ShaderVariable)> = Vec::new();
    let n = shaders.len();
    let mut k: usize = 0;
    while k < n
        invariant
            k <= n == shaders@.len(),
            pair_views(out@) == all_pairs(shaders@.take(k as int)),
        decreases n - k,
    {
        proof {
            assert(shaders@.take(k + 1).drop_last() =~= shaders@.take(k as int));
        }
        let s = &shaders[k];
        let ghost base = pair_views(out@);
        let m = s.variables.len();
        let mut j: usize = 0;
        assert(base + shader_pairs(*s).take(0) =~= base);
        while j < m
            invariant
                j <= m == s.variables@.len(),
                pair_views(out@) == base + shader_pairs(*s).take(j as int),
            decreases m - j,
        {
            let v = clone_variable(&s.variables[j]);
            let ghost before = out@;
            out.push((s.stage, v));
            proof {
                assert(out@ =~= before.push((s.stage, v)));
                assert(pair_views(out@) =~= pair_views(before).push((s.stage, var_view(v))));
                assert(shader_pairs(*s)[j as int] == (s.stage, var_view(s.variables@[j as int])));
                assert(base + shader_pairs(*s).take(j + 1) =~= (base + shader_pairs(*s).take(j as int)).push(
                    (s.stage, var_view(v)),
                ));
            }
            j = j + 1;
        }
        assert(shader_pairs(*s).take(m as int) =~= shader_pairs(*s));
        k = k + 1;
    }
    assert(shaders@.take(n as int) =~= shaders@);
    out
}

fn insert_set(sets: &mut Vec<u32>, s: u32)
    requires
        ascending(old(sets)@),
    ensures
        ascending(final(sets)@),
        final(sets)@.to_set() == old(sets)@.to_set().insert(s),
{
    let ghost before = sets@;
    let n = sets.len();
    let mut i: usize = 0;
    while i < n && sets[i] < s
        invariant
            i <= n == sets@.len(),
            sets@ == before,
            forall|j: int| 0 <= j < i ==> #[trigger] sets@[j] < s,
        decreases n - i,
    {
        i = i + 1;
    }
    if i < n && sets[i] == s {
        assert(before.to_set().insert(s) =~= before.to_set());
        return;
    }
    sets.insert(i, s);
    proof {
        assert(sets@ =~= before.insert(i as int, s));
        assert forall|a: int, b: int| 0 <= a < b < sets@.len() implies #[trigger] sets@[a] < #[trigger] sets@[b] by {
            if b < i {
            } else if a < i && b == i {
            } else if a < i {
                assert(sets@[b] == before[b - 1]);
            } else if a == i {
                assert(sets@[b] == before[b - 1]);
                assert(before[i as int] > s);
                if b - 1 > i {
                    assert(before[i as int] < before[b - 1]);
                }
            } else {
                assert(sets@[a] == before[a - 1]);
                assert(sets@[b] == before[b - 1]);
            }
        }
        assert forall|x: u32| #[trigger] sets@.to_set().contains(x) <==> before.to_set().insert(s).contains(x) by {
            if sets@.to_set().contains(x) {
                let k = choose|k: int| 0 <= k < sets@.len() && sets@[k] == x;
                if k < i {
                    assert(before[k] == x);
                } else if k > i {
                    assert(before[k - 1] == x);
                }
            }
            if before.to_set().contains(x) {
                let k = choose|k: int| 0 <= k < before.len() && before[k] == x;
                if k < i {
                    assert(sets@[k] == x);
                } else {
                    assert(sets@[k + 1] == x);
                }
            }
            if x == s {
                assert(sets@[i as int] == s);
            }
        }
        assert(sets@.to_set() =~= before.to_set().insert(s));
    }
}

fn collect_sets(pairs: &Vec<(ShaderType, ShaderVariable)>) -> (r: Vec<u32>)
    ensures
        ascending(r@),
        r@.to_set() == sets_of(pair_views(pairs@)),
{
    let ghost pv = pair_views(pairs@);
    let mut sets: Vec<u32> = Vec::new();
    let n = pairs.len();
    let mut i: usize = 0;
    while i < n
        invariant
            i <= n == pairs@.len(),
            pv == pair_views(pairs@),
            ascending(sets@),
            sets@.to_set() == sets_of(pv.take(i as int)),
        decreases n - i,
    {
        let ghost before = sets@.to_set();
        insert_set(&mut sets, pairs[i].1.set);
        proof {
            assert(pv[i as int].1.1 == pairs@[i as int].1.set);
            assert forall|x: u32| #[trigger] sets_of(pv.take(i + 1)).contains(x) <==> before.insert(pairs@[i as int].1.set).contains(x) by {
                if sets_of(pv.take(i + 1)).contains(x) {
                    let k = choose|k: int| 0 <= k < pv.take(i + 1).len() && #[trigger] pv.take(i + 1)[k].1.1 == x;
                    if k < i {
                        assert(pv.take(i as int)[k].1.1 == x);
                    }
                }
                if before.contains(x) {
                    let k = choose|k: int| 0 <= k < pv.take(i as int).len() && #[trigger] pv.take(i as int)[k].1.1 == x;
                    assert(pv.take(i + 1)[k].1.1 == x);
                }
                if x == pairs@[i as int].1.set {
                    assert(pv.take(i + 1)[i as int].1.1 == x);
                }
            }
            assert(sets_of(pv.take(i + 1)) =~= before.insert(pairs@[i as int].1.set));
        }
        i = i + 1;
    }
    assert(pv.take(n as int) =~= pv);
    sets
}

fn stage_index_exec(g: &Vec<(ShaderType, Vec<VarKind>)>, st: ShaderType) -> (r: Option<usize>)
    ensures
        r matches Some(i) ==> i < g@.len() && stage_index(group_views(g@), st) == Some(i as int),
        r is None ==> stage_index(group_views(g@), st) is None,
{
    let ghost gv = group_views(g@);
    let n = g.len();
    let mut i: usize = 0;
    while i < n
        invariant
            i <= n == g@.len(),
            gv == group_views(g@),
            stage_index(gv.take(i as int), st) is None,
        decreases n - i,
    {
        proof {
            assert(gv.take(i + 1).drop_last() =~= gv.take(i as int));
            assert(gv.take(i + 1).last() == (g@[i as int].0, g@[i as int].1@));
        }
        if g[i].0 == st {
            proof {
                lemma_stage_index_extend(gv, i + 1, st);
            }
            return Some(i);
        }
        i = i + 1;
    }
    assert(gv.take(n as int) =~= gv);
    None
}

proof fn lemma_stage_index_found(g: Seq<StageGroup>, st: ShaderType)
    ensures
        stage_index(g, st) matches Some(i) ==> 0 <= i < g.len() && g[i].0 == st,
    decreases g.len(),
{
    if g.len() > 0 {
        lemma_stage_index_found(g.drop_last(), st);
        if let Some(i) = stage_index(g.drop_last(), st) {
            assert(g.drop_last()[i] == g[i]);
        }
    }
}

proof fn lemma_stage_index_extend(g: Seq<StageGroup>, j: int, st: ShaderType)
    requires
        0 <= j <= g.len(),
        stage_index(g.take(j), st) is Some,
    ensures
        stage_index(g, st) == stage_index(g.take(j), st),
    decreases g.len() - j,
{
    if j < g.len() {
        assert(g.take(j + 1).drop_last() =~= g.take(j));
        lemma_stage_index_extend(g, j + 1, st);
    } else {
        assert(g.take(j) =~= g);
    }
}

fn plan_stage_groups(pairs: &Vec<(ShaderType, ShaderVariable)>, set: u32) -> (r: Vec<(ShaderType, Vec<VarKind>)>)
    ensures
        group_views(r@) == stage_groups(pair_views(pairs@), set),
{
    let ghost pv = pair_views(pairs@);
    let mut g: Vec<(ShaderType, Vec<VarKind>)> = Vec::new();
    let n = pairs.len();
    let mut i: usize = 0;
    while i < n
        invariant
            i <= n == pairs@.len(),
            pv == pair_views(pairs@),
            group_views(g@) == stage_groups(pv.take(i as int), set),
        decreases n - i,
    {
        proof {
            assert(pv.take(i + 1).drop_last() =~= pv.take(i as int));
            assert(pv.take(i + 1).last() == pv[i as int]);
        }
        let st = pairs[i].0;
        let v = &pairs[i].1;
        if v.set == set {
            let kind = v.kind;
            let ghost before = group_views(g@);
            match stage_index_exec(&g, st) {
                Some(p) => {
                    proof {
                        lemma_stage_index_found(before, st);
                    }
                    let ghost gb = g@;
                    let (st0, mut vs) = g.remove(p);
                    let ghost vs0 = vs@;
                    assert(st0 == st);
                    assert(vs0 == before[p as int].1);
                    vs.push(kind);
                    g.insert(p, (st0, vs));
                    proof {
                        assert(g@ =~= gb.update(p as int, (st0, vs)));
                        assert(group_views(g@) =~= before.update(p as int, (st, before[p as int].1.push(kind))));
                    }
                },
                None => {
                    let mut vs: Vec<VarKind> = Vec::new();
                    vs.push(kind);
                    g.push((st, vs));
                    proof {
                        assert(vs@ =~= seq![kind]);
                        assert(group_views(g@) =~= before.push((st, seq![kind])));
                    }
                },
            }
        }
        i = i + 1;
    }
    assert(pv.take(n as int) =~= pv);
    g
}

fn plan_set_bindings(pairs: &Vec<(ShaderType, ShaderVariable)>, set: u32) -> (r: Vec<ShaderVariable>)
    ensures
        var_views(r@) == sort_by_slot(first_by_name(pair_views(pairs@), set)),
{
    let ghost pv = pair_views(pairs@);
    let mut firsts: Vec<String> = Vec::new();
    let mut out: Vec<ShaderVariable> = Vec::new();
    let ghost mut chosen: Seq<VarView> = Seq::empty();
    let n = pairs.len();
    let mut i: usize = 0;
    while i < n
        invariant
            i <= n == pairs@.len(),
            pv == pair_views(pairs@),
            chosen == first_by_name(pv.take(i as int), set),
            names_view(firsts@) == names_of(chosen),
            var_views(out@) == sort_by_slot(chosen),
        decreases n - i,
    {
        proof {
            assert(pv.take(i + 1).drop_last() =~= pv.take(i as int));
            assert(pv.take(i + 1).last() == pv[i as int]);
        }
        let v = &pairs[i].1;
        if v.set == set && !contains_name(&firsts, &v.name) {
            let x = clone_variable(v);
            let ghost before_names = firsts@;
            firsts.push(x.name.clone());
            let ghost old_chosen = chosen;
            insert_by_slot(&mut out, x);
            proof {
                chosen = chosen.push(var_view(x));
                assert(chosen.drop_last() =~= old_chosen);
                assert(names_view(firsts@) =~= names_view(before_names).push(x.name@));
                assert(names_of(chosen) =~= names_of(old_chosen).push(x.name@));
            }
        }
        i = i + 1;
    }
    assert(pv.take(n as int) =~= pv);
    out
}

/// The bind table recipes that `shaders` need from a state that reserves
/// `metadata` under the names `names`: every shader must resolve the
/// reserved bindings and declare only reserved names (see
/// `recipe_error`; the first refusal is the error).  Then one plan per set
/// that any variable is declared in, in ascending order, with the set's
/// layout by stage (`stage_groups`) and its variables, the first of each
/// name, sorted by binding.
pub fn plan_recipes(metadata: &Vec<ReservedMetadata>, names: &Vec<String>, shaders: &Vec<CompilationResult>) -> (r: Result<Vec<RecipeSetPlan>, FurikakeError>)
    ensures
        recipe_error(metadata@, names_view(names@), shaders@) matches Some((t, true)) ==> (r matches Err(
            FurikakeError::MissingReservedBinding { name },
        ) && name@ == t),
        recipe_error(metadata@, names_view(names@), shaders@) matches Some((t, false)) ==> (r matches Err(
            FurikakeError::ResolverReflection { source },
        ) && source@ == t),
        recipe_error(metadata@, names_view(names@), shaders@) is None ==> r is Ok,
        r matches Ok(plans) ==> ascending(plan_sets(plans@)),
        r matches Ok(plans) ==> plan_sets(plans@).to_set() == sets_of(all_pairs(shaders@)),
        r matches Ok(plans) ==> forall|i: int|
            0 <= i < plans@.len() ==> group_views(#[trigger] plans@[i].stages@) == stage_groups(
                all_pairs(shaders@),
                plans@[i].set,
            ),
        r matches Ok(plans) ==> forall|i: int|
            0 <= i < plans@.len() ==> var_views(#[trigger] plans@[i].bindings@) == sort_by_slot(
                first_by_name(all_pairs(shaders@), plans@[i].set),
            ),
{
    match check_shaders(metadata, names, shaders) {
        Err(e) => {
            return Err(e);
        },
        Ok(()) => {},
    }
    let pairs = flatten_pairs(shaders);
    let ghost pv = pair_views(pairs@);
    let sets = collect_sets(&pairs);
    let mut plans: Vec<RecipeSetPlan> = Vec::new();
    let n = sets.len();
    let mut k: usize = 0;
    while k < n
        invariant
            k <= n == sets@.len(),
            pv == pair_views(pairs@),
            pv == all_pairs(shaders@),
            ascending(sets@),
            sets@.to_set() == sets_of(pv),
            recipe_error(metadata@, names_view(names@), shaders@) is None,
            plans@.len() == k,
            forall|i: int| 0 <= i < k ==> (#[trigger] plans@[i]).set == sets@[i],
            forall|i: int| 0 <= i < k ==> group_views(#[trigger] plans@[i].stages@) == stage_groups(pv, plans@[i].set),
            forall|i: int|
                0 <= i < k ==> var_views(#[trigger] plans@[i].bindings@) == sort_by_slot(first_by_name(pv, plans@[i].set)),
        decreases n - k,
    {
        let set = sets[k];
        let stages = plan_stage_groups(&pairs, set);
        let bindings = plan_set_bindings(&pairs, set);
        plans.push(RecipeSetPlan { set, stages, bindings });
        k = k + 1;
    }
    proof {
        assert(plan_sets(plans@) =~= sets@);
        assert forall|i: int| 0 <= i < plans@.len() implies group_views(#[trigger] plans@[i].stages@) == stage_groups(
            all_pairs(shaders@),
            plans@[i].set,
        ) by {
            assert(group_views(plans@[i].stages@) == stage_groups(pv, plans@[i].set));
        }
        assert forall|i: int| 0 <= i < plans@.len() implies var_views(#[trigger] plans@[i].bindings@) == sort_by_slot(
            first_by_name(all_pairs(shaders@), plans@[i].set),
        ) by {
            assert(var_views(plans@[i].bindings@) == sort_by_slot(first_by_name(pv, plans@[i].set)));
        }
    }
    Ok(plans)
}

} // verus!
