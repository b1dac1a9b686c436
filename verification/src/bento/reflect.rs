use vstd::prelude::*;

use super::glsl::{binding_views, glsl_scan, parse_glsl_bindings, BindingView, SourceBinding};
use super::descriptors::{descriptor_read_safe, descriptor_reads_safe, read_version, spirv_version_of};
use super::hlsl::{hlsl_bindings, parse_hlsl_like_bindings};
use super::metadata::{read_module, spirv_module_of, ModuleView};
use super::types::{BentoError, BindTableVariable, BindTableVariableType, ShaderLang, ShaderVariable};
use crate::text::{chars_of, decimal, push_all, string_of, trim, trim_range, u32_to_string};

verus! {

// ------------------------------------------------------- source matching

/// First index from `k` on whose binding satisfies `p`.
pub open spec fn first_where(v: Seq<BindingView>, p: spec_fn(BindingView) -> bool, k: int) -> Option<int>
    decreases v.len() - k,
{
    if k < 0 || k >= v.len() {
        None
    } else if p(v[k]) {
        Some(k)
    } else {
        first_where(v, p, k + 1)
    }
}

pub proof fn lemma_first_where(v: Seq<BindingView>, p: spec_fn(BindingView) -> bool, k: int)
    requires
        0 <= k,
    ensures
        first_where(v, p, k) matches Some(i) ==> k <= i < v.len() && p(v[i]),
        first_where(v, p, k) is None ==> forall|j: int| k <= j < v.len() ==> !p(#[trigger] v[j]),
    decreases v.len() - k,
{
    if k < v.len() && !p(v[k]) {
        lemma_first_where(v, p, k + 1);
    }
}

/// `Vec::swap_remove` on a sequence.
pub open spec fn swap_removed(v: Seq<BindingView>, i: int) -> Seq<BindingView> {
    v.update(i, v.last()).drop_last()
}

pub open spec fn exact_slot(set: u32, binding: u32) -> spec_fn(BindingView) -> bool {
    |b: BindingView| b.0 == set && b.1 == Some(binding)
}

pub open spec fn open_slot(set: u32) -> spec_fn(BindingView) -> bool {
    |b: BindingView| b.0 == set && b.1 is None
}

/// The source binding claimed by reflected slot `(set, binding)`: the first
/// one naming exactly that slot, else the first one of that set that names
/// no binding; it leaves the list by `swap_remove`.
pub open spec fn taken(v: Seq<BindingView>, set: u32, binding: u32) -> (Option<BindingView>, Seq<BindingView>) {
    match first_where(v, exact_slot(set, binding), 0) {
        Some(i) => (Some(v[i]), swap_removed(v, i)),
        None => match first_where(v, open_slot(set), 0) {
            Some(i) => (Some(v[i]), swap_removed(v, i)),
            None => (None, v),
        },
    }
}

pub open spec fn opt_binding_view(b: Option<SourceBinding>) -> Option<BindingView> {
    match b {
        Some(x) => Some(x.view_tuple()),
        None => None,
    }
}

fn position_exact(sources: &Vec<SourceBinding>, set: u32, binding: u32) -> (r: Option<usize>)
    ensures
        match first_where(binding_views(sources@), exact_slot(set, binding), 0) {
            Some(i) => r == Some(i as usize),
            None => r is None,
        },
{
    let ghost bv = binding_views(sources@);
    let n = sources.len();
    let mut i: usize = 0;
    while i < n
        invariant
            i <= n == sources@.len(),
            bv == binding_views(sources@),
            first_where(bv, exact_slot(set, binding), 0) == first_where(bv, exact_slot(set, binding), i as int),
        decreases n - i,
    {
        let b = &sources[i];
        assert(bv[i as int] == b.view_tuple());
        let hit = b.set == set && match b.binding {
            Some(x) => x == binding,
            None => false,
        };
        if hit {
            return Some(i);
        }
        i = i + 1;
    }
    None
}

fn position_open(sources: &Vec<SourceBinding>, set: u32) -> (r: Option<usize>)
    ensures
        match first_where(binding_views(sources@), open_slot(set), 0) {
            Some(i) => r == Some(i as usize),
            None => r is None,
        },
{
    let ghost bv = binding_views(sources@);
    let n = sources.len();
    let mut i: usize = 0;
    while i < n
        invariant
            i <= n == sources@.len(),
            bv == binding_views(sources@),
            first_where(bv, open_slot(set), 0) == first_where(bv, open_slot(set), i as int),
        decreases n - i,
    {
        assert(bv[i as int] == sources@[i as int].view_tuple());
        if sources[i].set == set && sources[i].binding.is_none() {
            return Some(i);
        }
        i = i + 1;
    }
    None
}

/// Takes out of `sources` the binding that reflected slot `(set, binding)`
/// claims (see `taken`).
pub fn take_source_binding(set: u32, binding: u32, sources: &mut Vec<SourceBinding>) -> (r: Option<SourceBinding>)
    ensures
        opt_binding_view(r) == taken(binding_views(old(sources)@), set, binding).0,
        binding_views(final(sources)@) == taken(binding_views(old(sources)@), set, binding).1,
{
    let ghost bv = binding_views(sources@);
    proof {
        lemma_first_where(bv, exact_slot(set, binding), 0);
        lemma_first_where(bv, open_slot(set), 0);
    }
    match position_exact(sources, set, binding) {
        Some(i) => {
            let x = sources.swap_remove(i);
            assert(bv[i as int] == x.view_tuple());
            assert(binding_views(sources@) =~= swap_removed(bv, i as int));
            assert(taken(bv, set, binding) == (Some(bv[i as int]), swap_removed(bv, i as int)));
            return Some(x);
        },
        None => {},
    }
    assert(first_where(bv, exact_slot(set, binding), 0) is None);
    match position_open(sources, set) {
        Some(i) => {
            let x = sources.swap_remove(i);
            assert(bv[i as int] == x.view_tuple());
            assert(binding_views(sources@) =~= swap_removed(bv, i as int));
            assert(taken(bv, set, binding) == (Some(bv[i as int]), swap_removed(bv, i as int)));
            Some(x)
        },
        None => {
            assert(taken(bv, set, binding) == (None::<BindingView>, bv));
            None
        },
    }
}

// ------------------------------------------------------ reflected slots

/// How many descriptors a reflected binding holds.
#[derive(Clone, Copy, Debug, PartialEq, Eq, Structural)]
pub enum DescriptorCount {
    One,
    StaticSized(usize),
    Unbounded,
}

/// A descriptor binding as SPIR-V reflection reports it: slot, Vulkan
/// descriptor type number, count and the variable's debug name.
#[derive(Clone, Debug, PartialEq, Eq)]
pub struct ReflectedDescriptor {
    pub set: u32,
    pub binding: u32,
    pub ty: u32,
    pub count: DescriptorCount,
    pub name: String,
}

pub type DescriptorView = (u32, u32, u32, DescriptorCount, Seq<char>);

pub open spec fn descriptor_view(d: ReflectedDescriptor) -> DescriptorView {
    (d.set, d.binding, d.ty, d.count, d.name@)
}

pub open spec fn descriptor_views(v: Seq<ReflectedDescriptor>) -> Seq<DescriptorView> {
    v.map_values(|d: ReflectedDescriptor| descriptor_view(d))
}

/// Slots strictly ascending by set, then binding.
pub open spec fn slots_ascending(v: Seq<ReflectedDescriptor>) -> bool {
    forall|i: int, j: int|
        0 <= i < j < v.len() ==> (#[trigger] v[i].set < #[trigger] v[j].set || (v[i].set == v[j].set
            && v[i].binding < v[j].binding))
}

/// Why reading descriptor bindings out of SPIR-V failed: the module did
/// not parse, or its descriptor sets could not be read.
#[derive(Clone, Debug, PartialEq, Eq)]
pub enum ReflectFailure {
    Parse(String),
    Descriptors(String),
}

/// What `rspirv_reflect` reports for the SPIR-V bytes `bytes`: the
/// descriptor bindings in set-then-binding order, or the failing stage
/// (`true` for parsing) and the error's message.
pub uninterp spec fn spirv_descriptor_sets(bytes: Seq<u8>) -> Result<Seq<DescriptorView>, (bool, Seq<char>)>;

/// `rspirv_reflect::Reflection::new_from_spirv`, then
/// `Reflection::get_descriptor_sets`, flattened: the result is what
/// `spirv_descriptor_sets` names for the bytes, and the slots come in the
/// ascending order in which a `BTreeMap` of sets of `BTreeMap`s of bindings
/// is walked.  The parse is the one `spirv_module_of` names, with the same
/// message.  `get_descriptor_sets` stops on an assertion (or never ends)
/// for some modules it parses; `read_outcome` says exactly which, and
/// those are left out (`descriptor_read_safe`).
#[verifier::external_body]
fn read_descriptor_sets(bytes: &[u8]) -> (r: Result<Vec<ReflectedDescriptor>, ReflectFailure>)
    requires
        match spirv_module_of(bytes@) {
            Ok((m, _)) => descriptor_read_safe(m, spirv_version_of(bytes@)),
            Err(_) => true,
        },
    ensures
        match r {
            Err(ReflectFailure::Parse(e)) => spirv_module_of(bytes@) == Err::<(ModuleView, Option<(u32, u32, u32)>), Seq<char>>(e@),
            _ => spirv_module_of(bytes@) is Ok,
        },
        match r {
            Ok(v) => spirv_descriptor_sets(bytes@) == Ok::<Seq<DescriptorView>, (bool, Seq<char>)>(descriptor_views(v@))
                && slots_ascending(v@),
            Err(ReflectFailure::Parse(e)) => spirv_descriptor_sets(bytes@) == Err::<Seq<DescriptorView>, (bool, Seq<char>)>((true, e@)),
            Err(ReflectFailure::Descriptors(e)) => spirv_descriptor_sets(bytes@) == Err::<Seq<DescriptorView>, (bool, Seq<char>)>((false, e@)),
        },
{
    let refl = rspirv_reflect::Reflection::new_from_spirv(bytes).map_err(|e| ReflectFailure::Parse(e.to_string()))?;
    let sets = refl.get_descriptor_sets().map_err(|e| ReflectFailure::Descriptors(e.to_string()))?;
    let mut out = Vec::new();
    for (set, bindings) in sets {
        for (binding, info) in bindings {
            let count = match info.binding_count {
                rspirv_reflect::BindingCount::One => DescriptorCount::One,
                rspirv_reflect::BindingCount::StaticSized(n) => DescriptorCount::StaticSized(n),
                rspirv_reflect::BindingCount::Unbounded => DescriptorCount::Unbounded,
            };
            out.push(ReflectedDescriptor { set, binding, ty: info.ty.0, count, name: info.name });
        }
    }
    Ok(out)
}

// ------------------------------------------------------ variable assembly

/// The bind table variable type of a Vulkan descriptor type number; types
/// without a counterpart count as uniform buffers.
pub open spec fn var_type_of(ty: u32) -> BindTableVariableType {
    if ty == 6 {
        BindTableVariableType::Uniform
    } else if ty == 8 {
        BindTableVariableType::DynamicUniform
    } else if ty == 7 {
        BindTableVariableType::Storage
    } else if ty == 9 {
        BindTableVariableType::DynamicStorage
    } else if ty == 2 {
        BindTableVariableType::Image
    } else if ty == 0 {
        BindTableVariableType::Sampler
    } else if ty == 3 {
        BindTableVariableType::StorageImage
    } else if ty == 1 {
        BindTableVariableType::SampledImage
    } else {
        BindTableVariableType::Uniform
    }
}

/// The array count of a binding: 1, the static size (kept to 32 bits), or
/// 0 for an unbounded array.
pub open spec fn count_of(c: DescriptorCount) -> u32 {
    match c {
        DescriptorCount::One => 1,
        DescriptorCount::StaticSized(n) => n as u32,
        DescriptorCount::Unbounded => 0,
    }
}

pub open spec fn unnamed_binding_message(set: u32, binding: u32) -> Seq<char> {
    "Unable to determine binding name for set "@ + decimal(set as nat) + " binding "@ + decimal(binding as nat)
        + " from source"@
}

pub type SlotMove = ((u32, u32), (u32, u32));

/// A variable as plain values: name, set, type, binding, count.
pub type VarView = (Seq<char>, u32, BindTableVariableType, u32, u32);

pub open spec fn var_view(v: ShaderVariable) -> VarView {
    (v.name@, v.set, v.kind.var_type, v.kind.binding, v.kind.count)
}

pub open spec fn var_views(v: Seq<ShaderVariable>) -> Seq<VarView> {
    v.map_values(|x: ShaderVariable| var_view(x))
}

/// One reflected descriptor turned into a variable: it claims its source
/// binding, takes that binding's name (else the reflected one) and, when the
/// source names a binding number, the source's slot, which is recorded as a
/// move when it differs from the reflected one.
pub open spec fn reflect_step(d: DescriptorView, sources: Seq<BindingView>) -> Result<(VarView, Option<SlotMove>, Seq<BindingView>), Seq<char>> {
    let (src, rest) = taken(sources, d.0, d.1);
    let name = match src {
        Some(b) => b.2,
        None => d.4,
    };
    if trim(name).len() == 0 {
        Err(unnamed_binding_message(d.0, d.1))
    } else {
        let slot = match src {
            Some(b) => match b.1 {
                Some(x) => (b.0, x),
                None => (d.0, d.1),
            },
            None => (d.0, d.1),
        };
        let moved = if slot != (d.0, d.1) {
            Some(((d.0, d.1), slot))
        } else {
            None
        };
        Ok(((name, slot.0, var_type_of(d.2), slot.1, count_of(d.3)), moved, rest))
    }
}

pub open spec fn opt_seq(m: Option<SlotMove>) -> Seq<SlotMove> {
    match m {
        Some(x) => seq![x],
        None => Seq::empty(),
    }
}

/// The variables and slot moves of descriptors `k..`, in descriptor order;
/// the first unnamed binding stops the walk.
pub open spec fn reflect_fold(ds: Seq<DescriptorView>, k: int, sources: Seq<BindingView>) -> Result<(Seq<VarView>, Seq<SlotMove>), Seq<char>>
    decreases ds.len() - k,
{
    if k < 0 || k >= ds.len() {
        Ok((Seq::empty(), Seq::empty()))
    } else {
        match reflect_step(ds[k], sources) {
            Err(e) => Err(e),
            Ok((v, m, rest)) => match reflect_fold(ds, k + 1, rest) {
                Err(e) => Err(e),
                Ok((vs, ms)) => Ok((seq![v] + vs, opt_seq(m) + ms)),
            },
        }
    }
}

/// The variable made of a descriptor has the bind table type that the
/// Vulkan descriptor type number gives — 0 sampler, 1 combined image
/// sampler, 2 sampled image, 3 storage image, 6 uniform buffer, 7 storage
/// buffer, 8 dynamic uniform buffer, 9 dynamic storage buffer, any other a
/// uniform — and the count that its array size gives: 1 for a single
/// descriptor, the size for a sized array, 0 for an unbounded one.
pub open spec fn typed_as_declared(v: VarView, d: DescriptorView) -> bool {
    &&& d.2 == 0 ==> v.2 == BindTableVariableType::Sampler
    &&& d.2 == 1 ==> v.2 == BindTableVariableType::SampledImage
    &&& d.2 == 2 ==> v.2 == BindTableVariableType::Image
    &&& d.2 == 3 ==> v.2 == BindTableVariableType::StorageImage
    &&& d.2 == 6 ==> v.2 == BindTableVariableType::Uniform
    &&& d.2 == 7 ==> v.2 == BindTableVariableType::Storage
    &&& d.2 == 8 ==> v.2 == BindTableVariableType::DynamicUniform
    &&& d.2 == 9 ==> v.2 == BindTableVariableType::DynamicStorage
    &&& !(d.2 <= 3 || (6 <= d.2 && d.2 <= 9)) ==> v.2 == BindTableVariableType::Uniform
    &&& d.3 == DescriptorCount::One ==> v.4 == 1
    &&& d.3 == DescriptorCount::Unbounded ==> v.4 == 0
    &&& (d.3 matches DescriptorCount::StaticSized(n) ==> v.4 == n as u32)
}

/// Reflecting descriptors gives one variable per descriptor, in order,
/// each typed and counted as its descriptor declares (see
/// `typed_as_declared`).
pub proof fn law_reflected_types_follow_descriptors(ds: Seq<DescriptorView>, k: int, sources: Seq<BindingView>)
    requires
        0 <= k <= ds.len(),
    ensures
        reflect_fold(ds, k, sources) matches Ok((vs, _)) ==> vs.len() == ds.len() - k && forall|t: int|
            0 <= t < vs.len() ==> typed_as_declared(#[trigger] vs[t], ds[k + t]),
    decreases ds.len() - k,
{
    if k < ds.len() {
        if let Ok((v, m, rest)) = reflect_step(ds[k], sources) {
            law_reflected_types_follow_descriptors(ds, k + 1, rest);
            if let Ok((vs, _)) = reflect_fold(ds, k, sources) {
                let tail = reflect_fold(ds, k + 1, rest)->Ok_0.0;
                assert(vs == seq![v] + tail);
                assert forall|t: int| 0 <= t < vs.len() implies typed_as_declared(#[trigger] vs[t], ds[k + t]) by {
                    if t > 0 {
                        assert(vs[t] == tail[t - 1]);
                        assert(ds[k + t] == ds[(k + 1) + (t - 1)]);
                    }
                }
            }
        }
    }
}

/// `a` sorts no later than `b`: by set, then binding.
pub open spec fn slot_le(a: VarView, b: VarView) -> bool {
    a.1 < b.1 || (a.1 == b.1 && a.3 <= b.3)
}

/// Where `x` goes in `s`: after the last element that sorts no later.
pub open spec fn insert_pos(s: Seq<VarView>, x: VarView) -> int
    decreases s.len(),
{
    if s.len() == 0 {
        0
    } else if slot_le(s.last(), x) {
        s.len() as int
    } else {
        insert_pos(s.drop_last(), x)
    }
}

/// The stable sort of `s` by slot (what `sort_by` on set, then binding
/// gives).
pub open spec fn sort_by_slot(s: Seq<VarView>) -> Seq<VarView>
    decreases s.len(),
{
    if s.len() == 0 {
        Seq::empty()
    } else {
        let t = sort_by_slot(s.drop_last());
        t.insert(insert_pos(t, s.last()), s.last())
    }
}

pub proof fn lemma_insert_pos(s: Seq<VarView>, x: VarView)
    ensures
        0 <= insert_pos(s, x) <= s.len(),
    decreases s.len(),
{
    if s.len() > 0 && !slot_le(s.last(), x) {
        lemma_insert_pos(s.drop_last(), x);
    }
}

pub proof fn lemma_sort_len(s: Seq<VarView>)
    ensures
        sort_by_slot(s).len() == s.len(),
    decreases s.len(),
{
    if s.len() > 0 {
        lemma_sort_len(s.drop_last());
        let t = sort_by_slot(s.drop_last());
        lemma_insert_pos(t, s.last());
        t.insert_ensures(insert_pos(t, s.last()), s.last());
    }
}

pub open spec fn sorted_by_slot(s: Seq<VarView>) -> bool {
    forall|i: int, j: int| 0 <= i < j < s.len() ==> slot_le(#[trigger] s[i], #[trigger] s[j])
}

proof fn lemma_insert_sorted(t: Seq<VarView>, x: VarView)
    requires
        sorted_by_slot(t),
    ensures
        sorted_by_slot(t.insert(insert_pos(t, x), x)),
    decreases t.len(),
{
    lemma_insert_pos(t, x);
    let p = insert_pos(t, x);
    let r = t.insert(p, x);
    t.insert_ensures(p, x);
    if t.len() == 0 {
    } else if slot_le(t.last(), x) {
        assert(p == t.len());
        assert forall|i: int, j: int| 0 <= i < j < r.len() implies slot_le(#[trigger] r[i], #[trigger] r[j]) by {
            if j == t.len() {
                assert(r[j] == x);
                assert(r[i] == t[i]);
                if i < t.len() - 1 {
                    assert(slot_le(t[i], t[t.len() - 1]));
                }
            } else {
                assert(r[i] == t[i]);
                assert(r[j] == t[j]);
            }
        }
    } else {
        let u = t.drop_last();
        assert(sorted_by_slot(u)) by {
            assert forall|i: int, j: int| 0 <= i < j < u.len() implies slot_le(#[trigger] u[i], #[trigger] u[j]) by {
                assert(u[i] == t[i]);
                assert(u[j] == t[j]);
            }
        }
        lemma_insert_sorted(u, x);
        assert(insert_pos(t, x) == insert_pos(u, x));
        lemma_insert_pos(u, x);
        let ru = u.insert(p, x);
        u.insert_ensures(p, x);
        assert(r =~= ru.push(t.last()));
        assert forall|i: int, j: int| 0 <= i < j < r.len() implies slot_le(#[trigger] r[i], #[trigger] r[j]) by {
            if j == r.len() - 1 {
                assert(r[j] == t.last());
                if i == p {
                    assert(r[i] == x);
                } else if i < p {
                    assert(r[i] == t[i]);
                    assert(slot_le(t[i], t[t.len() - 1]));
                } else {
                    assert(r[i] == t[i - 1]);
                    assert(slot_le(t[i - 1], t[t.len() - 1]));
                }
            } else {
                assert(r[i] == ru[i]);
                assert(r[j] == ru[j]);
            }
        }
    }
}

/// The variables that reflection returns are in order of set, then
/// binding: whatever the descriptors and source bindings, `sort_by_slot`
/// leaves every pair of entries in slot order and keeps every entry.
pub proof fn law_reflected_variables_sorted(vs: Seq<VarView>)
    ensures
        sorted_by_slot(sort_by_slot(vs)),
        sort_by_slot(vs).len() == vs.len(),
        sort_by_slot(vs).to_multiset() == vs.to_multiset(),
    decreases vs.len(),
{
    lemma_sort_len(vs);
    if vs.len() > 0 {
        law_reflected_variables_sorted(vs.drop_last());
        let t = sort_by_slot(vs.drop_last());
        lemma_insert_sorted(t, vs.last());
        lemma_insert_pos(t, vs.last());
        let x = vs.last();
        let p = insert_pos(t, x);
        let r = t.insert(p, x);
        t.insert_ensures(p, x);
        assert(r.remove(p) =~= t);
        vstd::seq_lib::to_multiset_remove(r, p);
        vstd::seq_lib::to_multiset_build(vs.drop_last(), x);
        assert(vs.drop_last().push(x) =~= vs);
        r.to_multiset_ensures();
        assert(r.contains(x)) by {
            assert(r[p] == x);
        }
        assert(r.to_multiset() =~= t.to_multiset().insert(x));
        assert(sort_by_slot(vs) == r);
        assert(vs.to_multiset() =~= vs.drop_last().to_multiset().insert(x));
    } else {
        assert(sort_by_slot(vs) =~= Seq::<VarView>::empty());
        assert(vs =~= Seq::<VarView>::empty());
    }
}

/// Variables for shader bindings, with the slots that source declarations
/// moved.
pub struct ReflectedBindings {
    pub variables: Vec<ShaderVariable>,
    pub remap: Vec<SlotMove>,
}

fn var_type_exec(ty: u32) -> (r: BindTableVariableType)
    ensures
        r == var_type_of(ty),
{
    if ty == 6 {
        BindTableVariableType::Uniform
    } else if ty == 8 {
        BindTableVariableType::DynamicUniform
    } else if ty == 7 {
        BindTableVariableType::Storage
    } else if ty == 9 {
        BindTableVariableType::DynamicStorage
    } else if ty == 2 {
        BindTableVariableType::Image
    } else if ty == 0 {
        BindTableVariableType::Sampler
    } else if ty == 3 {
        BindTableVariableType::StorageImage
    } else if ty == 1 {
        BindTableVariableType::SampledImage
    } else {
        BindTableVariableType::Uniform
    }
}

fn count_exec(c: DescriptorCount) -> (r: u32)
    ensures
        r == count_of(c),
{
    match c {
        DescriptorCount::One => 1,
        DescriptorCount::StaticSized(n) => n as u32,
        DescriptorCount::Unbounded => 0,
    }
}

fn is_blank(s: &String) -> (r: bool)
    ensures
        r == (trim(s@).len() == 0),
{
    let v = chars_of(s.as_str());
    let (a, b) = trim_range(&v, 0, v.len());
    assert(v@.subrange(0, v@.len() as int) =~= v@);
    a == b
}

fn reflect_step_exec(d: &ReflectedDescriptor, sources: &mut Vec<SourceBinding>) -> (r: Result<(ShaderVariable, Option<SlotMove>), String>)
    ensures
        match reflect_step(descriptor_view(*d), binding_views(old(sources)@)) {
            Ok((v, m, rest)) => r matches Ok((x, mm)) && var_view(x) == v && mm == m && binding_views(final(sources)@) == rest,
            Err(e) => r matches Err(x) && x@ == e,
        },
{
    let src = take_source_binding(d.set, d.binding, sources);
    let name = match &src {
        Some(b) => b.name.clone(),
        None => d.name.clone(),
    };
    if is_blank(&name) {
        let mut msg = String::new();
        push_all(&mut msg, "Unable to determine binding name for set ");
        let a = u32_to_string(d.set);
        push_all(&mut msg, a.as_str());
        push_all(&mut msg, " binding ");
        let b = u32_to_string(d.binding);
        push_all(&mut msg, b.as_str());
        push_all(&mut msg, " from source");
        assert(msg@ =~= unnamed_binding_message(d.set, d.binding));
        return Err(msg);
    }
    let slot = match &src {
        Some(b) => match b.binding {
            Some(x) => (b.set, x),
            None => (d.set, d.binding),
        },
        None => (d.set, d.binding),
    };
    let moved = if slot.0 != d.set || slot.1 != d.binding {
        Some(((d.set, d.binding), slot))
    } else {
        None
    };
    let v = ShaderVariable {
        name,
        set: slot.0,
        kind: BindTableVariable { var_type: var_type_exec(d.ty), binding: slot.1, count: count_exec(d.count) },
    };
    Ok((v, moved))
}

/// Inserts `x` into `v` after the last element that sorts no later.
pub(crate) fn insert_by_slot(v: &mut Vec<ShaderVariable>, x: ShaderVariable)
    ensures
        var_views(final(v)@) == var_views(old(v)@).insert(insert_pos(var_views(old(v)@), var_view(x)), var_view(x)),
{
    let ghost vv = var_views(v@);
    let ghost xv = var_view(x);
    let mut p = v.len();
    proof {
        assert(vv.take(p as int) =~= vv);
    }
    while p > 0 && !(v[p - 1].set < x.set || (v[p - 1].set == x.set && v[p - 1].kind.binding <= x.kind.binding))
        invariant
            p <= v@.len(),
            vv == var_views(v@),
            xv == var_view(x),
            insert_pos(vv, xv) == insert_pos(vv.take(p as int), xv),
        decreases p,
    {
        proof {
            assert(vv.take(p as int).drop_last() =~= vv.take(p - 1));
            assert(vv.take(p as int).last() == var_view(v@[p - 1]));
        }
        p = p - 1;
    }
    proof {
        if p > 0 {
            assert(vv.take(p as int).last() == var_view(v@[p - 1]));
        }
        lemma_insert_pos(vv, xv);
    }
    v.insert(p, x);
    assert(var_views(v@) =~= vv.insert(p as int, xv));
}

proof fn lemma_fold_push(vs: Seq<VarView>, ms: Seq<SlotMove>, v: VarView, m: Option<SlotMove>, r: Result<(Seq<VarView>, Seq<SlotMove>), Seq<char>>)
    ensures
        join(vs, ms, match r {
            Err(e) => Err(e),
            Ok((a, b)) => Ok((seq![v] + a, opt_seq(m) + b)),
        }) == join(vs.push(v), ms + opt_seq(m), r),
{
    if let Ok((a, b)) = r {
        assert(vs + (seq![v] + a) =~= vs.push(v) + a);
        assert(ms + (opt_seq(m) + b) =~= (ms + opt_seq(m)) + b);
    }
}

pub open spec fn join(vs: Seq<VarView>, ms: Seq<SlotMove>, r: Result<(Seq<VarView>, Seq<SlotMove>), Seq<char>>) -> Result<(Seq<VarView>, Seq<SlotMove>), Seq<char>> {
    match r {
        Err(e) => Err(e),
        Ok((a, b)) => Ok((vs + a, ms + b)),
    }
}

/// Variables for the reflected `descriptors`, named and placed by the
/// source bindings `sources` (see `reflect_fold`), sorted stably by set and
/// binding, with the slot moves in descriptor order.
pub fn reflect_bindings_from(descriptors: &Vec<ReflectedDescriptor>, sources: Vec<SourceBinding>) -> (r: Result<ReflectedBindings, BentoError>)
    ensures
        match reflect_fold(descriptor_views(descriptors@), 0, binding_views(sources@)) {
            Ok((vs, ms)) => r matches Ok(x) && var_views(x.variables@) == sort_by_slot(vs) && x.remap@ == ms,
            Err(e) => r matches Err(BentoError::ShaderCompilation(x)) && x@ == e,
        },
{
    let ghost dv = descriptor_views(descriptors@);
    let n = descriptors.len();
    let mut pool = sources;
    let ghost mut found: Seq<VarView> = Seq::empty();
    let mut variables: Vec<ShaderVariable> = Vec::new();
    let mut remap: Vec<SlotMove> = Vec::new();
    let mut k: usize = 0;
    let ghost all = reflect_fold(dv, 0, binding_views(pool@));
    proof {
        assert(join(found, remap@, all) == all) by {
            if let Ok((a, b)) = all {
                assert(found + a =~= a);
                assert(remap@ + b =~= b);
            }
        }
        assert(var_views(variables@) =~= sort_by_slot(found));
    }
    while k < n
        invariant
            k <= n == descriptors@.len(),
            dv == descriptor_views(descriptors@),
            all == reflect_fold(dv, 0, binding_views(sources@)),
            all == join(found, remap@, reflect_fold(dv, k as int, binding_views(pool@))),
            var_views(variables@) == sort_by_slot(found),
        decreases n - k,
    {
        let ghost before = binding_views(pool@);
        let ghost d = dv[k as int];
        assert(d == descriptor_view(descriptors@[k as int]));
        assert(reflect_fold(dv, k as int, before) == match reflect_step(d, before) {
            Err(e) => Err(e),
            Ok((v, m, rest)) => match reflect_fold(dv, k + 1, rest) {
                Err(e) => Err(e),
                Ok((vs, ms)) => Ok((seq![v] + vs, opt_seq(m) + ms)),
            },
        });
        match reflect_step_exec(&descriptors[k], &mut pool) {
            Err(msg) => {
                return Err(BentoError::ShaderCompilation(msg));
            },
            Ok((v, m)) => {
                let ghost vv = var_view(v);
                proof {
                    lemma_fold_push(found, remap@, vv, m, reflect_fold(dv, k + 1, binding_views(pool@)));
                }
                let ghost old_remap = remap@;
                let ghost old_found = found;
                insert_by_slot(&mut variables, v);
                proof {
                    found = found.push(vv);
                    assert(found.drop_last() =~= old_found);
                }
                match m {
                    Some(x) => {
                        remap.push(x);
                    },
                    None => {},
                }
                assert(remap@ =~= old_remap + opt_seq(m));
            },
        }
        k = k + 1;
    }
    proof {
        assert(found + Seq::<VarView>::empty() =~= found);
        assert(remap@ + Seq::<SlotMove>::empty() =~= remap@);
    }
    Ok(ReflectedBindings { variables, remap })
}

// ------------------------------------------------------------ entry points

/// What scanning `s` as `lang` gives (GLSL for `Glsl` and `Infer`, the
/// HLSL-like scan for `Hlsl` and `Slang`).
pub open spec fn source_scan(s: Seq<char>, lang: ShaderLang) -> Result<Seq<BindingView>, Seq<char>> {
    match lang {
        ShaderLang::Glsl | ShaderLang::Infer => glsl_scan(s, 0, 0),
        _ => hlsl_bindings(s),
    }
}

pub open spec fn unsupported_language_message() -> Seq<char> {
    "Unsupported shader language for reflection"@
}

/// The bindings that `source` names, scanned as `lang`; `Other` has no
/// scanner and is refused as invalid input.
pub fn parse_source_bindings(source: &str, lang: ShaderLang) -> (r: Result<Vec<SourceBinding>, BentoError>)
    ensures
        lang == ShaderLang::Other ==> (r matches Err(BentoError::InvalidInput(x)) && x@ == unsupported_language_message()),
        lang != ShaderLang::Other ==> match source_scan(source@, lang) {
            Ok(v) => r matches Ok(bs) && binding_views(bs@) == v,
            Err(e) => r matches Err(BentoError::ShaderCompilation(x)) && x@ == e,
        },
{
    match lang {
        ShaderLang::Glsl | ShaderLang::Infer => parse_glsl_bindings(source),
        ShaderLang::Hlsl | ShaderLang::Slang => parse_hlsl_like_bindings(source),
        ShaderLang::Other => Err(BentoError::InvalidInput(string_of(chars_of("Unsupported shader language for reflection").as_slice()))),
    }
}

/// An error as plain values: whether it is invalid input (else a
/// compilation error), and its message.
pub open spec fn error_is(r: BentoError, e: (bool, Seq<char>)) -> bool {
    if e.0 {
        r matches BentoError::InvalidInput(x) && x@ == e.1
    } else {
        r matches BentoError::ShaderCompilation(x) && x@ == e.1
    }
}

/// The message when `rspirv_reflect` would stop on the module's descriptor
/// bindings (an assertion of its reader, or a type that refers back to
/// itself: `descriptor_read_safe` fails).
pub open spec fn unreadable_descriptors_message() -> Seq<char> {
    "SPIR-V descriptor bindings cannot be read: a resource decorated twice, two resources on one slot, or a resource type the reader does not handle"@
}

/// What reflecting the SPIR-V bytes `b` against `source`, written in
/// `lang`, gives: the variables (as `var_views`, sorted by slot) and slot
/// moves, or the error.  A module that does not parse fails first, then a
/// language without a scanner, the source scan, a module on which the
/// descriptor reader would stop, and the reading of the descriptor sets;
/// the rest is `reflect_fold`.
pub open spec fn reflection_of(b: Seq<u8>, source: Seq<char>, lang: ShaderLang) -> Result<(Seq<VarView>, Seq<SlotMove>), (bool, Seq<char>)> {
    match spirv_module_of(b) {
        Err(e) => Err((false, e)),
        Ok((m, _)) => if lang == ShaderLang::Other {
            Err((true, unsupported_language_message()))
        } else {
            match source_scan(source, lang) {
                Err(e) => Err((false, e)),
                Ok(sv) => if !descriptor_read_safe(m, spirv_version_of(b)) {
                    Err((false, unreadable_descriptors_message()))
                } else {
                    match spirv_descriptor_sets(b) {
                        Err((_, e)) => Err((false, e)),
                        Ok(dv) => match reflect_fold(dv, 0, sv) {
                            Ok((vs, ms)) => Ok((sort_by_slot(vs), ms)),
                            Err(e) => Err((false, e)),
                        },
                    }
                },
            }
        },
    }
}

/// Reflects the descriptor bindings of a SPIR-V module (its bytes) and
/// names and places them by the bindings that `source`, written in `lang`,
/// declares (see `reflection_of`).
pub fn reflect_bindings(spirv_bytes: &[u8], source: &str, lang: ShaderLang) -> (r: Result<ReflectedBindings, BentoError>)
    ensures
        match reflection_of(spirv_bytes@, source@, lang) {
            Ok((vs, ms)) => r matches Ok(x) && var_views(x.variables@) == vs && x.remap@ == ms,
            Err(e) => r matches Err(x) && error_is(x, e),
        },
{
    let module = match read_module(spirv_bytes) {
        Err(e) => {
            return Err(BentoError::ShaderCompilation(e));
        },
        Ok((module, _)) => module,
    };
    let sources = parse_source_bindings(source, lang)?;
    let version = read_version(spirv_bytes);
    if !descriptor_reads_safe(&module, version) {
        let mut msg = String::new();
        push_all(
            &mut msg,
            "SPIR-V descriptor bindings cannot be read: a resource decorated twice, two resources on one slot, or a resource type the reader does not handle",
        );
        assert(msg@ =~= unreadable_descriptors_message());
        return Err(BentoError::ShaderCompilation(msg));
    }
    match read_descriptor_sets(spirv_bytes) {
        Ok(descriptors) => reflect_bindings_from(&descriptors, sources),
        Err(ReflectFailure::Descriptors(e)) => Err(BentoError::ShaderCompilation(e)),
        Err(ReflectFailure::Parse(e)) => Err(BentoError::ShaderCompilation(e)),
    }
}

} // verus!
