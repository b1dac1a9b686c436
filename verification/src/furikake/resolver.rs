use vstd::prelude::*;

use crate::bento::reflect::{var_view, var_views, VarView};
use crate::bento::types::{BindTableVariable, BindTableVariableType, CompilationResult};
use crate::text::{chars_of, push_all, string_of};

verus! {

/// Errors of the reserved bindings.  The GPU failures carry the backend's
/// message.
#[derive(Clone, Debug, PartialEq, Eq)]
pub enum FurikakeError {
    BufferMapFailed { source: String },
    BufferUnmapFailed { source: String },
    MissingReservedBinding { name: String },
    ReservedItemTypeMismatch { name: String },
    ResolverReflection { source: String },
}

impl FurikakeError {
    /// The error as a sentence (what `Display` shows).
    pub open spec fn message_of(&self) -> Seq<char> {
        match self {
            FurikakeError::BufferMapFailed { source } => "failed to map buffer: "@ + source@,
            FurikakeError::BufferUnmapFailed { source } => "failed to unmap buffer: "@ + source@,
            FurikakeError::MissingReservedBinding { name } => "reserved binding `"@ + name@ + "` not found"@,
            FurikakeError::ReservedItemTypeMismatch { name } => "reserved binding `"@ + name@ + "` had the wrong type"@,
            FurikakeError::ResolverReflection { source } => "failed to reflect resolver bindings: "@ + source@,
        }
    }

    pub fn message(&self) -> (r: String)
        ensures
            r@ == self.message_of(),
    {
        let mut out = String::new();
        match self {
            FurikakeError::BufferMapFailed { source } => {
                push_all(&mut out, "failed to map buffer: ");
                push_all(&mut out, source.as_str());
            },
            FurikakeError::BufferUnmapFailed { source } => {
                push_all(&mut out, "failed to unmap buffer: ");
                push_all(&mut out, source.as_str());
            },
            FurikakeError::MissingReservedBinding { name } => {
                push_all(&mut out, "reserved binding `");
                push_all(&mut out, name.as_str());
                push_all(&mut out, "` not found");
            },
            FurikakeError::ReservedItemTypeMismatch { name } => {
                push_all(&mut out, "reserved binding `");
                push_all(&mut out, name.as_str());
                push_all(&mut out, "` had the wrong type");
            },
            FurikakeError::ResolverReflection { source } => {
                push_all(&mut out, "failed to reflect resolver bindings: ");
                push_all(&mut out, source.as_str());
            },
        }
        assert(out@ =~= self.message_of());
        out
    }

    /// A GPU failure met while reflecting, kept as its message.
    pub fn from_message(value: String) -> (r: Self)
        ensures
            r == (FurikakeError::ResolverReflection { source: value }),
    {
        FurikakeError::ResolverReflection { source: value }
    }
}

/// `{:?}` of a variable type.
pub open spec fn kind_label(t: BindTableVariableType) -> Seq<char> {
    match t {
        BindTableVariableType::Uniform => "Uniform"@,
        BindTableVariableType::DynamicUniform => "DynamicUniform"@,
        BindTableVariableType::Storage => "Storage"@,
        BindTableVariableType::DynamicStorage => "DynamicStorage"@,
        BindTableVariableType::Image => "Image"@,
        BindTableVariableType::Sampler => "Sampler"@,
        BindTableVariableType::StorageImage => "StorageImage"@,
        BindTableVariableType::SampledImage => "SampledImage"@,
    }
}

fn kind_label_exec(t: BindTableVariableType) -> (r: &'static str)
    ensures
        r@ == kind_label(t),
{
    match t {
        BindTableVariableType::Uniform => "Uniform",
        BindTableVariableType::DynamicUniform => "DynamicUniform",
        BindTableVariableType::Storage => "Storage",
        BindTableVariableType::DynamicStorage => "DynamicStorage",
        BindTableVariableType::Image => "Image",
        BindTableVariableType::Sampler => "Sampler",
        BindTableVariableType::StorageImage => "StorageImage",
        BindTableVariableType::SampledImage => "SampledImage",
    }
}

/// A binding that a state reserves: its name and the type it holds.
#[derive(Clone, Debug, PartialEq, Eq)]
pub struct ReservedMetadata {
    pub name: String,
    pub kind: BindTableVariableType,
}

/// Where a shader declares a reserved binding.
#[derive(Clone, Debug, PartialEq, Eq)]
pub struct ResolveResult {
    pub name: String,
    pub exists: bool,
    pub binding: BindTableVariable,
    pub set: u32,
}

pub type ResolveView = (Seq<char>, bool, BindTableVariable, u32);

pub open spec fn resolve_view(r: ResolveResult) -> ResolveView {
    (r.name@, r.exists, r.binding, r.set)
}

pub open spec fn resolve_views(v: Seq<ResolveResult>) -> Seq<ResolveView> {
    v.map_values(|r: ResolveResult| resolve_view(r))
}

/// Index of the first variable named `name` from `k` on.
pub open spec fn first_named(vs: Seq<VarView>, name: Seq<char>, k: int) -> Option<int>
    decreases vs.len() - k,
{
    if k < 0 || k >= vs.len() {
        None
    } else if vs[k].0 == name {
        Some(k)
    } else {
        first_named(vs, name, k + 1)
    }
}

pub proof fn lemma_first_named(vs: Seq<VarView>, name: Seq<char>, k: int)
    requires
        0 <= k,
    ensures
        first_named(vs, name, k) matches Some(i) ==> k <= i < vs.len() && vs[i].0 == name,
    decreases vs.len() - k,
{
    if k < vs.len() && vs[k].0 != name {
        lemma_first_named(vs, name, k + 1);
    }
}

pub open spec fn mismatch_message(name: Seq<char>, expected: BindTableVariableType, found: BindTableVariableType) -> Seq<char> {
    "reserved binding `"@ + name + "` expected "@ + kind_label(expected) + " but shader reported "@ + kind_label(found)
}

/// Resolving the reserved bindings `metas[k..]` against variables `vs`:
/// each must be declared (first declaration by name) with its type.
pub open spec fn resolved_from(metas: Seq<ReservedMetadata>, vs: Seq<VarView>, k: int) -> Result<Seq<ResolveView>, (Seq<char>, bool)>
    decreases metas.len() - k,
{
    if k < 0 || k >= metas.len() {
        Ok(Seq::empty())
    } else {
        let meta = metas[k];
        match first_named(vs, meta.name@, 0) {
            None => Err((meta.name@, true)),
            Some(i) => if vs[i].2 != meta.kind {
                Err((mismatch_message(meta.name@, meta.kind, vs[i].2), false))
            } else {
                match resolved_from(metas, vs, k + 1) {
                    Err(e) => Err(e),
                    Ok(rest) => Ok(seq![(vs[i].0, true, BindTableVariable { var_type: vs[i].2, binding: vs[i].3, count: vs[i].4 }, vs[i].1)] + rest),
                }
            },
        }
    }
}

/// Entry `r` resolves reserved binding `meta` against `vars`: it names the
/// binding, exists, and is exactly where and how the first variable of
/// that name is declared (its type, binding and count, and its set), whose
/// type is the one reserved.
pub open spec fn resolves_to(r: ResolveView, meta: ReservedMetadata, vars: Seq<crate::bento::types::ShaderVariable>) -> bool {
    exists|j: int|
        0 <= j < vars.len() && #[trigger] vars[j].name@ == meta.name@ && (forall|j2: int| 0 <= j2 < j ==> vars[j2].name@ != meta.name@)
            && vars[j].kind.var_type == meta.kind && r == (meta.name@, true, vars[j].kind, vars[j].set)
}

proof fn lemma_resolved_from(metas: Seq<ReservedMetadata>, vars: Seq<crate::bento::types::ShaderVariable>, k: int)
    requires
        0 <= k <= metas.len(),
    ensures
        resolved_from(metas, var_views(vars), k) matches Ok(v) ==> v.len() == metas.len() - k && forall|t: int|
            0 <= t < v.len() ==> resolves_to(#[trigger] v[t], metas[k + t], vars),
    decreases metas.len() - k,
{
    if k < metas.len() {
        let vs = var_views(vars);
        lemma_resolved_from(metas, vars, k + 1);
        lemma_first_named(vs, metas[k].name@, 0);
        if let Some(i) = first_named(vs, metas[k].name@, 0) {
            if let Ok(v) = resolved_from(metas, vs, k) {
                let rest = resolved_from(metas, vs, k + 1)->Ok_0;
                assert(vs[i] == var_view(vars[i]));
                lemma_first_named_first(vs, metas[k].name@, 0);
                assert forall|j2: int| 0 <= j2 < i implies vars[j2].name@ != metas[k].name@ by {
                    assert(vs[j2] == var_view(vars[j2]));
                }
                assert(v[0] == (metas[k].name@, true, vars[i].kind, vars[i].set));
                assert(resolves_to(v[0], metas[k], vars));
                assert forall|t: int| 0 <= t < v.len() implies resolves_to(#[trigger] v[t], metas[k + t], vars) by {
                    if t > 0 {
                        assert(v[t] == rest[t - 1]);
                        assert(metas[k + t] == metas[(k + 1) + (t - 1)]);
                    }
                }
            }
        }
    }
}

proof fn lemma_first_named_first(vs: Seq<VarView>, name: Seq<char>, k: int)
    requires
        0 <= k,
    ensures
        first_named(vs, name, k) matches Some(i) ==> forall|j: int| k <= j < i ==> vs[j].0 != name,
    decreases vs.len() - k,
{
    if k < vs.len() && vs[k].0 != name {
        lemma_first_named_first(vs, name, k + 1);
    }
}

/// Resolving gives one entry per reserved binding, in order, each exactly
/// the declaration of the first shader variable with that name: its type,
/// binding and count, and its set.
pub proof fn law_resolved_bindings_are_declarations(metas: Seq<ReservedMetadata>, vars: Seq<crate::bento::types::ShaderVariable>)
    ensures
        resolved_from(metas, var_views(vars), 0) matches Ok(v) ==> v.len() == metas.len() && forall|k: int|
            0 <= k < v.len() ==> resolves_to(#[trigger] v[k], metas[k], vars),
{
    lemma_resolved_from(metas, vars, 0);
}

fn find_named(vars: &Vec<crate::bento::types::ShaderVariable>, name: &String) -> (r: Option<usize>)
    ensures
        r matches Some(i) ==> first_named(var_views(vars@), name@, 0) == Some(i as int),
        r is None ==> first_named(var_views(vars@), name@, 0) is None,
{
    let ghost vs = var_views(vars@);
    let m = vars.len();
    let mut i: usize = 0;
    while i < m
        invariant
            i <= m == vars@.len(),
            vs == var_views(vars@),
            first_named(vs, name@, 0) == first_named(vs, name@, i as int),
        decreases m - i,
    {
        assert(vs[i as int] == var_view(vars@[i as int]));
        if vars[i].name == *name {
            return Some(i);
        }
        i = i + 1;
    }
    None
}

/// The reserved bindings that a compiled shader declares.
pub struct Resolver {
    resolved: Vec<ResolveResult>,
}

impl Resolver {
    pub closed spec fn resolved_view(&self) -> Seq<ResolveView> {
        resolve_views(self.resolved@)
    }

    /// Resolves every reserved binding of `metadata` in `result`: a binding
    /// the shader does not declare is `MissingReservedBinding`, one declared
    /// with another type is `ResolverReflection`.
    pub fn new(metadata: &Vec<ReservedMetadata>, result: &CompilationResult) -> (r: Result<Self, FurikakeError>)
        ensures
            match resolved_from(metadata@, var_views(result.variables@), 0) {
                Ok(v) => r matches Ok(x) && x.resolved_view() == v,
                Err((text, true)) => r matches Err(FurikakeError::MissingReservedBinding { name }) && name@ == text,
                Err((text, false)) => r matches Err(FurikakeError::ResolverReflection { source }) && source@ == text,
            },
    {
        match Self::reflect_bindings(metadata, result) {
            Ok(resolved) => Ok(Resolver { resolved }),
            Err(e) => Err(e),
        }
    }

    pub fn resolved(&self) -> (r: &Vec<ResolveResult>)
        ensures
            resolve_views(r@) == self.resolved_view(),
    {
        &self.resolved
    }

    fn reflect_bindings(names: &Vec<ReservedMetadata>, res: &CompilationResult) -> (r: Result<Vec<ResolveResult>, FurikakeError>)
        ensures
            match resolved_from(names@, var_views(res.variables@), 0) {
                Ok(v) => r matches Ok(x) && resolve_views(x@) == v,
                Err((text, true)) => r matches Err(FurikakeError::MissingReservedBinding { name }) && name@ == text,
                Err((text, false)) => r matches Err(FurikakeError::ResolverReflection { source }) && source@ == text,
            },
    {
        let ghost vs = var_views(res.variables@);
        let mut results: Vec<ResolveResult> = Vec::new();
        let n = names.len();
        let mut k: usize = 0;
        assert(resolve_views(results@) =~= Seq::<ResolveView>::empty());
        assert(resolved_from(names@, vs, 0) == prepend_resolved(resolve_views(results@), resolved_from(names@, vs, 0))) by {
            if let Ok(rest) = resolved_from(names@, vs, 0) {
                assert(Seq::<ResolveView>::empty() + rest =~= rest);
            }
        }
        while k < n
            invariant
                k <= n == names@.len(),
                vs == var_views(res.variables@),
                resolved_from(names@, vs, 0) == prepend_resolved(resolve_views(results@), resolved_from(names@, vs, k as int)),
            decreases n - k,
        {
            let meta = &names[k];
            let found = find_named(&res.variables, &meta.name);
            proof {
                lemma_first_named(vs, meta.name@, 0);
            }
            match found {
                None => {
                    return Err(FurikakeError::MissingReservedBinding { name: meta.name.clone() });
                },
                Some(idx) => {
                    let v = &res.variables[idx];
                    assert(vs[idx as int] == var_view(*v));
                    assert(first_named(vs, meta.name@, 0) == Some(idx as int));
                    if v.kind.var_type != meta.kind {
                        let mut msg = String::new();
                        push_all(&mut msg, "reserved binding `");
                        push_all(&mut msg, meta.name.as_str());
                        push_all(&mut msg, "` expected ");
                        push_all(&mut msg, kind_label_exec(meta.kind));
                        push_all(&mut msg, " but shader reported ");
                        push_all(&mut msg, kind_label_exec(v.kind.var_type));
                        assert(msg@ =~= mismatch_message(meta.name@, meta.kind, v.kind.var_type));
                        return Err(FurikakeError::ResolverReflection { source: msg });
                    }
                    let item = ResolveResult { name: v.name.clone(), exists: true, binding: v.kind, set: v.set };
                    let ghost before = resolve_views(results@);
                    let ghost iv = resolve_view(item);
                    results.push(item);
                    proof {
                        assert(resolve_views(results@) =~= before.push(iv));
                        if let Ok(rest) = resolved_from(names@, vs, k + 1) {
                            assert(before + (seq![iv] + rest) =~= before.push(iv) + rest);
                        }
                    }
                },
            }
            k = k + 1;
        }
        proof {
            if let Ok(rest) = resolved_from(names@, vs, n as int) {
                assert(resolve_views(results@) + rest =~= resolve_views(results@));
            }
        }
        Ok(results)
    }
}

pub open spec fn prepend_resolved(a: Seq<ResolveView>, r: Result<Seq<ResolveView>, (Seq<char>, bool)>) -> Result<Seq<ResolveView>, (Seq<char>, bool)> {
    match r {
        Ok(rest) => Ok(a + rest),
        Err(e) => Err(e),
    }
}

} // verus!
