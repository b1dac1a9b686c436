use vstd::prelude::*;

use super::glsl::{binding_name, binding_views, extract_binding_name, parse_u32, parse_u32_range, prepend, BindingView, SourceBinding};
use super::regex_ops::{captures_all, captures_view, group_view, groups_view, regex_captures, regex_error};
use super::types::BentoError;
use crate::text::{chars_of, decimal, push_all, string_of, trim, trim_range, u32_to_string, usize_to_string};

verus! {

pub type Groups = Seq<Option<Seq<char>>>;

/// `[[vk::binding(B[, S])]] declaration;` at the start of a line.
pub open spec fn vk_binding_pattern() -> Seq<char> {
    "(?m)^\\s*\\[\\[\\s*vk::binding\\s*\\(\\s*(\\d+)\\s*(?:,\\s*(\\d+)\\s*)?\\)\\s*\\]\\]\\s*([^;\\n]+);"@
}

/// A resource declaration (textures, buffers, samplers, acceleration
/// structures) at the start of a line; group 1 is the variable's name.
pub open spec fn resource_pattern() -> Seq<char> {
    "(?m)^\\s*(?:uniform\\s+)?(?:RW?Texture\\w+|RW?StructuredBuffer|StructuredBuffer|ConstantBuffer|ByteAddressBuffer|RaytracingAccelerationStructure|AccelerationStructure|Texture\\w+|Sampler\\w*)[^;\\n]*?\\s+([A-Za-z_][A-Za-z0-9_]*)[^;\\n]*"@
}

/// A `cbuffer` or `ConstantBuffer` declaration at the start of a line.
pub open spec fn cbuffer_pattern() -> Seq<char> {
    "(?m)^\\s*(?:cbuffer|ConstantBuffer)\\s+([A-Za-z_][A-Za-z0-9_]*)[^;\\n]*"@
}

/// `register(tN[, spaceS])`: group 2 the register, group 3 the space.
pub open spec fn register_pattern() -> Seq<char> {
    "register\\(\\s*([tubcs])\\s*(\\d+)\\s*(?:,\\s*space\\s*(\\d+)\\s*)?\\)"@
}

/// Group `i` of a match, `None` when the match has no such group.
pub open spec fn grp(m: Groups, i: int) -> Option<Seq<char>> {
    if 0 <= i < m.len() {
        m[i]
    } else {
        None
    }
}

pub open spec fn parse_group(g: Option<Seq<char>>) -> Option<u32> {
    match g {
        Some(t) => parse_u32(t),
        None => None,
    }
}

/// `{:?}` of an `Option<u32>`.
pub open spec fn debug_opt_u32(b: Option<u32>) -> Seq<char> {
    match b {
        Some(x) => "Some("@ + decimal(x as nat) + ")"@,
        None => "None"@,
    }
}

pub open spec fn hlsl_unnamed_message(set: u32, binding: Option<u32>) -> Seq<char> {
    "Unable to determine HLSL binding name for set "@ + decimal(set as nat) + " binding "@ + debug_opt_u32(binding)
}

pub open spec fn resource_unnamed_message(index: nat) -> Seq<char> {
    "Unable to determine HLSL binding name for resource index "@ + decimal(index)
}

/// The bindings of the `vk::binding` matches `k..`: each names its
/// declaration's binding (an unnamed one is an error); one whose binding
/// number does not parse is left out; the set defaults to 0.
pub open spec fn vk_entries(ms: Seq<Groups>, k: int) -> Result<Seq<BindingView>, Seq<char>>
    decreases ms.len() - k,
{
    if k < 0 || k >= ms.len() {
        Ok(Seq::empty())
    } else {
        let m = ms[k];
        let binding = parse_group(grp(m, 1));
        let set = match parse_group(grp(m, 2)) {
            Some(x) => x,
            None => 0,
        };
        match grp(m, 3) {
            None => vk_entries(ms, k + 1),
            Some(decl) => match binding_name(decl) {
                None => Err(hlsl_unnamed_message(set, binding)),
                Some(name) => match binding {
                    None => vk_entries(ms, k + 1),
                    Some(b) => prepend(seq![(set, Some(b), name, k as usize)], vk_entries(ms, k + 1)),
                },
            },
        }
    }
}

/// Register number and space of a declaration, from the first
/// `register(..)` in it; the space defaults to 0.
pub open spec fn register_slot(regs: Seq<Groups>) -> (Option<u32>, u32) {
    if regs.len() == 0 {
        (None, 0)
    } else {
        (
            parse_group(grp(regs[0], 2)),
            match parse_group(grp(regs[0], 3)) {
                Some(x) => x,
                None => 0,
            },
        )
    }
}

/// The bindings of the resource matches `k..`, numbered by match; a match
/// whose name is blank is an error.
pub open spec fn resource_entries(ms: Seq<Groups>, k: int) -> Result<Seq<BindingView>, Seq<char>>
    decreases ms.len() - k,
{
    if k < 0 || k >= ms.len() {
        Ok(Seq::empty())
    } else {
        let m = ms[k];
        match grp(m, 0) {
            None => resource_entries(ms, k + 1),
            Some(decl) => match grp(m, 1) {
                Some(name) => if trim(name).len() > 0 {
                    let slot = register_slot(regex_captures(register_pattern(), decl));
                    prepend(seq![(slot.1, slot.0, name, k as usize)], resource_entries(ms, k + 1))
                } else {
                    Err(resource_unnamed_message(k as nat))
                },
                None => Err(resource_unnamed_message(k as nat)),
            },
        }
    }
}

/// The bindings of the constant buffer matches `k..`, numbered from
/// `start`; each is named by its declaration, else by its group 1, else
/// `cbuffer_<k>`; the numbers wrap around as `usize` arithmetic does.
pub open spec fn cbuffer_entries(ms: Seq<Groups>, k: int, start: usize) -> Seq<BindingView>
    decreases ms.len() - k,
{
    if k < 0 || k >= ms.len() {
        Seq::empty()
    } else {
        let m = ms[k];
        let fallback = match grp(m, 1) {
            Some(n) => n,
            None => "cbuffer_"@ + decimal(k as nat),
        };
        match grp(m, 0) {
            None => cbuffer_entries(ms, k + 1, start),
            Some(decl) => {
                let name = match binding_name(decl) {
                    Some(n) => n,
                    None => fallback,
                };
                let slot = register_slot(regex_captures(register_pattern(), decl));
                seq![(slot.1, slot.0, name, start.wrapping_add(k as usize))] + cbuffer_entries(ms, k + 1, start)
            },
        }
    }
}

/// The bindings that the matches of the three patterns give: the
/// `vk::binding` ones first, then the resources, then the constant buffers
/// numbered after the resources.
pub open spec fn bindings_from_matches(vk: Seq<Groups>, resources: Seq<Groups>, cbuffers: Seq<Groups>) -> Result<
    Seq<BindingView>,
    Seq<char>,
> {
    match vk_entries(vk, 0) {
        Err(e) => Err(e),
        Ok(explicit) => match resource_entries(resources, 0) {
            Err(e) => Err(e),
            Ok(res) => Ok(explicit + res + cbuffer_entries(cbuffers, 0, res.len() as usize)),
        },
    }
}

/// The bindings named in HLSL or Slang source `s`: the explicit
/// `vk::binding` ones first, then the resources and constant buffers with
/// their register slots, each group in source order (the order keys they
/// are sorted by already ascend within a group).  A pattern that does not
/// compile, or an unnamed binding, is an error.
pub open spec fn hlsl_bindings(s: Seq<char>) -> Result<Seq<BindingView>, Seq<char>> {
    match regex_error(vk_binding_pattern()) {
        Some(e) => Err("Invalid vk::binding regex: "@ + e),
        None => match regex_error(resource_pattern()) {
            Some(e) => Err("Invalid HLSL reflection regex: "@ + e),
            None => match regex_error(cbuffer_pattern()) {
                Some(e) => Err("Invalid constant buffer regex: "@ + e),
                None => match regex_error(register_pattern()) {
                    Some(e) => Err("Invalid register regex: "@ + e),
                    None => bindings_from_matches(
                        regex_captures(vk_binding_pattern(), s),
                        regex_captures(resource_pattern(), s),
                        regex_captures(cbuffer_pattern(), s),
                    ),
                },
            },
        },
    }
}

fn group_exec(m: &Vec<Option<String>>, i: usize) -> (r: Option<String>)
    ensures
        group_view(r) == grp(groups_view(m@), i as int),
{
    if i < m.len() {
        match &m[i] {
            Some(x) => Some(x.clone()),
            None => None,
        }
    } else {
        None
    }
}

fn parse_group_exec(g: &Option<String>) -> (r: Option<u32>)
    ensures
        r == parse_group(group_view(*g)),
{
    match g {
        Some(t) => {
            let v = chars_of(t.as_str());
            assert(v@.subrange(0, v@.len() as int) =~= v@);
            parse_u32_range(&v, 0, v.len())
        },
        None => None,
    }
}

fn debug_opt_u32_exec(b: Option<u32>) -> (r: String)
    ensures
        r@ == debug_opt_u32(b),
{
    let mut out = String::new();
    match b {
        Some(x) => {
            push_all(&mut out, "Some(");
            let t = u32_to_string(x);
            push_all(&mut out, t.as_str());
            push_all(&mut out, ")");
        },
        None => {
            push_all(&mut out, "None");
        },
    }
    assert(out@ =~= debug_opt_u32(b));
    out
}

fn is_blank(s: &String) -> (r: bool)
    ensures
        r == (trim(s@).len() == 0),
{
    let v = chars_of(s.as_str());
    let (a, b) = trim_range(&v, 0, v.len());
    assert(v@.subrange(0, v@.len() as int) =~= v@);
    a == b
}

fn name_of(decl: &String) -> (r: Option<String>)
    ensures
        match binding_name(decl@) {
            Some(x) => r matches Some(v) && v@ == x,
            None => r is None,
        },
{
    let v = chars_of(decl.as_str());
    extract_binding_name(&v)
}

fn message(prefix: &str, detail: &String) -> (r: String)
    ensures
        r@ == prefix@ + detail@,
{
    let mut out = String::new();
    push_all(&mut out, prefix);
    push_all(&mut out, detail.as_str());
    assert(out@ =~= prefix@ + detail@);
    out
}

proof fn lemma_prepend_one(a: Seq<BindingView>, b: BindingView, r: Result<Seq<BindingView>, Seq<char>>)
    ensures
        prepend(a, prepend(seq![b], r)) == prepend(a.push(b), r),
{
    if let Ok(rest) = r {
        assert(a + (seq![b] + rest) =~= a.push(b) + rest);
    }
}

proof fn lemma_prepend_empty(r: Result<Seq<BindingView>, Seq<char>>)
    ensures
        prepend(Seq::empty(), r) == r,
{
    if let Ok(rest) = r {
        assert(Seq::<BindingView>::empty() + rest =~= rest);
    }
}

/// The register number and space of `decl` (see `register_slot`).
fn register_slot_exec(decl: &String) -> (r: (Option<u32>, u32))
    requires
        regex_error(register_pattern()) is None,
    ensures
        r == register_slot(regex_captures(register_pattern(), decl@)),
{
    match captures_all("register\\(\\s*([tubcs])\\s*(\\d+)\\s*(?:,\\s*space\\s*(\\d+)\\s*)?\\)", decl.as_str()) {
        Ok(regs) => {
            if regs.len() == 0 {
                (None, 0)
            } else {
                let ghost g = groups_view(regs@[0]@);
                assert(captures_view(regs@)[0] == g);
                let reg = parse_group_exec(&group_exec(&regs[0], 2));
                let space = match parse_group_exec(&group_exec(&regs[0], 3)) {
                    Some(x) => x,
                    None => 0,
                };
                (reg, space)
            }
        },
        Err(_) => {
            proof {
                assert(false);
            }
            (None, 0)
        },
    }
}

fn vk_entries_exec(ms: &Vec<Vec<Option<String>>>) -> (r: Result<Vec<SourceBinding>, String>)
    ensures
        match vk_entries(captures_view(ms@), 0) {
            Ok(v) => r matches Ok(bs) && binding_views(bs@) == v,
            Err(e) => r matches Err(x) && x@ == e,
        },
{
    let ghost cv = captures_view(ms@);
    let n = ms.len();
    let mut acc: Vec<SourceBinding> = Vec::new();
    let mut k: usize = 0;
    proof {
        assert(binding_views(acc@) =~= Seq::<BindingView>::empty());
        lemma_prepend_empty(vk_entries(cv, 0));
    }
    while k < n
        invariant
            k <= n == ms@.len(),
            cv == captures_view(ms@),
            vk_entries(cv, 0) == prepend(binding_views(acc@), vk_entries(cv, k as int)),
        decreases n - k,
    {
        let m = &ms[k];
        assert(cv[k as int] == groups_view(m@));
        let binding = parse_group_exec(&group_exec(m, 1));
        let set = match parse_group_exec(&group_exec(m, 2)) {
            Some(x) => x,
            None => 0,
        };
        match group_exec(m, 3) {
            None => {},
            Some(decl) => {
                match name_of(&decl) {
                    None => {
                        let mut msg = String::new();
                        push_all(&mut msg, "Unable to determine HLSL binding name for set ");
                        let a = u32_to_string(set);
                        push_all(&mut msg, a.as_str());
                        push_all(&mut msg, " binding ");
                        let b = debug_opt_u32_exec(binding);
                        push_all(&mut msg, b.as_str());
                        assert(msg@ =~= hlsl_unnamed_message(set, binding));
                        return Err(msg);
                    },
                    Some(name) => {
                        match binding {
                            None => {},
                            Some(b) => {
                                let sb = SourceBinding { set, binding: Some(b), name, order: k };
                                let ghost before = acc@;
                                let ghost bv = sb.view_tuple();
                                acc.push(sb);
                                proof {
                                    assert(binding_views(acc@) =~= binding_views(before).push(bv));
                                    lemma_prepend_one(binding_views(before), bv, vk_entries(cv, k + 1));
                                }
                            },
                        }
                    },
                }
            },
        }
        k = k + 1;
    }
    proof {
        assert(binding_views(acc@) + Seq::<BindingView>::empty() =~= binding_views(acc@));
    }
    Ok(acc)
}

fn resource_entries_exec(ms: &Vec<Vec<Option<String>>>) -> (r: Result<Vec<SourceBinding>, String>)
    requires
        regex_error(register_pattern()) is None,
    ensures
        match resource_entries(captures_view(ms@), 0) {
            Ok(v) => r matches Ok(bs) && binding_views(bs@) == v,
            Err(e) => r matches Err(x) && x@ == e,
        },
{
    let ghost cv = captures_view(ms@);
    let n = ms.len();
    let mut acc: Vec<SourceBinding> = Vec::new();
    let mut k: usize = 0;
    proof {
        assert(binding_views(acc@) =~= Seq::<BindingView>::empty());
        lemma_prepend_empty(resource_entries(cv, 0));
    }
    while k < n
        invariant
            k <= n == ms@.len(),
            cv == captures_view(ms@),
            regex_error(register_pattern()) is None,
            resource_entries(cv, 0) == prepend(binding_views(acc@), resource_entries(cv, k as int)),
        decreases n - k,
    {
        let m = &ms[k];
        assert(cv[k as int] == groups_view(m@));
        match group_exec(m, 0) {
            None => {},
            Some(decl) => {
                let named = match group_exec(m, 1) {
                    Some(name) => if is_blank(&name) {
                        None
                    } else {
                        Some(name)
                    },
                    None => None,
                };
                match named {
                    None => {
                        let t = usize_to_string(k);
                        let msg = message("Unable to determine HLSL binding name for resource index ", &t);
                        return Err(msg);
                    },
                    Some(name) => {
                        let slot = register_slot_exec(&decl);
                        let sb = SourceBinding { set: slot.1, binding: slot.0, name, order: k };
                        let ghost before = acc@;
                        let ghost bv = sb.view_tuple();
                        acc.push(sb);
                        proof {
                            assert(binding_views(acc@) =~= binding_views(before).push(bv));
                            lemma_prepend_one(binding_views(before), bv, resource_entries(cv, k + 1));
                        }
                    },
                }
            },
        }
        k = k + 1;
    }
    proof {
        assert(binding_views(acc@) + Seq::<BindingView>::empty() =~= binding_views(acc@));
    }
    Ok(acc)
}

fn cbuffer_entries_exec(ms: &Vec<Vec<Option<String>>>, start: usize, out: &mut Vec<SourceBinding>)
    requires
        regex_error(register_pattern()) is None,
    ensures
        binding_views(final(out)@) == binding_views(old(out)@) + cbuffer_entries(captures_view(ms@), 0, start),
{
    let ghost cv = captures_view(ms@);
    let ghost base = binding_views(out@);
    let n = ms.len();
    let mut k: usize = 0;
    assert(base + cbuffer_entries(cv, 0, start) =~= base + cbuffer_entries(cv, 0, start));
    while k < n
        invariant
            k <= n == ms@.len(),
            cv == captures_view(ms@),
            regex_error(register_pattern()) is None,
            base + cbuffer_entries(cv, 0, start) == binding_views(out@) + cbuffer_entries(cv, k as int, start),
        decreases n - k,
    {
        let m = &ms[k];
        assert(cv[k as int] == groups_view(m@));
        let fallback = match group_exec(m, 1) {
            Some(x) => x,
            None => {
                let t = usize_to_string(k);
                let f = message("cbuffer_", &t);
                f
            },
        };
        match group_exec(m, 0) {
            None => {},
            Some(decl) => {
                let name = match name_of(&decl) {
                    Some(x) => x,
                    None => fallback,
                };
                let slot = register_slot_exec(&decl);
                let sb = SourceBinding { set: slot.1, binding: slot.0, name, order: start.wrapping_add(k) };
                let ghost before = binding_views(out@);
                let ghost bv = sb.view_tuple();
                out.push(sb);
                proof {
                    assert(binding_views(out@) =~= before.push(bv));
                    assert(before + (seq![bv] + cbuffer_entries(cv, k + 1, start)) =~= before.push(bv)
                        + cbuffer_entries(cv, k + 1, start));
                }
            },
        }
        k = k + 1;
    }
    assert(binding_views(out@) + Seq::<BindingView>::empty() =~= binding_views(out@));
}

fn compile_failure(prefix: &str, e: String) -> (r: BentoError)
    ensures
        r matches BentoError::ShaderCompilation(x) && x@ == prefix@ + e@,
{
    BentoError::ShaderCompilation(message(prefix, &e))
}

/// The bindings that HLSL or Slang source declares (see `hlsl_bindings`).
pub fn parse_hlsl_like_bindings(source: &str) -> (r: Result<Vec<SourceBinding>, BentoError>)
    ensures
        match hlsl_bindings(source@) {
            Ok(v) => r matches Ok(bs) && binding_views(bs@) == v,
            Err(e) => r matches Err(BentoError::ShaderCompilation(x)) && x@ == e,
        },
{
    let vk = match captures_all(
        "(?m)^\\s*\\[\\[\\s*vk::binding\\s*\\(\\s*(\\d+)\\s*(?:,\\s*(\\d+)\\s*)?\\)\\s*\\]\\]\\s*([^;\\n]+);",
        source,
    ) {
        Ok(v) => v,
        Err(e) => return Err(compile_failure("Invalid vk::binding regex: ", e)),
    };
    let resources = match captures_all(
        "(?m)^\\s*(?:uniform\\s+)?(?:RW?Texture\\w+|RW?StructuredBuffer|StructuredBuffer|ConstantBuffer|ByteAddressBuffer|RaytracingAccelerationStructure|AccelerationStructure|Texture\\w+|Sampler\\w*)[^;\\n]*?\\s+([A-Za-z_][A-Za-z0-9_]*)[^;\\n]*",
        source,
    ) {
        Ok(v) => v,
        Err(e) => return Err(compile_failure("Invalid HLSL reflection regex: ", e)),
    };
    let cbuffers = match captures_all("(?m)^\\s*(?:cbuffer|ConstantBuffer)\\s+([A-Za-z_][A-Za-z0-9_]*)[^;\\n]*", source) {
        Ok(v) => v,
        Err(e) => return Err(compile_failure("Invalid constant buffer regex: ", e)),
    };
    match captures_all("register\\(\\s*([tubcs])\\s*(\\d+)\\s*(?:,\\s*space\\s*(\\d+)\\s*)?\\)", "") {
        Ok(_) => {},
        Err(e) => return Err(compile_failure("Invalid register regex: ", e)),
    }
    match hlsl_bindings_from_matches(&vk, &resources, &cbuffers) {
        Ok(v) => Ok(v),
        Err(msg) => Err(BentoError::ShaderCompilation(msg)),
    }
}

/// The bindings that the capture groups of the `vk::binding`, resource and
/// constant buffer patterns give (see `bindings_from_matches`); the
/// declarations' `register(..)` slots are read with the register pattern.
pub fn hlsl_bindings_from_matches(
    vk: &Vec<Vec<Option<String>>>,
    resources: &Vec<Vec<Option<String>>>,
    cbuffers: &Vec<Vec<Option<String>>>,
) -> (r: Result<Vec<SourceBinding>, String>)
    requires
        regex_error(register_pattern()) is None,
    ensures
        match bindings_from_matches(captures_view(vk@), captures_view(resources@), captures_view(cbuffers@)) {
            Ok(v) => r matches Ok(bs) && binding_views(bs@) == v,
            Err(e) => r matches Err(x) && x@ == e,
        },
{
    let mut out = match vk_entries_exec(vk) {
        Ok(v) => v,
        Err(msg) => return Err(msg),
    };
    let parsed = match resource_entries_exec(resources) {
        Ok(v) => v,
        Err(msg) => return Err(msg),
    };
    let start = parsed.len();
    let ghost explicit = out@;
    let mut parsed = parsed;
    let ghost res = parsed@;
    out.append(&mut parsed);
    assert(binding_views(out@) =~= binding_views(explicit) + binding_views(res));
    cbuffer_entries_exec(cbuffers, start, &mut out);
    proof {
        assert(binding_views(res).len() == start);
    }
    Ok(out)
}

} // verus!
