//! The human-readable report on a compilation result that the compiler
//! prints when asked to be verbose and the inspector prints for a Bento
//! file.

use vstd::prelude::*;

use super::metadata::{iface_view, iface_views, strings_view, InterfaceView};
use super::reflect::{var_view, var_views, VarView};
use super::types::{
    BindTableVariableType, CompilationResult, InterfaceVariable, ShaderLang, ShaderPrimitiveType, ShaderType,
    ShaderVariable, VertexEntry, VertexLayout,
};
use crate::text::{decimal, push_all, u128_to_string, u32_to_string, usize_to_string};

verus! {

// ------------------------------------------------------------------ labels

pub open spec fn lang_name(l: ShaderLang) -> Seq<char> {
    match l {
        ShaderLang::Infer => "Infer"@,
        ShaderLang::Slang => "Slang"@,
        ShaderLang::Glsl => "Glsl"@,
        ShaderLang::Hlsl => "Hlsl"@,
        ShaderLang::Other => "Other"@,
    }
}

pub open spec fn stage_name(s: ShaderType) -> Seq<char> {
    match s {
        ShaderType::Vertex => "Vertex"@,
        ShaderType::Fragment => "Fragment"@,
        ShaderType::Compute => "Compute"@,
        ShaderType::All => "All"@,
    }
}

pub open spec fn var_type_name(t: BindTableVariableType) -> Seq<char> {
    match t {
        BindTableVariableType::Uniform => "Uniform"@,
        BindTableVariableType::DynamicUniform => "DynamicUniform"@,
        BindTableVariableType::Storage => "Storage"@,
        BindTableVariableType::DynamicStorage => "DynamicStorage"@,
        BindTableVariableType::Image => "Image"@,
        BindTableVariableType::Sampler => "Sampler"@,
        BindTableVariableType::StorageImage => "StorageImage"@,
        BindTableVariableType::SampledImage => "SampledImage"@,
    }
}

pub open spec fn format_name(f: ShaderPrimitiveType) -> Seq<char> {
    match f {
        ShaderPrimitiveType::Vec2 => "Vec2"@,
        ShaderPrimitiveType::Vec3 => "Vec3"@,
        ShaderPrimitiveType::Vec4 => "Vec4"@,
        ShaderPrimitiveType::IVec4 => "IVec4"@,
        ShaderPrimitiveType::UVec4 => "UVec4"@,
    }
}

fn lang_label(l: ShaderLang) -> (r: &'static str)
    ensures
        r@ == lang_name(l),
{
    match l {
        ShaderLang::Infer => "Infer",
        ShaderLang::Slang => "Slang",
        ShaderLang::Glsl => "Glsl",
        ShaderLang::Hlsl => "Hlsl",
        ShaderLang::Other => "Other",
    }
}

fn stage_label(s: ShaderType) -> (r: &'static str)
    ensures
        r@ == stage_name(s),
{
    match s {
        ShaderType::Vertex => "Vertex",
        ShaderType::Fragment => "Fragment",
        ShaderType::Compute => "Compute",
        ShaderType::All => "All",
    }
}

fn var_type_label(t: BindTableVariableType) -> (r: &'static str)
    ensures
        r@ == var_type_name(t),
{
    match t {
        BindTableVariableType::Uniform => "Uniform",
        BindTableVariableType::DynamicUniform => "DynamicUniform",
        BindTableVariableType::Storage => "Storage",
        BindTableVariableType::DynamicStorage => "DynamicStorage",
        BindTableVariableType::Image => "Image",
        BindTableVariableType::Sampler => "Sampler",
        BindTableVariableType::StorageImage => "StorageImage",
        BindTableVariableType::SampledImage => "SampledImage",
    }
}

fn format_label(f: ShaderPrimitiveType) -> (r: &'static str)
    ensures
        r@ == format_name(f),
{
    match f {
        ShaderPrimitiveType::Vec2 => "Vec2",
        ShaderPrimitiveType::Vec3 => "Vec3",
        ShaderPrimitiveType::Vec4 => "Vec4",
        ShaderPrimitiveType::IVec4 => "IVec4",
        ShaderPrimitiveType::UVec4 => "UVec4",
    }
}

// ------------------------------------------------------------------- lines

/// `  <name> -> set <set>, binding <binding> (<type>), count <count>`
pub open spec fn variable_line(v: VarView) -> Seq<char> {
    "  "@ + v.0 + " -> set "@ + decimal(v.1 as nat) + ", binding "@ + decimal(v.3 as nat) + " ("@ + var_type_name(v.2)
        + "), count "@ + decimal(v.4 as nat)
}

/// `  @location(<location>) <name>`, or `  <name>` without a location.
pub open spec fn interface_line(i: InterfaceView) -> Seq<char> {
    match i.1 {
        Some(l) => "  @location("@ + decimal(l as nat) + ") "@ + i.0,
        None => "  "@ + i.0,
    }
}

/// `  @location(<location>) offset <offset> -> <format>`
pub open spec fn vertex_line(e: VertexEntry) -> Seq<char> {
    "  @location("@ + decimal(e.location as nat) + ") offset "@ + decimal(e.offset as nat) + " -> "@ + format_name(e.format)
}

pub open spec fn indented(s: Seq<char>) -> Seq<char> {
    "  "@ + s
}

/// A titled list: the title, then the items; nothing for no items.
pub open spec fn titled(title: Seq<char>, items: Seq<Seq<char>>) -> Seq<Seq<char>> {
    if items.len() == 0 {
        Seq::empty()
    } else {
        seq![title] + items
    }
}

/// The opening lines: entry name, (for an inspection) the source file,
/// language, stage, and the heading of the variables.
pub open spec fn head_lines(r: CompilationResult, inspection: bool) -> Seq<Seq<char>> {
    seq![
        "Entry: "@ + match r.name {
            Some(n) => n@,
            None => "<unnamed shader>"@,
        },
    ] + (if inspection {
        match r.file {
            Some(f) => seq!["Source: "@ + f@],
            None => Seq::empty(),
        }
    } else {
        Seq::empty()
    }) + seq!["Language: "@ + lang_name(r.lang), "Stage: "@ + stage_name(r.stage), "Variables:"@]
}

/// The vertex layout's lines, when there is one.
pub open spec fn layout_lines(vertex: Option<VertexLayout>) -> Seq<Seq<char>> {
    match vertex {
        Some(l) => seq!["Vertex layout (stride "@ + decimal(l.stride as nat) + " bytes):"@] + l.entries@.map_values(
            |e: VertexEntry| vertex_line(e),
        ),
        None => Seq::empty(),
    }
}

/// The workgroup size's line, when there is one.
pub open spec fn group_lines(size: Option<[u32; 3]>) -> Seq<Seq<char>> {
    match size {
        Some(w) => seq![
            "Workgroup size: "@ + decimal(w@[0] as nat) + " x "@ + decimal(w@[1] as nat) + " x "@ + decimal(
                w@[2] as nat,
            ),
        ],
        None => Seq::empty(),
    }
}

/// The closing lines: (for an inspection) the number of SPIR-V words, and
/// the size of the SPIR-V in bytes.
pub open spec fn tail_lines(words: nat, inspection: bool) -> Seq<Seq<char>> {
    (if inspection {
        seq!["SPIR-V words: "@ + decimal(words)]
    } else {
        Seq::empty()
    }) + seq!["Output size: "@ + decimal(words * 4) + " bytes"@]
}

/// The report on `r`, line by line: entry name, (for an inspection) the
/// source file, language, stage, variables, entry points, inputs, outputs,
/// vertex layout, workgroup size, (for an inspection) the number of SPIR-V
/// words, and the size of the SPIR-V in bytes.
pub open spec fn report(r: CompilationResult, inspection: bool) -> Seq<Seq<char>> {
    head_lines(r, inspection) + var_views(r.variables@).map_values(|v: VarView| variable_line(v)) + titled(
        "Entry points:"@,
        strings_view(r.metadata.entry_points@).map_values(|e: Seq<char>| indented(e)),
    ) + titled("Inputs:"@, iface_views(r.metadata.inputs@).map_values(|i: InterfaceView| interface_line(i)))
        + titled("Outputs:"@, iface_views(r.metadata.outputs@).map_values(|i: InterfaceView| interface_line(i)))
        + layout_lines(r.metadata.vertex) + group_lines(r.metadata.workgroup_size) + tail_lines(
        r.spirv@.len(),
        inspection,
    )
}

fn variable_line_exec(v: &ShaderVariable) -> (r: String)
    ensures
        r@ == variable_line(var_view(*v)),
{
    let mut s = String::new();
    push_all(&mut s, "  ");
    push_all(&mut s, v.name.as_str());
    push_all(&mut s, " -> set ");
    let a = u32_to_string(v.set);
    push_all(&mut s, a.as_str());
    push_all(&mut s, ", binding ");
    let b = u32_to_string(v.kind.binding);
    push_all(&mut s, b.as_str());
    push_all(&mut s, " (");
    push_all(&mut s, var_type_label(v.kind.var_type));
    push_all(&mut s, "), count ");
    let c = u32_to_string(v.kind.count);
    push_all(&mut s, c.as_str());
    assert(s@ =~= variable_line(var_view(*v)));
    s
}

fn interface_line_exec(i: &InterfaceVariable) -> (r: String)
    ensures
        r@ == interface_line(iface_view(*i)),
{
    let mut s = String::new();
    match i.location {
        Some(l) => {
            push_all(&mut s, "  @location(");
            let a = u32_to_string(l);
            push_all(&mut s, a.as_str());
            push_all(&mut s, ") ");
            push_all(&mut s, i.name.as_str());
        },
        None => {
            push_all(&mut s, "  ");
            push_all(&mut s, i.name.as_str());
        },
    }
    assert(s@ =~= interface_line(iface_view(*i)));
    s
}

fn vertex_line_exec(e: &VertexEntry) -> (r: String)
    ensures
        r@ == vertex_line(*e),
{
    let mut s = String::new();
    push_all(&mut s, "  @location(");
    let a = usize_to_string(e.location);
    push_all(&mut s, a.as_str());
    push_all(&mut s, ") offset ");
    let b = usize_to_string(e.offset);
    push_all(&mut s, b.as_str());
    push_all(&mut s, " -> ");
    push_all(&mut s, format_label(e.format));
    assert(s@ =~= vertex_line(*e));
    s
}

proof fn lemma_push_view(out: Seq<String>, s: String)
    ensures
        strings_view(out.push(s)) == strings_view(out).push(s@),
{
    assert(strings_view(out.push(s)) =~= strings_view(out).push(s@));
}

fn push_variables(out: &mut Vec<String>, vars: &Vec<ShaderVariable>)
    ensures
        strings_view(final(out)@) == strings_view(old(out)@) + var_views(vars@).map_values(|v: VarView| variable_line(v)),
{
    let ghost start = strings_view(out@);
    let ghost all = var_views(vars@).map_values(|v: VarView| variable_line(v));
    let n = vars.len();
    let mut i: usize = 0;
    assert(start + all.take(0) =~= start);
    while i < n
        invariant
            i <= n == vars@.len(),
            all == var_views(vars@).map_values(|v: VarView| variable_line(v)),
            strings_view(out@) == start + all.take(i as int),
        decreases n - i,
    {
        let s = variable_line_exec(&vars[i]);
        proof {
            lemma_push_view(out@, s);
            assert(start + all.take(i + 1) =~= (start + all.take(i as int)).push(s@));
        }
        out.push(s);
        i = i + 1;
    }
    assert(all.take(n as int) =~= all);
}

fn push_interfaces(out: &mut Vec<String>, title: &str, vars: &Vec<InterfaceVariable>)
    ensures
        strings_view(final(out)@) == strings_view(old(out)@) + titled(
            title@,
            iface_views(vars@).map_values(|i: InterfaceView| interface_line(i)),
        ),
{
    let ghost start = strings_view(out@);
    let ghost all = iface_views(vars@).map_values(|i: InterfaceView| interface_line(i));
    let n = vars.len();
    if n == 0 {
        assert(start + titled(title@, all) =~= start);
        return;
    }
    let mut t = String::new();
    push_all(&mut t, title);
    proof {
        lemma_push_view(out@, t);
    }
    out.push(t);
    let ghost head = start.push(title@);
    let mut i: usize = 0;
    assert(head + all.take(0) =~= head);
    while i < n
        invariant
            i <= n == vars@.len(),
            all == iface_views(vars@).map_values(|i: InterfaceView| interface_line(i)),
            strings_view(out@) == head + all.take(i as int),
        decreases n - i,
    {
        let s = interface_line_exec(&vars[i]);
        proof {
            lemma_push_view(out@, s);
            assert(head + all.take(i + 1) =~= (head + all.take(i as int)).push(s@));
        }
        out.push(s);
        i = i + 1;
    }
    assert(all.take(n as int) =~= all);
    assert(head + all =~= start + titled(title@, all));
}

fn push_entry_points(out: &mut Vec<String>, names: &Vec<String>)
    ensures
        strings_view(final(out)@) == strings_view(old(out)@) + titled(
            "Entry points:"@,
            strings_view(names@).map_values(|e: Seq<char>| indented(e)),
        ),
{
    let ghost start = strings_view(out@);
    let ghost all = strings_view(names@).map_values(|e: Seq<char>| indented(e));
    let n = names.len();
    if n == 0 {
        assert(start + titled("Entry points:"@, all) =~= start);
        return;
    }
    let mut t = String::new();
    push_all(&mut t, "Entry points:");
    proof {
        lemma_push_view(out@, t);
    }
    out.push(t);
    let ghost head = start.push("Entry points:"@);
    let mut i: usize = 0;
    assert(head + all.take(0) =~= head);
    while i < n
        invariant
            i <= n == names@.len(),
            all == strings_view(names@).map_values(|e: Seq<char>| indented(e)),
            strings_view(out@) == head + all.take(i as int),
        decreases n - i,
    {
        let mut s = String::new();
        push_all(&mut s, "  ");
        push_all(&mut s, names[i].as_str());
        proof {
            assert(s@ =~= indented(names@[i as int]@));
            lemma_push_view(out@, s);
            assert(head + all.take(i + 1) =~= (head + all.take(i as int)).push(s@));
        }
        out.push(s);
        i = i + 1;
    }
    assert(all.take(n as int) =~= all);
    assert(head + all =~= start + titled("Entry points:"@, all));
}

fn push_vertex_entries(out: &mut Vec<String>, entries: &Vec<VertexEntry>)
    ensures
        strings_view(final(out)@) == strings_view(old(out)@) + entries@.map_values(|e: VertexEntry| vertex_line(e)),
{
    let ghost start = strings_view(out@);
    let ghost all = entries@.map_values(|e: VertexEntry| vertex_line(e));
    let n = entries.len();
    let mut i: usize = 0;
    assert(start + all.take(0) =~= start);
    while i < n
        invariant
            i <= n == entries@.len(),
            all == entries@.map_values(|e: VertexEntry| vertex_line(e)),
            strings_view(out@) == start + all.take(i as int),
        decreases n - i,
    {
        let s = vertex_line_exec(&entries[i]);
        proof {
            lemma_push_view(out@, s);
            assert(start + all.take(i + 1) =~= (start + all.take(i as int)).push(s@));
        }
        out.push(s);
        i = i + 1;
    }
    assert(all.take(n as int) =~= all);
}

fn push_text(out: &mut Vec<String>, s: String)
    ensures
        strings_view(final(out)@) == strings_view(old(out)@).push(s@),
{
    proof {
        lemma_push_view(out@, s);
    }
    out.push(s);
}

fn push_head(out: &mut Vec<String>, result: &CompilationResult, inspection: bool)
    ensures
        strings_view(final(out)@) == strings_view(old(out)@) + head_lines(*result, inspection),
{
    let ghost start = strings_view(out@);
    let mut s = String::new();
    push_all(&mut s, "Entry: ");
    match &result.name {
        Some(n) => push_all(&mut s, n.as_str()),
        None => push_all(&mut s, "<unnamed shader>"),
    }
    push_text(out, s);
    if inspection {
        match &result.file {
            Some(f) => {
                let mut s = String::new();
                push_all(&mut s, "Source: ");
                push_all(&mut s, f.as_str());
                push_text(out, s);
            },
            None => {},
        }
    }
    let mut s = String::new();
    push_all(&mut s, "Language: ");
    push_all(&mut s, lang_label(result.lang));
    push_text(out, s);
    let mut s = String::new();
    push_all(&mut s, "Stage: ");
    push_all(&mut s, stage_label(result.stage));
    push_text(out, s);
    let mut s = String::new();
    push_all(&mut s, "Variables:");
    push_text(out, s);
    assert(strings_view(out@) =~= start + head_lines(*result, inspection));
}

fn push_layout(out: &mut Vec<String>, vertex: &Option<VertexLayout>)
    ensures
        strings_view(final(out)@) == strings_view(old(out)@) + layout_lines(*vertex),
{
    let ghost start = strings_view(out@);
    match vertex {
        Some(l) => {
            let mut s = String::new();
            push_all(&mut s, "Vertex layout (stride ");
            let a = usize_to_string(l.stride);
            push_all(&mut s, a.as_str());
            push_all(&mut s, " bytes):");
            push_text(out, s);
            push_vertex_entries(out, &l.entries);
            assert(strings_view(out@) =~= start + layout_lines(*vertex));
        },
        None => {
            assert(strings_view(out@) =~= start + layout_lines(*vertex));
        },
    }
}

fn push_group(out: &mut Vec<String>, size: Option<[u32; 3]>)
    ensures
        strings_view(final(out)@) == strings_view(old(out)@) + group_lines(size),
{
    let ghost start = strings_view(out@);
    match size {
        Some(w) => {
            let mut s = String::new();
            push_all(&mut s, "Workgroup size: ");
            let a = u32_to_string(w[0]);
            push_all(&mut s, a.as_str());
            push_all(&mut s, " x ");
            let b = u32_to_string(w[1]);
            push_all(&mut s, b.as_str());
            push_all(&mut s, " x ");
            let c = u32_to_string(w[2]);
            push_all(&mut s, c.as_str());
            push_text(out, s);
            assert(strings_view(out@) =~= start + group_lines(size));
        },
        None => {
            assert(strings_view(out@) =~= start + group_lines(size));
        },
    }
}

fn push_tail(out: &mut Vec<String>, words: usize, inspection: bool)
    ensures
        strings_view(final(out)@) == strings_view(old(out)@) + tail_lines(words as nat, inspection),
{
    let ghost start = strings_view(out@);
    if inspection {
        let mut s = String::new();
        push_all(&mut s, "SPIR-V words: ");
        let a = usize_to_string(words);
        push_all(&mut s, a.as_str());
        push_text(out, s);
    }
    let mut s = String::new();
    push_all(&mut s, "Output size: ");
    let bytes = u128_to_string((words as u128) * 4);
    push_all(&mut s, bytes.as_str());
    push_all(&mut s, " bytes");
    push_text(out, s);
    assert(strings_view(out@) =~= start + tail_lines(words as nat, inspection));
}

/// The report on `result` (see `report`), as lines of text.
pub fn report_lines(result: &CompilationResult, inspection: bool) -> (r: Vec<String>)
    ensures
        strings_view(r@) == report(*result, inspection),
{
    let mut out: Vec<String> = Vec::new();
    push_head(&mut out, result, inspection);
    push_variables(&mut out, &result.variables);
    push_entry_points(&mut out, &result.metadata.entry_points);
    push_interfaces(&mut out, "Inputs:", &result.metadata.inputs);
    push_interfaces(&mut out, "Outputs:", &result.metadata.outputs);
    push_layout(&mut out, &result.metadata.vertex);
    push_group(&mut out, result.metadata.workgroup_size);
    push_tail(&mut out, result.spirv.len(), inspection);
    assert(strings_view(out@) =~= report(*result, inspection));
    out
}

/// What the compiler prints about a result when asked to be verbose.
pub fn metadata_lines(result: &CompilationResult) -> (r: Vec<String>)
    ensures
        strings_view(r@) == report(*result, false),
{
    report_lines(result, false)
}

/// What the inspector prints about a Bento file.
pub fn summary_lines(result: &CompilationResult) -> (r: Vec<String>)
    ensures
        strings_view(r@) == report(*result, true),
{
    report_lines(result, true)
}

} // verus!
