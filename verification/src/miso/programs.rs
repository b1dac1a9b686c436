//! The bundled shader programs: where each one's vertex and fragment
//! sources live, and what the compiler is asked for them.

use vstd::prelude::*;

use super::{build_define_map, defines_map, strings_view};
use crate::bento::types::{OptimizationLevel, Request, ShaderLang, ShaderType};
use crate::text::{chars_of, string_of};

verus! {

/// A bundled vertex and fragment shader pair.
#[derive(Clone, Copy, Debug, PartialEq, Eq, Structural)]
pub enum StdProgram {
    StdDeferred,
    GpuDeferred,
    GpuForward,
    StdForward,
    StdDeferredCombine,
    StdSky,
    StdOcean,
    StdBillboard,
    StdParticle,
}

/// The name a program's compilation results carry.
pub open spec fn program_name(p: StdProgram) -> Seq<char> {
    match p {
        StdProgram::StdDeferred => "stddeferred"@,
        StdProgram::GpuDeferred => "gpu-deferred"@,
        StdProgram::GpuForward => "gpu-forward"@,
        StdProgram::StdForward => "stdforward"@,
        StdProgram::StdDeferredCombine => "stddeferred_combine"@,
        StdProgram::StdSky => "stdsky"@,
        StdProgram::StdOcean => "stdocean"@,
        StdProgram::StdBillboard => "stdbillboard"@,
        StdProgram::StdParticle => "stdparticle"@,
    }
}

/// The source file of a program's vertex shader.
pub open spec fn vertex_source(p: StdProgram) -> Seq<char> {
    match p {
        StdProgram::StdDeferred => "src/slang/src/stdvert.slang"@,
        StdProgram::GpuDeferred => "src/slang/src/gpudeferred_vert.slang"@,
        StdProgram::GpuForward => "src/slang/src/gpuforward_vert.slang"@,
        StdProgram::StdForward => "src/slang/src/stdforward_vert.slang"@,
        StdProgram::StdDeferredCombine => "src/slang/src/stddeferred_combine_vert.slang"@,
        StdProgram::StdSky => "src/slang/src/stdsky_vert.slang"@,
        StdProgram::StdOcean => "src/slang/src/stdocean_vert.slang"@,
        StdProgram::StdBillboard => "src/slang/src/stdbillboard_vert.slang"@,
        StdProgram::StdParticle => "src/slang/src/stdparticle_vert.slang"@,
    }
}

/// The source file of a program's fragment shader.
pub open spec fn fragment_source(p: StdProgram) -> Seq<char> {
    match p {
        StdProgram::StdDeferred => "src/slang/src/stdfrag.slang"@,
        StdProgram::GpuDeferred => "src/slang/src/gpudeferred_frag.slang"@,
        StdProgram::GpuForward => "src/slang/src/gpuforward_frag.slang"@,
        StdProgram::StdForward => "src/slang/src/stdforward_frag.slang"@,
        StdProgram::StdDeferredCombine => "src/slang/src/stddeferred_combine_frag.slang"@,
        StdProgram::StdSky => "src/slang/src/stdsky_frag.slang"@,
        StdProgram::StdOcean => "src/slang/src/stdocean_frag.slang"@,
        StdProgram::StdBillboard => "src/slang/src/stdbillboard_frag.slang"@,
        StdProgram::StdParticle => "src/slang/src/stdparticle_frag.slang"@,
    }
}

/// How a program is called when one of its shaders fails to compile.
pub open spec fn program_label(p: StdProgram) -> Seq<char> {
    match p {
        StdProgram::StdDeferred => "std"@,
        StdProgram::GpuDeferred => "gpu deferred"@,
        StdProgram::GpuForward => "gpu forward"@,
        StdProgram::StdForward => "std forward"@,
        StdProgram::StdDeferredCombine => "std deferred combine"@,
        StdProgram::StdSky => "std sky"@,
        StdProgram::StdOcean => "std ocean"@,
        StdProgram::StdBillboard => "std billboard"@,
        StdProgram::StdParticle => "std particle"@,
    }
}

/// The include flag every program's imports are resolved with.
pub open spec fn include_flag() -> Seq<char> {
    "-Isrc/slang/include/"@
}

pub fn program_name_str(p: StdProgram) -> (r: &'static str)
    ensures
        r@ == program_name(p),
{
    match p {
        StdProgram::StdDeferred => "stddeferred",
        StdProgram::GpuDeferred => "gpu-deferred",
        StdProgram::GpuForward => "gpu-forward",
        StdProgram::StdForward => "stdforward",
        StdProgram::StdDeferredCombine => "stddeferred_combine",
        StdProgram::StdSky => "stdsky",
        StdProgram::StdOcean => "stdocean",
        StdProgram::StdBillboard => "stdbillboard",
        StdProgram::StdParticle => "stdparticle",
    }
}

pub fn vertex_source_path(p: StdProgram) -> (r: &'static str)
    ensures
        r@ == vertex_source(p),
{
    match p {
        StdProgram::StdDeferred => "src/slang/src/stdvert.slang",
        StdProgram::GpuDeferred => "src/slang/src/gpudeferred_vert.slang",
        StdProgram::GpuForward => "src/slang/src/gpuforward_vert.slang",
        StdProgram::StdForward => "src/slang/src/stdforward_vert.slang",
        StdProgram::StdDeferredCombine => "src/slang/src/stddeferred_combine_vert.slang",
        StdProgram::StdSky => "src/slang/src/stdsky_vert.slang",
        StdProgram::StdOcean => "src/slang/src/stdocean_vert.slang",
        StdProgram::StdBillboard => "src/slang/src/stdbillboard_vert.slang",
        StdProgram::StdParticle => "src/slang/src/stdparticle_vert.slang",
    }
}

pub fn fragment_source_path(p: StdProgram) -> (r: &'static str)
    ensures
        r@ == fragment_source(p),
{
    match p {
        StdProgram::StdDeferred => "src/slang/src/stdfrag.slang",
        StdProgram::GpuDeferred => "src/slang/src/gpudeferred_frag.slang",
        StdProgram::GpuForward => "src/slang/src/gpuforward_frag.slang",
        StdProgram::StdForward => "src/slang/src/stdforward_frag.slang",
        StdProgram::StdDeferredCombine => "src/slang/src/stddeferred_combine_frag.slang",
        StdProgram::StdSky => "src/slang/src/stdsky_frag.slang",
        StdProgram::StdOcean => "src/slang/src/stdocean_frag.slang",
        StdProgram::StdBillboard => "src/slang/src/stdbillboard_frag.slang",
        StdProgram::StdParticle => "src/slang/src/stdparticle_frag.slang",
    }
}

pub fn program_label_str(p: StdProgram) -> (r: &'static str)
    ensures
        r@ == program_label(p),
{
    match p {
        StdProgram::StdDeferred => "std",
        StdProgram::GpuDeferred => "gpu deferred",
        StdProgram::GpuForward => "gpu forward",
        StdProgram::StdForward => "std forward",
        StdProgram::StdDeferredCombine => "std deferred combine",
        StdProgram::StdSky => "std sky",
        StdProgram::StdOcean => "std ocean",
        StdProgram::StdBillboard => "std billboard",
        StdProgram::StdParticle => "std particle",
    }
}

pub fn include_flag_str() -> (r: &'static str)
    ensures
        r@ == include_flag(),
{
    "-Isrc/slang/include/"
}

/// What the compiler is asked for stage `stage` of program `p` with the
/// definitions `defines`: the program's name, Slang, optimized for
/// performance, with debug symbols, and the definitions as
/// `build_define_map` reads them.
pub fn program_request(p: StdProgram, stage: ShaderType, defines: &Vec<String>) -> (r: Request)
    ensures
        r.name matches Some(n) && n@ == program_name(p),
        r.lang == ShaderLang::Slang,
        r.stage == stage,
        r.optimization == OptimizationLevel::Performance,
        r.debug_symbols,
        r.defines.wf(),
        r.defines@ == defines_map(strings_view(defines@)),
{
    let name = string_of(chars_of(program_name_str(p)).as_slice());
    Request {
        name: Some(name),
        lang: ShaderLang::Slang,
        stage,
        optimization: OptimizationLevel::Performance,
        debug_symbols: true,
        defines: build_define_map(defines),
    }
}

} // verus!
