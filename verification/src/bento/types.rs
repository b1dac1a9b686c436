use vstd::prelude::*;

use super::defines::DefineMap;

verus! {

/// Supported input languages for shader compilation.
#[derive(Clone, Copy, Debug, PartialEq, Eq, Structural)]
pub enum ShaderLang {
    Infer,
    Slang,
    Glsl,
    Hlsl,
    Other,
}

/// How aggressively shader bytecode is optimized.
#[derive(Clone, Copy, Debug, PartialEq, Eq, Structural)]
pub enum OptimizationLevel {
    /// No optimization.
    Disabled,
    FileSize,
    Performance,
}

/// Whether a pipeline renders graphics or runs compute work.
#[derive(Clone, Copy, Debug, PartialEq, Eq, Structural)]
pub enum PipelineKind {
    Graphics,
    Compute,
}

/// The pipeline stage a shader runs in; `All` names every stage at once.
#[derive(Clone, Copy, Debug, PartialEq, Eq, Structural)]
pub enum ShaderType {
    Vertex,
    Fragment,
    Compute,
    All,
}

/// The kind of resource a bind table variable holds.
#[derive(Clone, Copy, Debug, PartialEq, Eq, Structural)]
pub enum BindTableVariableType {
    Uniform,
    DynamicUniform,
    Storage,
    DynamicStorage,
    Image,
    Sampler,
    StorageImage,
    SampledImage,
}

/// A descriptor binding: its kind, binding number and array count
/// (0 for an unbounded array).
#[derive(Clone, Copy, Debug, PartialEq, Eq, Structural)]
pub struct BindTableVariable {
    pub var_type: BindTableVariableType,
    pub binding: u32,
    pub count: u32,
}

/// Vertex attribute formats that reflection recognizes.
#[derive(Clone, Copy, Debug, PartialEq, Eq, Structural)]
pub enum ShaderPrimitiveType {
    Vec2,
    Vec3,
    Vec4,
    IVec4,
    UVec4,
}

/// Whether vertex attributes advance per vertex or per instance.
#[derive(Clone, Copy, Debug, PartialEq, Eq, Structural)]
pub enum VertexRate {
    Vertex,
    Instance,
}

/// A bind group variable discovered during reflection.
#[derive(Clone, Debug, PartialEq, Eq)]
pub struct ShaderVariable {
    pub name: String,
    pub set: u32,
    pub kind: BindTableVariable,
}

/// A shader interface variable (stage input or output).
#[derive(Clone, Debug, PartialEq, Eq)]
pub struct InterfaceVariable {
    pub name: String,
    pub location: Option<u32>,
    pub format: Option<ShaderPrimitiveType>,
}

/// One attribute of a packed vertex layout.
#[derive(Clone, Copy, Debug, PartialEq, Eq, Structural)]
pub struct VertexEntry {
    pub format: ShaderPrimitiveType,
    pub location: usize,
    pub offset: usize,
}

/// The packed vertex layout of a vertex shader's inputs.
#[derive(Clone, Debug, PartialEq, Eq)]
pub struct VertexLayout {
    pub entries: Vec<VertexEntry>,
    pub stride: usize,
    pub rate: VertexRate,
}

/// Stage-specific metadata discovered during reflection.
#[derive(Clone, Debug, PartialEq, Eq)]
pub struct ShaderMetadata {
    pub entry_points: Vec<String>,
    pub inputs: Vec<InterfaceVariable>,
    pub outputs: Vec<InterfaceVariable>,
    pub workgroup_size: Option<[u32; 3]>,
    pub vertex: Option<VertexLayout>,
}

/// A shader compiled into the Bento format: its reflection data and SPIR-V.
#[derive(Clone, Debug, PartialEq, Eq)]
pub struct CompilationResult {
    pub name: Option<String>,
    pub file: Option<String>,
    pub lang: ShaderLang,
    pub stage: ShaderType,
    pub variables: Vec<ShaderVariable>,
    pub metadata: ShaderMetadata,
    pub spirv: Vec<u32>,
}

/// A binding that a pipeline needed but no stage or resource provided.
#[derive(Clone, Debug, PartialEq, Eq)]
pub struct MissingBinding {
    pub name: String,
    pub set: u32,
    pub binding: u32,
}

/// Why a pipeline could not be built.
#[derive(Clone, Debug, PartialEq, Eq)]
pub enum PipelineBuildError {
    MissingShader { stage: String },
    MissingBindings { bindings: Vec<MissingBinding> },
    MismatchedBindingCounts { set: u32, binding: u32, expected: u32, provided: u32 },
    InvalidResourceCount { name: String, expected: u32, provided: u32 },
    InvalidResourceSlots { name: String, expected: u32 },
    DefaultResourceCreateFailed { name: String, resource_type: String, source: String },
    BindTableLayoutCreateFailed { set: u32, source: String },
    BindTableCreateFailed { set: u32, source: String },
    PipelineLayoutCreateFailed { pipeline: String, source: String },
    PipelineCreateFailed { pipeline: String, source: String },
}

/// Errors of shader compilation, inspection and pipeline assembly.  The
/// variants that come from I/O, serialization or the GPU backend carry the
/// message of the underlying error.
#[derive(Clone, Debug, PartialEq, Eq)]
pub enum BentoError {
    Io(String),
    SerdeJson(String),
    Bincode(String),
    ShaderCompilation(String),
    InvalidInput(String),
    PipelineBuild(PipelineBuildError),
    Dashi(String),
}

/// Parameters describing how a shader should be compiled.
pub struct Request {
    pub name: Option<String>,
    pub lang: ShaderLang,
    pub stage: ShaderType,
    pub optimization: OptimizationLevel,
    pub debug_symbols: bool,
    pub defines: DefineMap,
}

impl Default for Request {
    /// GLSL for every stage, optimized for performance, no name, no debug
    /// symbols, no definitions.
    fn default() -> (r: Self)
        ensures
            r.name is None,
            r.lang == ShaderLang::Glsl,
            r.stage == ShaderType::All,
            r.optimization == OptimizationLevel::Performance,
            !r.debug_symbols,
            r.defines.wf(),
            r.defines@ == Map::<Seq<char>, Option<Seq<char>>>::empty(),
    {
        Request {
            name: None,
            lang: ShaderLang::Glsl,
            stage: ShaderType::All,
            optimization: OptimizationLevel::Performance,
            debug_symbols: false,
            defines: DefineMap::new(),
        }
    }
}

impl CompilationResult {
    /// The bind table variables of the result's shader variables, in order.
    pub fn bind_group_variables(&self) -> (r: Vec<BindTableVariable>)
        ensures
            r@ == self.variables@.map_values(|v: ShaderVariable| v.kind),
    {
        let mut out: Vec<BindTableVariable> = Vec::new();
        let n = self.variables.len();
        let mut i: usize = 0;
        while i < n
            invariant
                i <= n == self.variables@.len(),
                out@ == self.variables@.take(i as int).map_values(|v: ShaderVariable| v.kind),
            decreases n - i,
        {
            out.push(self.variables[i].kind);
            assert(out@ =~= self.variables@.take(i + 1).map_values(|v: ShaderVariable| v.kind));
            i = i + 1;
        }
        assert(self.variables@.take(n as int) =~= self.variables@);
        out
    }
}

} // verus!
