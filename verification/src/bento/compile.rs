//! The compiler's own decisions around the SPIR-V front end: what a request
//! asks of the front end, and how the words that come back become a
//! compilation result.

use vstd::prelude::*;
use vstd::utf8::{decode_utf8, encode_utf8, encode_utf8_decode_utf8, valid_utf8};

use super::lang::{infer_shader_lang, inferred_lang};
use super::metadata::{is_module_metadata, module_too_large_message, reflect_metadata, spirv_module_of};
use super::reflect::{error_is, reflect_bindings, reflection_of, var_views, SlotMove, VarView};
use super::rewrite::{rewrite_edits, rewrite_spirv_binding_names, spirv_edited};
use super::spirv::{spirv_words_to_bytes, strip_debug_instructions, stripped, words_bytes};
use super::types::{BentoError, CompilationResult, OptimizationLevel, Request, ShaderLang, ShaderType};
use crate::text::push_all;

verus! {

/// Source languages that the SPIR-V front end reads.
#[derive(Clone, Copy, Debug, PartialEq, Eq, Structural)]
pub enum SourceLanguage {
    Glsl,
    Hlsl,
}

/// Shader kinds that the SPIR-V front end compiles.
#[derive(Clone, Copy, Debug, PartialEq, Eq, Structural)]
pub enum ShaderKind {
    Vertex,
    Fragment,
    Compute,
}

/// Optimization levels of the SPIR-V front end.
#[derive(Clone, Copy, Debug, PartialEq, Eq, Structural)]
pub enum FrontendOptimization {
    Zero,
    Size,
    Performance,
}

pub open spec fn unsupported_message() -> Seq<char> {
    "Unsupported shader language"@
}

pub open spec fn all_stages_message() -> Seq<char> {
    "ShaderType::All is not supported for compilation"@
}

pub open spec fn invalid_utf8_message() -> Seq<char> {
    "Shader source is not valid UTF-8"@
}

/// The front end's language for `lang`: GLSL for GLSL (and a language
/// still to be inferred), HLSL for HLSL and Slang; other languages are
/// refused.
pub open spec fn language_of(lang: ShaderLang) -> Result<SourceLanguage, Seq<char>> {
    match lang {
        ShaderLang::Glsl | ShaderLang::Infer => Ok(SourceLanguage::Glsl),
        ShaderLang::Hlsl | ShaderLang::Slang => Ok(SourceLanguage::Hlsl),
        ShaderLang::Other => Err(unsupported_message()),
    }
}

/// The front end's shader kind for `stage`; every stage at once is refused.
pub open spec fn kind_of(stage: ShaderType) -> Result<ShaderKind, Seq<char>> {
    match stage {
        ShaderType::Vertex => Ok(ShaderKind::Vertex),
        ShaderType::Fragment => Ok(ShaderKind::Fragment),
        ShaderType::Compute => Ok(ShaderKind::Compute),
        ShaderType::All => Err(all_stages_message()),
    }
}

pub open spec fn frontend_level(level: OptimizationLevel) -> FrontendOptimization {
    match level {
        OptimizationLevel::Disabled => FrontendOptimization::Zero,
        OptimizationLevel::FileSize => FrontendOptimization::Size,
        OptimizationLevel::Performance => FrontendOptimization::Performance,
    }
}

/// What the front end is asked for: GLSL sources (and those whose language
/// is still open) as GLSL, HLSL and Slang sources as HLSL, no other
/// language; each single stage as itself, not every stage at once; and the
/// optimization levels none, size and performance as such.
pub proof fn law_frontend_choices(lang: ShaderLang, stage: ShaderType, level: OptimizationLevel)
    ensures
        (lang == ShaderLang::Glsl || lang == ShaderLang::Infer) ==> language_of(lang) == Ok::<SourceLanguage, Seq<char>>(
            SourceLanguage::Glsl,
        ),
        (lang == ShaderLang::Hlsl || lang == ShaderLang::Slang) ==> language_of(lang) == Ok::<SourceLanguage, Seq<char>>(
            SourceLanguage::Hlsl,
        ),
        lang == ShaderLang::Other ==> language_of(lang) is Err,
        stage == ShaderType::Vertex ==> kind_of(stage) == Ok::<ShaderKind, Seq<char>>(ShaderKind::Vertex),
        stage == ShaderType::Fragment ==> kind_of(stage) == Ok::<ShaderKind, Seq<char>>(ShaderKind::Fragment),
        stage == ShaderType::Compute ==> kind_of(stage) == Ok::<ShaderKind, Seq<char>>(ShaderKind::Compute),
        stage == ShaderType::All ==> kind_of(stage) is Err,
        level == OptimizationLevel::Disabled ==> frontend_level(level) == FrontendOptimization::Zero,
        level == OptimizationLevel::FileSize ==> frontend_level(level) == FrontendOptimization::Size,
        level == OptimizationLevel::Performance ==> frontend_level(level) == FrontendOptimization::Performance,
{
}

/// The front end's language for `lang` (see `language_of`); a refusal is
/// invalid input.
pub fn source_language(lang: ShaderLang) -> (r: Result<SourceLanguage, BentoError>)
    ensures
        match language_of(lang) {
            Ok(l) => r == Ok::<SourceLanguage, BentoError>(l),
            Err(e) => r matches Err(BentoError::InvalidInput(x)) && x@ == e,
        },
{
    match lang {
        ShaderLang::Glsl | ShaderLang::Infer => Ok(SourceLanguage::Glsl),
        ShaderLang::Hlsl | ShaderLang::Slang => Ok(SourceLanguage::Hlsl),
        ShaderLang::Other => {
            let mut msg = String::new();
            push_all(&mut msg, "Unsupported shader language");
            assert(msg@ =~= unsupported_message());
            Err(BentoError::InvalidInput(msg))
        },
    }
}

/// The front end's shader kind for `stage` (see `kind_of`); a refusal is
/// invalid input.
pub fn shader_stage(stage: ShaderType) -> (r: Result<ShaderKind, BentoError>)
    ensures
        match kind_of(stage) {
            Ok(k) => r == Ok::<ShaderKind, BentoError>(k),
            Err(e) => r matches Err(BentoError::InvalidInput(x)) && x@ == e,
        },
{
    match stage {
        ShaderType::Vertex => Ok(ShaderKind::Vertex),
        ShaderType::Fragment => Ok(ShaderKind::Fragment),
        ShaderType::Compute => Ok(ShaderKind::Compute),
        ShaderType::All => {
            let mut msg = String::new();
            push_all(&mut msg, "ShaderType::All is not supported for compilation");
            assert(msg@ =~= all_stages_message());
            Err(BentoError::InvalidInput(msg))
        },
    }
}

/// The front end's optimization level for `level`.
pub fn shaderc_optimization(level: OptimizationLevel) -> (r: FrontendOptimization)
    ensures
        r == frontend_level(level),
{
    match level {
        OptimizationLevel::Disabled => FrontendOptimization::Zero,
        OptimizationLevel::FileSize => FrontendOptimization::Size,
        OptimizationLevel::Performance => FrontendOptimization::Performance,
    }
}

/// `std::str::from_utf8`: the text exactly when `bytes` are valid UTF-8,
/// and then the text whose encoding `bytes` are.
#[verifier::external_body]
fn utf8_text<'a>(bytes: &'a [u8]) -> (r: Option<&'a str>)
    ensures
        match r {
            Some(s) => valid_utf8(bytes@) && encode_utf8(s@) == bytes@,
            None => !valid_utf8(bytes@),
        },
{
    std::str::from_utf8(bytes).ok()
}

/// What the front end is asked to do for one request.
pub struct CompileSetup {
    /// The shader's source text.
    pub source: String,
    /// The shader's language, inferred when the request leaves it open.
    pub lang: ShaderLang,
    pub language: SourceLanguage,
    pub kind: ShaderKind,
    pub optimization: FrontendOptimization,
    /// The name the front end reports the source under.
    pub input_name: String,
}

pub open spec fn resolved_lang(request_lang: ShaderLang, source: Seq<char>, path: Option<Seq<char>>) -> ShaderLang {
    if request_lang == ShaderLang::Infer {
        inferred_lang(source, path)
    } else {
        request_lang
    }
}

/// What the front end is asked for `shader` (its bytes) under `request`,
/// read from `path` when it came from a file: the source must be UTF-8,
/// the language (inferred from the source and path when the request leaves
/// it open) one the front end reads, and the stage a single one; each
/// refusal is invalid input, in that order.
pub fn prepare_compilation(shader: &[u8], request: &Request, path: Option<&str>) -> (r: Result<CompileSetup, BentoError>)
    ensures
        !valid_utf8(shader@) ==> (r matches Err(BentoError::InvalidInput(x)) && x@ == invalid_utf8_message()),
        valid_utf8(shader@) ==> {
            let text = decode_utf8(shader@);
            let lang = resolved_lang(request.lang, text, match path {
                Some(p) => Some(p@),
                None => None,
            });
            match (language_of(lang), kind_of(request.stage)) {
                (Err(e), _) => r matches Err(BentoError::InvalidInput(x)) && x@ == e,
                (Ok(_), Err(e)) => r matches Err(BentoError::InvalidInput(x)) && x@ == e,
                (Ok(l), Ok(k)) => r matches Ok(s) && s.source@ == text && s.lang == lang && s.language == l
                    && s.kind == k && s.optimization == frontend_level(request.optimization) && s.input_name@
                    == (match request.name {
                    Some(n) => n@,
                    None => "shader"@,
                }),
            }
        },
{
    let text = match utf8_text(shader) {
        Some(t) => t,
        None => {
            let mut msg = String::new();
            push_all(&mut msg, "Shader source is not valid UTF-8");
            assert(msg@ =~= invalid_utf8_message());
            return Err(BentoError::InvalidInput(msg));
        },
    };
    proof {
        encode_utf8_decode_utf8(text@);
    }
    let lang = match request.lang {
        ShaderLang::Infer => infer_shader_lang(text, path),
        other => other,
    };
    let language = source_language(lang)?;
    let kind = shader_stage(request.stage)?;
    let mut source = String::new();
    push_all(&mut source, text);
    assert(source@ =~= text@);
    let mut input_name = String::new();
    match &request.name {
        Some(n) => {
            push_all(&mut input_name, n.as_str());
            assert(input_name@ =~= n@);
        },
        None => {
            push_all(&mut input_name, "shader");
            assert(input_name@ =~= "shader"@);
        },
    }
    Ok(
        CompileSetup {
            source,
            lang,
            language,
            kind,
            optimization: shaderc_optimization(request.optimization),
            input_name,
        },
    )
}

/// The words that rewriting the names of `vars` (with the slot moves `ms`)
/// into the module `words` gives, when the module parses and assembles.
pub open spec fn rewritten(words: Seq<u32>, vars: Seq<VarView>, ms: Seq<SlotMove>) -> Option<Seq<u32>> {
    match spirv_module_of(words_bytes(words)) {
        Err(_) => None,
        Ok((m, _)) => match spirv_edited(words_bytes(words), rewrite_edits(m, vars, ms)) {
            Ok(w) => Some(w),
            Err(_) => None,
        },
    }
}

/// The compilation result that the front end's `spirv` gives for
/// `request`, compiled from `source` as `lang`: reflection reads the
/// module without its debug instructions when the request keeps them; the
/// names that reflection settled on are written back into the module that
/// is kept (the full one with debug symbols), which, when that fails, is
/// kept as it came; the metadata are read from the rewritten module, or
/// else from the one reflection read.
pub fn finish_compilation(spirv: &Vec<u32>, request: &Request, lang: ShaderLang, source: &str) -> (r: Result<CompilationResult, BentoError>)
    ensures
        ({
            let refl = if request.debug_symbols {
                stripped(spirv@)
            } else {
                spirv@
            };
            match reflection_of(words_bytes(refl), source@, lang) {
                Err(e) => r matches Err(x) && error_is(x, e),
                Ok((vs, ms)) => {
                    let kept = if request.debug_symbols {
                        spirv@
                    } else {
                        refl
                    };
                    let (meta, fin) = match rewritten(kept, vs, ms) {
                        Some(w) => (w, w),
                        None => (refl, kept),
                    };
                    match spirv_module_of(words_bytes(meta)) {
                        Err(e) => r matches Err(BentoError::ShaderCompilation(x)) && x@ == e,
                        Ok((m, gs)) => if 16 * m.2.len() <= usize::MAX {
                            r matches Ok(c) && c.name == request.name && c.file is None && c.lang == lang && c.stage
                                == request.stage && var_views(c.variables@) == vs && is_module_metadata(c.metadata, m, gs)
                                && c.spirv@ == fin
                        } else {
                            r matches Err(BentoError::ShaderCompilation(x)) && x@ == module_too_large_message()
                        },
                    }
                },
            }
        }),
{
    let reflection_spirv = if request.debug_symbols {
        strip_debug_instructions(spirv.as_slice())
    } else {
        spirv.clone()
    };
    let refl_bytes = spirv_words_to_bytes(reflection_spirv.as_slice());
    let reflected = reflect_bindings(refl_bytes.as_slice(), source, lang)?;
    let variables = reflected.variables;
    let kept = if request.debug_symbols {
        spirv.clone()
    } else {
        reflection_spirv.clone()
    };
    let (metadata_spirv, final_spirv) = match rewrite_spirv_binding_names(kept.as_slice(), &variables, &reflected.remap) {
        Ok(rewritten) => (rewritten.clone(), rewritten),
        Err(_) => (reflection_spirv, kept),
    };
    let meta_bytes = spirv_words_to_bytes(metadata_spirv.as_slice());
    let metadata = reflect_metadata(meta_bytes.as_slice())?;
    let name = match &request.name {
        Some(n) => Some(n.clone()),
        None => None,
    };
    Ok(
        CompilationResult {
            name,
            file: None,
            lang,
            stage: request.stage,
            variables,
            metadata,
            spirv: final_spirv,
        },
    )
}

} // verus!
