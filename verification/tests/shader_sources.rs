use std::collections::HashMap;

use meshi::bento::glsl::{extract_binding_name, glsl_declaration_from, parse_glsl_bindings};
use meshi::bento::hlsl::{hlsl_bindings_from_matches, parse_hlsl_like_bindings};
use meshi::bento::lang::infer_shader_lang;
use meshi::bento::reflect::{parse_source_bindings, take_source_binding};
use meshi::bento::types::{BentoError, ShaderLang};

fn chars(s: &str) -> Vec<char> {
    s.chars().collect()
}

#[test]
fn glsl_prefers_instance_name_over_block_type() -> Result<(), BentoError> {
    let source = r#"
layout(set = 0, binding = 5) uniform SceneCamera {
    uint slot;
} camera;

layout(set = 0, binding = 6) uniform SceneCamera {
    uint slot;
};
"#;

    let bindings = parse_glsl_bindings(source)?;
    let mut names_by_binding = HashMap::new();
    for binding in bindings {
        names_by_binding.insert(binding.binding.unwrap_or_default(), binding.name);
    }

    assert_eq!(names_by_binding.get(&5), Some(&"camera".to_string()));
    assert_eq!(names_by_binding.get(&6), Some(&"SceneCamera".to_string()));

    Ok(())
}

#[test]
fn hlsl_uses_block_name_when_no_instance_is_present() -> Result<(), BentoError> {
    let source = r#"
cbuffer SceneCamera : register(b5)
{
    uint slot;
};

ConstantBuffer<SceneCamera> camera : register(b6);
"#;

    let bindings = parse_hlsl_like_bindings(source)?;
    let mut names_by_binding = HashMap::new();
    for binding in bindings {
        names_by_binding.insert(binding.binding.unwrap_or_default(), binding.name);
    }

    assert_eq!(names_by_binding.get(&6), Some(&"camera".to_string()));
    assert_eq!(names_by_binding.get(&5), Some(&"SceneCamera".to_string()));

    Ok(())
}

#[test]
fn glsl_bindings_keep_source_order_and_sets() {
    let source = "layout(set=1,binding=2) uniform texture2D albedo;\nlayout ( set = 0 , binding = 7 ) buffer Lights { uint n; } lights;\n";
    let bindings = parse_glsl_bindings(source).expect("parses");
    assert_eq!(bindings.len(), 2);
    assert_eq!((bindings[0].set, bindings[0].binding, bindings[0].name.as_str(), bindings[0].order), (1, Some(2), "albedo", 0));
    assert_eq!((bindings[1].set, bindings[1].binding, bindings[1].name.as_str(), bindings[1].order), (0, Some(7), "lights", 1));
}

#[test]
fn glsl_binding_without_declaration_end_is_an_error() {
    let err = parse_glsl_bindings("layout(set = 0, binding = 1) uniform Foo { uint x; } foo").unwrap_err();
    assert_eq!(err, BentoError::ShaderCompilation("Missing GLSL binding declaration".to_string()));
}

#[test]
fn glsl_binding_with_huge_index_is_an_error() {
    let err = parse_glsl_bindings("layout(set = 99999999999, binding = 1) uniform sampler2D s;").unwrap_err();
    assert_eq!(err, BentoError::ShaderCompilation("Missing GLSL descriptor set index".to_string()));
    let err = parse_glsl_bindings("layout(set = 0, binding = 99999999999) uniform sampler2D s;").unwrap_err();
    assert_eq!(err, BentoError::ShaderCompilation("Missing GLSL descriptor binding index".to_string()));
}

#[test]
fn glsl_binding_without_name_is_an_error() {
    let err = parse_glsl_bindings("layout(set = 3, binding = 4) ;").unwrap_err();
    assert_eq!(
        err,
        BentoError::ShaderCompilation("Unable to determine GLSL binding name for set 3 binding 4".to_string())
    );
}

#[test]
fn declaration_runs_to_the_first_semicolon_outside_braces() {
    let source = chars("layout(set=0,binding=0)   uniform B { uint a; uint b; } inst ; tail;");
    let start = "layout(set=0,binding=0)".chars().count();
    assert_eq!(glsl_declaration_from(&source, start), Some("uniform B { uint a; uint b; } inst".to_string()));
    assert_eq!(glsl_declaration_from(&chars("no end here"), 0), None);
}

#[test]
fn binding_names_follow_blocks_and_annotations() {
    assert_eq!(extract_binding_name(&chars("uniform Block { uint x; } instance")), Some("instance".to_string()));
    assert_eq!(extract_binding_name(&chars("uniform Block { uint x; }")), Some("Block".to_string()));
    assert_eq!(extract_binding_name(&chars("Texture2D albedo : register(t0)")), Some("albedo".to_string()));
    assert_eq!(extract_binding_name(&chars("   ")), None);
}

#[test]
fn vk_binding_attributes_come_first_with_their_sets() {
    let source = "Texture2D late : register(t3, space1);\n[[vk::binding(4, 2)]] Texture2D early;\n";
    let bindings = parse_hlsl_like_bindings(source).expect("parses");
    assert_eq!(bindings.len(), 2);
    assert_eq!((bindings[0].set, bindings[0].binding, bindings[0].name.as_str()), (2, Some(4), "early"));
    assert_eq!((bindings[1].set, bindings[1].binding, bindings[1].name.as_str()), (1, Some(3), "late"));
}

#[test]
fn other_language_cannot_be_scanned() {
    let err = parse_source_bindings("void main() {}", ShaderLang::Other).unwrap_err();
    assert_eq!(err, BentoError::InvalidInput("Unsupported shader language for reflection".to_string()));
}

#[test]
fn source_binding_prefers_exact_slot_then_open_slot() {
    let mut sources = parse_source_bindings(
        "layout(set = 0, binding = 1) uniform sampler2D a;\nlayout(set = 0, binding = 2) uniform sampler2D b;\n",
        ShaderLang::Glsl,
    )
    .expect("parses");
    let taken = take_source_binding(0, 2, &mut sources).expect("exact slot");
    assert_eq!(taken.name, "b");
    assert_eq!(sources.len(), 1);
    assert!(take_source_binding(0, 9, &mut sources).is_none());
    assert!(take_source_binding(1, 1, &mut sources).is_none());
    assert_eq!(sources.len(), 1);
}

#[test]
fn languages_follow_extension_then_content() {
    assert_eq!(infer_shader_lang("", Some("shader.SLANG")), ShaderLang::Slang);
    assert_eq!(infer_shader_lang("#version 450", Some("a/b/c.hlsl")), ShaderLang::Hlsl);
    assert_eq!(infer_shader_lang("\n  import bindless;\n", None), ShaderLang::Slang);
    assert_eq!(infer_shader_lang("float4 main() : SV_Target { return 0; }", Some("x.txt")), ShaderLang::Hlsl);
    assert_eq!(infer_shader_lang("void main() {}", None), ShaderLang::Glsl);
}

const SIMPLE_COMPUTE_GLSL: &str = "#version 450\nlayout(local_size_x = 1) in;\nlayout(set = 0, binding = 0) buffer Data { uint values[]; } data;\nvoid main() { data.values[0] = 1; }\n";
const SIMPLE_COMPUTE_HLSL: &str = "RWStructuredBuffer<uint> data : register(u0);\n[numthreads(1, 1, 1)]\nvoid main(uint3 id : SV_DispatchThreadID) { data[0] = 1; }\n";
const SIMPLE_COMPUTE_SLANG: &str = "RWStructuredBuffer<uint> data;\n[shader(\"compute\")]\n[numthreads(1, 1, 1)]\nvoid main(uint3 id : SV_DispatchThreadID) { data[0] = 1; }\n";

#[test]
fn infers_glsl_shader_language() {
    let path = "tests/fixtures/simple_compute.glsl";
    assert_eq!(infer_shader_lang(SIMPLE_COMPUTE_GLSL, Some(path)), ShaderLang::Glsl);
}

#[test]
fn infers_hlsl_shader_language() {
    let path = "tests/fixtures/simple_compute.hlsl";
    assert_eq!(infer_shader_lang(SIMPLE_COMPUTE_HLSL, Some(path)), ShaderLang::Hlsl);
}

#[test]
fn infers_slang_shader_language() {
    let path = "tests/fixtures/simple_compute.slang";
    assert_eq!(infer_shader_lang(SIMPLE_COMPUTE_SLANG, Some(path)), ShaderLang::Slang);
}

fn groups(gs: &[Option<&str>]) -> Vec<Option<String>> {
    gs.iter().map(|g| g.map(|s| s.to_string())).collect()
}

#[test]
fn hlsl_bindings_come_from_given_matches() {
    let vk = vec![groups(&[Some("[[vk::binding(2, 1)]] Texture2D tex;"), Some("2"), Some("1"), Some("Texture2D tex")])];
    let resources = vec![groups(&[Some("Texture2D albedo : register(t3, space1)"), Some("albedo")])];
    let cbuffers = vec![groups(&[Some("cbuffer Params : register(b0)"), Some("Params")])];
    let found = hlsl_bindings_from_matches(&vk, &resources, &cbuffers).expect("named bindings");
    assert_eq!(found.len(), 3);
    assert_eq!((found[0].set, found[0].binding, found[0].name.as_str()), (1, Some(2), "tex"));
    assert_eq!((found[1].set, found[1].binding, found[1].name.as_str()), (1, Some(3), "albedo"));
    assert_eq!((found[2].set, found[2].binding, found[2].name.as_str()), (0, Some(0), "Params"));
    // a resource match with a blank name is refused
    let blank = vec![groups(&[Some("Texture2D "), Some(" ")])];
    assert!(hlsl_bindings_from_matches(&Vec::new(), &blank, &Vec::new()).is_err());
}
