use meshi::bento::types::{OptimizationLevel, ShaderLang, ShaderType};
use meshi::miso::programs::{
    fragment_source_path, include_flag_str, program_label_str, program_name_str, program_request, vertex_source_path,
    StdProgram,
};

#[test]
fn programs_name_their_sources() {
    assert_eq!(program_name_str(StdProgram::StdDeferred), "stddeferred");
    assert_eq!(program_name_str(StdProgram::GpuDeferred), "gpu-deferred");
    assert_eq!(program_name_str(StdProgram::GpuForward), "gpu-forward");
    assert_eq!(vertex_source_path(StdProgram::StdDeferred), "src/slang/src/stdvert.slang");
    assert_eq!(fragment_source_path(StdProgram::StdDeferred), "src/slang/src/stdfrag.slang");
    assert_eq!(vertex_source_path(StdProgram::StdOcean), "src/slang/src/stdocean_vert.slang");
    assert_eq!(fragment_source_path(StdProgram::StdParticle), "src/slang/src/stdparticle_frag.slang");
    assert_eq!(program_label_str(StdProgram::StdDeferredCombine), "std deferred combine");
    assert_eq!(include_flag_str(), "-Isrc/slang/include/");
}

#[test]
fn program_requests_carry_name_language_and_definitions() {
    let defines = vec!["USE_SHADOWS".to_string(), "LIGHTS=4".to_string()];
    let request = program_request(StdProgram::StdSky, ShaderType::Fragment, &defines);
    assert_eq!(request.name, Some("stdsky".to_string()));
    assert_eq!(request.lang, ShaderLang::Slang);
    assert_eq!(request.stage, ShaderType::Fragment);
    assert_eq!(request.optimization, OptimizationLevel::Performance);
    assert!(request.debug_symbols);
    assert_eq!(request.defines.len(), 2);
    assert_eq!(request.defines.get("USE_SHADOWS"), Some(&None));
    assert_eq!(request.defines.get("LIGHTS"), Some(&Some("4".to_string())));
}
