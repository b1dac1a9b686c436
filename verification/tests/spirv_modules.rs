use meshi::bento::compile::{
    finish_compilation, prepare_compilation, shader_stage, shaderc_optimization, source_language, FrontendOptimization,
    ShaderKind, SourceLanguage,
};
use meshi::bento::metadata::reflect_metadata;
use meshi::bento::reflect::reflect_bindings;
use meshi::bento::rewrite::rewrite_spirv_binding_names;
use meshi::bento::spirv::spirv_words_to_bytes;
use meshi::bento::types::{
    BentoError, BindTableVariable, BindTableVariableType, OptimizationLevel, Request, ShaderLang,
    ShaderPrimitiveType, ShaderType, ShaderVariable, VertexRate,
};

fn op(opcode: u32, operands: &[u32]) -> Vec<u32> {
    let mut v = vec![((operands.len() as u32 + 1) << 16) | opcode];
    v.extend_from_slice(operands);
    v
}

fn text(s: &str) -> Vec<u32> {
    let mut bytes = s.as_bytes().to_vec();
    bytes.push(0);
    while bytes.len() % 4 != 0 {
        bytes.push(0);
    }
    bytes.chunks(4).map(|c| u32::from_le_bytes([c[0], c[1], c[2], c[3]])).collect()
}

/// A vertex shader with one `vec4` input at location 0 named `pos`, and a
/// uniform block variable (id 9) at set 0, binding 1 that has no debug name.
fn vertex_module(with_ubo: bool) -> Vec<u32> {
    let mut w = vec![0x0723_0203, 0x0001_0300, 0, 14, 0];
    w.extend(op(17, &[1])); // OpCapability Shader
    w.extend(op(14, &[0, 1])); // OpMemoryModel Logical GLSL450
    let mut entry = vec![0, 1];
    entry.extend(text("main"));
    entry.push(2);
    w.extend(op(15, &entry)); // OpEntryPoint Vertex %1 "main" %2
    let mut name = vec![2];
    name.extend(text("pos"));
    w.extend(op(5, &name)); // OpName %2 "pos"
    w.extend(op(71, &[2, 30, 0])); // OpDecorate %2 Location 0
    if with_ubo {
        w.extend(op(71, &[10, 2])); // OpDecorate %10 Block
        w.extend(op(71, &[9, 34, 0])); // OpDecorate %9 DescriptorSet 0
        w.extend(op(71, &[9, 33, 1])); // OpDecorate %9 Binding 1
    }
    w.extend(op(22, &[3, 32])); // %3 = OpTypeFloat 32
    w.extend(op(23, &[4, 3, 4])); // %4 = OpTypeVector %3 4
    w.extend(op(32, &[5, 1, 4])); // %5 = OpTypePointer Input %4
    w.extend(op(59, &[5, 2, 1])); // %2 = OpVariable %5 Input
    if with_ubo {
        w.extend(op(30, &[10, 4])); // %10 = OpTypeStruct %4
        w.extend(op(32, &[11, 2, 10])); // %11 = OpTypePointer Uniform %10
        w.extend(op(59, &[11, 9, 2])); // %9 = OpVariable %11 Uniform
    }
    w.extend(op(19, &[6])); // %6 = OpTypeVoid
    w.extend(op(33, &[7, 6])); // %7 = OpTypeFunction %6
    w.extend(op(54, &[6, 1, 0, 7])); // %1 = OpFunction %6 None %7
    w.extend(op(248, &[8])); // OpLabel %8
    w.extend(op(253, &[])); // OpReturn
    w.extend(op(56, &[])); // OpFunctionEnd
    w
}

fn contains_text(words: &[u32], s: &str) -> bool {
    let t = text(s);
    words.windows(t.len()).any(|win| win == t.as_slice())
}

#[test]
fn reads_metadata_out_of_spirv_bytes() {
    let bytes = spirv_words_to_bytes(&vertex_module(false));
    let metadata = reflect_metadata(&bytes).expect("module parses");
    assert_eq!(metadata.entry_points, vec!["main".to_string()]);
    assert_eq!(metadata.inputs.len(), 1);
    assert_eq!(metadata.inputs[0].name, "pos");
    assert_eq!(metadata.inputs[0].location, Some(0));
    assert_eq!(metadata.inputs[0].format, Some(ShaderPrimitiveType::Vec4));
    assert!(metadata.outputs.is_empty());
    assert_eq!(metadata.workgroup_size, None);
    let layout = metadata.vertex.expect("vertex layout");
    assert_eq!(layout.stride, 16);
    assert_eq!(layout.rate, VertexRate::Vertex);
    assert_eq!(layout.entries.len(), 1);
    assert_eq!(layout.entries[0].offset, 0);
}

#[test]
fn metadata_of_unparsable_bytes_is_a_compilation_error() {
    let result = reflect_metadata(&[1, 2, 3, 4, 5, 6, 7]);
    assert!(matches!(result, Err(BentoError::ShaderCompilation(_))));
}

#[test]
fn rewrite_names_unnamed_bound_variables() {
    let words = vertex_module(true);
    assert!(!contains_text(&words, "globals"));
    let variables = vec![ShaderVariable {
        name: "globals".to_string(),
        set: 0,
        kind: BindTableVariable { var_type: BindTableVariableType::Uniform, binding: 1, count: 1 },
    }];
    let rewritten = rewrite_spirv_binding_names(&words, &variables, &Vec::new()).expect("module parses");
    assert!(contains_text(&rewritten, "globals"));
    // a variable at a slot nothing is bound to changes nothing but the assembly
    let elsewhere = vec![ShaderVariable {
        name: "unbound".to_string(),
        set: 3,
        kind: BindTableVariable { var_type: BindTableVariableType::Uniform, binding: 0, count: 1 },
    }];
    let same = rewrite_spirv_binding_names(&words, &elsewhere, &Vec::new()).expect("module parses");
    assert!(!contains_text(&same, "unbound"));
    assert!(matches!(
        rewrite_spirv_binding_names(&[7, 7, 7], &variables, &Vec::new()),
        Err(BentoError::ShaderCompilation(_))
    ));
}

#[test]
fn rewrite_replaces_an_existing_debug_name() {
    let mut words = vertex_module(true);
    let mut name = vec![9];
    name.extend(text("old_name"));
    let named = op(5, &name);
    // put the new OpName right after the existing one (after the entry point)
    let at = words.iter().position(|w| *w == ((3 << 16) | 5)).unwrap();
    for (k, w) in named.into_iter().enumerate() {
        words.insert(at + k, w);
    }
    assert!(contains_text(&words, "old_name"));
    let variables = vec![ShaderVariable {
        name: "fresh".to_string(),
        set: 0,
        kind: BindTableVariable { var_type: BindTableVariableType::Uniform, binding: 1, count: 1 },
    }];
    let rewritten = rewrite_spirv_binding_names(&words, &variables, &Vec::new()).expect("module parses");
    assert!(contains_text(&rewritten, "fresh"));
    assert!(!contains_text(&rewritten, "old_name"));
}

#[test]
fn front_end_choices_follow_the_request() {
    assert_eq!(source_language(ShaderLang::Glsl), Ok(SourceLanguage::Glsl));
    assert_eq!(source_language(ShaderLang::Infer), Ok(SourceLanguage::Glsl));
    assert_eq!(source_language(ShaderLang::Hlsl), Ok(SourceLanguage::Hlsl));
    assert_eq!(source_language(ShaderLang::Slang), Ok(SourceLanguage::Hlsl));
    assert_eq!(
        source_language(ShaderLang::Other),
        Err(BentoError::InvalidInput("Unsupported shader language".to_string()))
    );
    assert_eq!(shader_stage(ShaderType::Vertex), Ok(ShaderKind::Vertex));
    assert_eq!(shader_stage(ShaderType::Fragment), Ok(ShaderKind::Fragment));
    assert_eq!(shader_stage(ShaderType::Compute), Ok(ShaderKind::Compute));
    assert_eq!(
        shader_stage(ShaderType::All),
        Err(BentoError::InvalidInput("ShaderType::All is not supported for compilation".to_string()))
    );
    assert_eq!(shaderc_optimization(OptimizationLevel::Disabled), FrontendOptimization::Zero);
    assert_eq!(shaderc_optimization(OptimizationLevel::FileSize), FrontendOptimization::Size);
    assert_eq!(shaderc_optimization(OptimizationLevel::Performance), FrontendOptimization::Performance);
}

#[test]
fn prepares_a_request_for_the_front_end() {
    let mut request = Request::default();
    request.stage = ShaderType::Compute;
    request.lang = ShaderLang::Infer;
    let setup = prepare_compilation(b"#version 450\nvoid main() {}\n", &request, Some("kernel.hlsl")).unwrap();
    assert_eq!(setup.lang, ShaderLang::Hlsl);
    assert_eq!(setup.language, SourceLanguage::Hlsl);
    assert_eq!(setup.kind, ShaderKind::Compute);
    assert_eq!(setup.optimization, FrontendOptimization::Performance);
    assert_eq!(setup.input_name, "shader");
    assert_eq!(setup.source, "#version 450\nvoid main() {}\n");

    request.name = Some("named".to_string());
    request.lang = ShaderLang::Glsl;
    let setup = prepare_compilation(b"void main() {}", &request, None).unwrap();
    assert_eq!(setup.input_name, "named");
    assert_eq!(setup.lang, ShaderLang::Glsl);

    assert_eq!(
        prepare_compilation(&[0xff, 0xfe], &request, None).err(),
        Some(BentoError::InvalidInput("Shader source is not valid UTF-8".to_string()))
    );
    request.stage = ShaderType::All;
    assert!(matches!(prepare_compilation(b"void main() {}", &request, None), Err(BentoError::InvalidInput(_))));
    request.stage = ShaderType::Vertex;
    request.lang = ShaderLang::Other;
    assert_eq!(
        prepare_compilation(b"void main() {}", &request, None).err(),
        Some(BentoError::InvalidInput("Unsupported shader language".to_string()))
    );
}

#[test]
fn finishes_a_compilation_from_front_end_words() {
    let mut request = Request::default();
    request.stage = ShaderType::Vertex;
    request.name = Some("vs".to_string());
    let source = "#version 450\nlayout(location = 0) in vec4 pos;\nlayout(set = 0, binding = 1) uniform Globals { vec4 tint; } globals;\nvoid main() {}\n";
    let words = vertex_module(true);
    let bytes = spirv_words_to_bytes(&words);
    let reflected = reflect_bindings(&bytes, source, ShaderLang::Glsl).expect("reflects");
    assert_eq!(reflected.variables.len(), 1);
    assert_eq!(reflected.variables[0].name, "globals");
    let result = finish_compilation(&words, &request, ShaderLang::Glsl, source).expect("finishes");
    assert_eq!(result.name, Some("vs".to_string()));
    assert_eq!(result.file, None);
    assert_eq!(result.lang, ShaderLang::Glsl);
    assert_eq!(result.stage, ShaderType::Vertex);
    assert_eq!(result.variables.len(), 1);
    assert_eq!(result.variables[0].name, "globals");
    assert_eq!(result.variables[0].set, 0);
    assert_eq!(result.variables[0].kind.binding, 1);
    assert_eq!(result.variables[0].kind.var_type, BindTableVariableType::Uniform);
    assert_eq!(result.metadata.entry_points, vec!["main".to_string()]);
    assert!(result.metadata.vertex.is_some());
    assert!(contains_text(&result.spirv, "globals"));

    assert!(matches!(
        finish_compilation(&vec![1, 2, 3], &request, ShaderLang::Glsl, source),
        Err(BentoError::ShaderCompilation(_))
    ));
}

/// A module (version 1.3) with two uniform block variables, `a` (id 9) and
/// `b` (id 12), decorated by `decorations`; the block struct is decorated
/// `Block` when `block` holds.
fn resources_module(decorations: &[[u32; 3]], block: bool) -> Vec<u32> {
    let mut w = vec![0x0723_0203, 0x0001_0300, 0, 16, 0];
    w.extend(op(17, &[1])); // OpCapability Shader
    w.extend(op(14, &[0, 1])); // OpMemoryModel Logical GLSL450
    let mut entry = vec![5, 1];
    entry.extend(text("main"));
    w.extend(op(15, &entry)); // OpEntryPoint GLCompute %1 "main"
    let mut name_a = vec![9];
    name_a.extend(text("a"));
    w.extend(op(5, &name_a)); // OpName %9 "a"
    let mut name_b = vec![12];
    name_b.extend(text("b"));
    w.extend(op(5, &name_b)); // OpName %12 "b"
    if block {
        w.extend(op(71, &[10, 2])); // OpDecorate %10 Block
    }
    for d in decorations {
        w.extend(op(71, d)); // OpDecorate %id Set-or-Binding value
    }
    w.extend(op(22, &[3, 32])); // %3 = OpTypeFloat 32
    w.extend(op(23, &[4, 3, 4])); // %4 = OpTypeVector %3 4
    w.extend(op(30, &[10, 4])); // %10 = OpTypeStruct %4
    w.extend(op(32, &[11, 2, 10])); // %11 = OpTypePointer Uniform %10
    w.extend(op(59, &[11, 9, 2])); // %9 = OpVariable %11 Uniform
    w.extend(op(59, &[11, 12, 2])); // %12 = OpVariable %11 Uniform
    w.extend(op(19, &[6])); // %6 = OpTypeVoid
    w.extend(op(33, &[7, 6])); // %7 = OpTypeFunction %6
    w.extend(op(54, &[6, 1, 0, 7])); // %1 = OpFunction %6 None %7
    w.extend(op(248, &[8])); // OpLabel %8
    w.extend(op(253, &[])); // OpReturn
    w.extend(op(56, &[])); // OpFunctionEnd
    w
}

fn unreadable(result: Result<meshi::bento::reflect::ReflectedBindings, BentoError>) -> bool {
    match result {
        Err(BentoError::ShaderCompilation(msg)) => msg.starts_with("SPIR-V descriptor bindings cannot be read"),
        _ => false,
    }
}

#[test]
fn reflects_resources_on_distinct_slots() {
    let words = resources_module(&[[9, 34, 0], [9, 33, 1], [12, 34, 0], [12, 33, 2]], true);
    let reflected = reflect_bindings(&spirv_words_to_bytes(&words), "", ShaderLang::Glsl).expect("reads");
    assert_eq!(reflected.variables.len(), 2);
    assert_eq!(reflected.variables[0].name, "a");
    assert_eq!(reflected.variables[0].kind.binding, 1);
    assert_eq!(reflected.variables[1].name, "b");
    assert_eq!(reflected.variables[1].kind.binding, 2);
}

#[test]
fn refuses_two_resources_on_one_slot() {
    let words = resources_module(&[[9, 34, 0], [9, 33, 1], [12, 34, 0], [12, 33, 1]], true);
    assert!(unreadable(reflect_bindings(&spirv_words_to_bytes(&words), "", ShaderLang::Glsl)));
}

#[test]
fn refuses_a_resource_decorated_twice() {
    let words = resources_module(&[[9, 34, 0], [9, 34, 1], [9, 33, 1], [12, 34, 0], [12, 33, 2]], true);
    assert!(unreadable(reflect_bindings(&spirv_words_to_bytes(&words), "", ShaderLang::Glsl)));
}

#[test]
fn refuses_a_uniform_struct_without_block_from_version_1_3() {
    let words = resources_module(&[[9, 34, 0], [9, 33, 1], [12, 34, 0], [12, 33, 2]], false);
    assert!(unreadable(reflect_bindings(&spirv_words_to_bytes(&words), "", ShaderLang::Glsl)));
}

#[test]
fn source_errors_come_before_descriptor_checks() {
    let words = resources_module(&[[9, 34, 0], [9, 33, 1], [12, 34, 0], [12, 33, 1]], true);
    let result = reflect_bindings(&spirv_words_to_bytes(&words), "", ShaderLang::Other);
    assert!(matches!(result, Err(BentoError::InvalidInput(_))));
}

#[test]
fn reader_errors_before_an_assertion_are_reported_as_the_reader_gives_them() {
    // `a` has no binding, so reading fails on it before `b`'s second set
    // decoration is reached
    let words = resources_module(&[[9, 34, 0], [12, 34, 0], [12, 34, 1], [12, 33, 2]], true);
    let result = reflect_bindings(&spirv_words_to_bytes(&words), "", ShaderLang::Glsl);
    assert!(matches!(result, Err(BentoError::ShaderCompilation(_))));
    assert!(!unreadable(reflect_bindings(&spirv_words_to_bytes(&words), "", ShaderLang::Glsl)));
}
