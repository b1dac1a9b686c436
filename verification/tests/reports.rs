use meshi::bento::inspect::{metadata_lines, report_lines, summary_lines};
use meshi::bento::types::{
    BentoError, MissingBinding, PipelineBuildError, BindTableVariable, BindTableVariableType, CompilationResult, InterfaceVariable, ShaderLang, ShaderMetadata,
    ShaderPrimitiveType, ShaderType, ShaderVariable, VertexEntry, VertexLayout, VertexRate,
};

fn sample() -> CompilationResult {
    CompilationResult {
        name: Some("example".to_string()),
        file: Some("shader.glsl".to_string()),
        lang: ShaderLang::Glsl,
        stage: ShaderType::Compute,
        variables: vec![ShaderVariable {
            name: "u_time".to_string(),
            set: 0,
            kind: BindTableVariable { var_type: BindTableVariableType::Uniform, binding: 0, count: 1 },
        }],
        metadata: ShaderMetadata {
            entry_points: vec!["main".to_string()],
            inputs: vec![],
            outputs: vec![],
            workgroup_size: Some([1, 1, 1]),
            vertex: None,
        },
        spirv: vec![0x0723_0203, 1, 2, 3],
    }
}

#[test]
fn summary_of_a_compute_shader() {
    let lines = summary_lines(&sample());
    let expected = vec![
        "Entry: example",
        "Source: shader.glsl",
        "Language: Glsl",
        "Stage: Compute",
        "Variables:",
        "  u_time -> set 0, binding 0 (Uniform), count 1",
        "Entry points:",
        "  main",
        "Workgroup size: 1 x 1 x 1",
        "SPIR-V words: 4",
        "Output size: 16 bytes",
    ];
    assert_eq!(lines, expected);
}

#[test]
fn verbose_compiler_report_leaves_out_source_and_word_count() {
    let lines = metadata_lines(&sample());
    let expected = vec![
        "Entry: example",
        "Language: Glsl",
        "Stage: Compute",
        "Variables:",
        "  u_time -> set 0, binding 0 (Uniform), count 1",
        "Entry points:",
        "  main",
        "Workgroup size: 1 x 1 x 1",
        "Output size: 16 bytes",
    ];
    assert_eq!(lines, expected);
    assert_eq!(report_lines(&sample(), false), lines);
}

#[test]
fn report_of_a_vertex_shader_lists_its_interface() {
    let mut result = sample();
    result.name = None;
    result.file = None;
    result.stage = ShaderType::Vertex;
    result.variables.clear();
    result.metadata.entry_points.clear();
    result.metadata.workgroup_size = None;
    result.metadata.inputs = vec![
        InterfaceVariable { name: "pos".to_string(), location: Some(0), format: Some(ShaderPrimitiveType::Vec3) },
        InterfaceVariable { name: "gl_VertexIndex".to_string(), location: None, format: None },
    ];
    result.metadata.outputs =
        vec![InterfaceVariable { name: "color".to_string(), location: Some(2), format: Some(ShaderPrimitiveType::Vec4) }];
    result.metadata.vertex = Some(VertexLayout {
        entries: vec![VertexEntry { format: ShaderPrimitiveType::Vec3, location: 0, offset: 0 }],
        stride: 12,
        rate: VertexRate::Vertex,
    });
    result.spirv = vec![0; 10];
    let expected = vec![
        "Entry: <unnamed shader>",
        "Language: Glsl",
        "Stage: Vertex",
        "Variables:",
        "Inputs:",
        "  @location(0) pos",
        "  gl_VertexIndex",
        "Outputs:",
        "  @location(2) color",
        "Vertex layout (stride 12 bytes):",
        "  @location(0) offset 0 -> Vec3",
        "SPIR-V words: 10",
        "Output size: 40 bytes",
    ];
    assert_eq!(summary_lines(&result), expected);
}

#[test]
fn errors_read_as_sentences() {
    assert_eq!(BentoError::InvalidInput("bad".to_string()).message(), "Invalid input: bad");
    assert_eq!(BentoError::Io("gone".to_string()).message(), "I/O error: gone");
    assert_eq!(BentoError::ShaderCompilation("x".to_string()).message(), "Shader compilation error: x");
    assert_eq!(BentoError::Bincode("y".to_string()).message(), "Binary serialization error: y");
    assert_eq!(BentoError::SerdeJson("z".to_string()).message(), "JSON serialization error: z");
    assert_eq!(BentoError::Dashi("w".to_string()).message(), "Shader backend error: w");
    let missing = PipelineBuildError::MissingBindings {
        bindings: vec![
            MissingBinding { name: "tex\"0".to_string(), set: 1, binding: 2 },
            MissingBinding { name: "ubo".to_string(), set: 0, binding: 7 },
        ],
    };
    let listed = format!(
        "{:?}",
        vec![
            MissingBinding2 { name: "tex\"0".to_string(), set: 1, binding: 2 },
            MissingBinding2 { name: "ubo".to_string(), set: 0, binding: 7 },
        ]
    )
    .replace("MissingBinding2", "MissingBinding");
    assert_eq!(BentoError::PipelineBuild(missing).message(), format!("Pipeline build error: Missing shader bindings: {listed}"));
    let counts = PipelineBuildError::MismatchedBindingCounts { set: 1, binding: 3, expected: 4, provided: 5 };
    assert_eq!(counts.message(), "Mismatched binding counts for set 1 binding 3: expected 4, provided 5");
    let slots = PipelineBuildError::InvalidResourceSlots { name: "t".to_string(), expected: 8 };
    assert_eq!(slots.message(), "Invalid resource slots for t: expected slots 0..8");
    let shader = PipelineBuildError::MissingShader { stage: "vertex".to_string() };
    assert_eq!(shader.message(), "Missing vertex shader stage");
}

/// The shape that `Debug` gives a missing binding, to compare against.
#[derive(Debug)]
#[allow(dead_code)]
struct MissingBinding2 {
    name: String,
    set: u32,
    binding: u32,
}

#[test]
fn bind_group_variables_follow_the_variables() {
    let mut result = sample();
    result.variables.push(ShaderVariable {
        name: "lights".to_string(),
        set: 1,
        kind: BindTableVariable { var_type: BindTableVariableType::Storage, binding: 3, count: 0 },
    });
    assert_eq!(
        result.bind_group_variables(),
        vec![
            BindTableVariable { var_type: BindTableVariableType::Uniform, binding: 0, count: 1 },
            BindTableVariable { var_type: BindTableVariableType::Storage, binding: 3, count: 0 },
        ]
    );
}
