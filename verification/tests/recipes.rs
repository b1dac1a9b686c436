use meshi::bento::types::{
    BindTableVariable, BindTableVariableType, CompilationResult, ShaderLang, ShaderMetadata, ShaderType,
    ShaderVariable,
};
use meshi::furikake::recipe::plan_recipes;
use meshi::furikake::resolver::{FurikakeError, ReservedMetadata};
use meshi::furikake::state::{bindless_metadata, bindless_state_names, default_metadata, default_state_names};

fn var(name: &str, set: u32, binding: u32, var_type: BindTableVariableType) -> ShaderVariable {
    ShaderVariable { name: name.to_string(), set, kind: BindTableVariable { var_type, binding, count: 1 } }
}

fn shader(stage: ShaderType, variables: Vec<ShaderVariable>) -> CompilationResult {
    CompilationResult {
        name: None,
        file: None,
        lang: ShaderLang::Glsl,
        stage,
        variables,
        metadata: ShaderMetadata { entry_points: vec![], inputs: vec![], outputs: vec![], workgroup_size: None, vertex: None },
        spirv: vec![],
    }
}

fn names() -> Vec<String> {
    vec!["meshi_timing".to_string(), "meshi_bindless_cameras".to_string(), "meshi_bindless_textures".to_string()]
}

#[test]
fn states_reserve_their_names() {
    assert_eq!(default_state_names(), vec!["meshi_timing".to_string()]);
    let meta = default_metadata();
    assert_eq!(meta.len(), 1);
    assert_eq!(meta[0].kind, BindTableVariableType::Uniform);
    let names = bindless_state_names();
    assert_eq!(names.len(), 17);
    assert_eq!(names[0], "meshi_timing");
    assert_eq!(names[2], "meshi_bindless_textures");
    assert_eq!(names[16], "meshi_per_obj_joints");
    let meta = bindless_metadata();
    assert_eq!(meta.len(), 17);
    assert_eq!(meta[0].kind, BindTableVariableType::Uniform);
    assert_eq!(meta[1].kind, BindTableVariableType::Storage);
    assert_eq!(meta[2].kind, BindTableVariableType::Image);
    assert_eq!(meta[3].kind, BindTableVariableType::Sampler);
    assert_eq!(meta[15].name, "meshi_particles");
    assert!(meta[4..].iter().all(|m| m.kind == BindTableVariableType::Storage));
}

#[test]
fn plans_one_table_per_set_in_order() {
    let vertex = shader(
        ShaderType::Vertex,
        vec![
            var("meshi_bindless_cameras", 1, 0, BindTableVariableType::Storage),
            var("meshi_timing", 0, 0, BindTableVariableType::Uniform),
        ],
    );
    let fragment = shader(
        ShaderType::Fragment,
        vec![
            var("meshi_bindless_textures", 1, 2, BindTableVariableType::Image),
            var("meshi_timing", 0, 0, BindTableVariableType::Uniform),
            var("meshi_bindless_cameras", 1, 0, BindTableVariableType::Storage),
        ],
    );
    let plans = match plan_recipes(&default_metadata(), &names(), &vec![vertex, fragment]) {
        Ok(p) => p,
        Err(e) => panic!("unexpected error {}", e.message()),
    };
    assert_eq!(plans.len(), 2);
    assert_eq!(plans[0].set, 0);
    assert_eq!(plans[1].set, 1);

    assert_eq!(plans[0].stages.len(), 2);
    assert_eq!(plans[0].stages[0].0, ShaderType::Vertex);
    assert_eq!(plans[0].stages[0].1.len(), 1);
    assert_eq!(plans[0].stages[1].0, ShaderType::Fragment);
    assert_eq!(plans[0].bindings.len(), 1);
    assert_eq!(plans[0].bindings[0].name, "meshi_timing");

    assert_eq!(plans[1].stages.len(), 2);
    assert_eq!(plans[1].stages[0].0, ShaderType::Vertex);
    assert_eq!(plans[1].stages[0].1.len(), 1);
    assert_eq!(plans[1].stages[1].0, ShaderType::Fragment);
    assert_eq!(plans[1].stages[1].1.len(), 2);
    assert_eq!(plans[1].stages[1].1[0].binding, 2);
    let bound: Vec<(&str, u32)> =
        plans[1].bindings.iter().map(|b| (b.name.as_str(), b.kind.binding)).collect();
    assert_eq!(bound, vec![("meshi_bindless_cameras", 0), ("meshi_bindless_textures", 2)]);
}

#[test]
fn refuses_shaders_the_state_cannot_serve() {
    let unknown = shader(
        ShaderType::Compute,
        vec![var("meshi_timing", 0, 0, BindTableVariableType::Uniform), var("mystery", 0, 1, BindTableVariableType::Storage)],
    );
    match plan_recipes(&default_metadata(), &names(), &vec![unknown]) {
        Err(FurikakeError::MissingReservedBinding { name }) => assert_eq!(name, "mystery"),
        _ => panic!("expected a missing binding"),
    }
    let without_timing = shader(ShaderType::Compute, vec![var("meshi_bindless_cameras", 0, 0, BindTableVariableType::Storage)]);
    match plan_recipes(&default_metadata(), &names(), &vec![without_timing]) {
        Err(FurikakeError::MissingReservedBinding { name }) => assert_eq!(name, "meshi_timing"),
        _ => panic!("expected a missing binding"),
    }
    let mismatched = shader(ShaderType::Compute, vec![var("meshi_timing", 0, 0, BindTableVariableType::Storage)]);
    let meta = vec![ReservedMetadata { name: "meshi_timing".to_string(), kind: BindTableVariableType::Uniform }];
    match plan_recipes(&meta, &names(), &vec![mismatched]) {
        Err(FurikakeError::ResolverReflection { source }) => {
            assert!(source.contains("expected Uniform"));
            assert!(source.contains("Storage"));
        }
        _ => panic!("expected a reflection error"),
    }
    match plan_recipes(&meta, &names(), &vec![]) {
        Ok(plans) => assert!(plans.is_empty()),
        Err(_) => panic!("no shaders need no tables"),
    }
}
