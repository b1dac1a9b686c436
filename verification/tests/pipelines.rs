use meshi::bento::builder::{
    default_slots,
    first_four, merge_stage_flags, plan_bind_group_set, plan_compute_bindings, plan_compute_table_set,
    plan_graphics_table_set, resolve_binding_count, resources_from_config, stage_variables, update_table_slice,
    BindTableVariable as TableConfig, ComputePipelineBuilder, GraphicsPipelineBuilder, IndexedResource, TableBinding,
    TableFill,
};
use meshi::bento::named::NamedMap;
use meshi::bento::types::{
    BindTableVariable, BindTableVariableType, CompilationResult, ShaderLang, ShaderMetadata, ShaderType,
    ShaderVariable,
};

fn var(name: &str, set: u32, binding: u32, ty: BindTableVariableType, count: u32) -> ShaderVariable {
    ShaderVariable { name: name.to_string(), set, kind: BindTableVariable { var_type: ty, binding, count } }
}

fn stage(stage: ShaderType, variables: Vec<ShaderVariable>) -> CompilationResult {
    CompilationResult {
        name: None,
        file: None,
        lang: ShaderLang::Glsl,
        stage,
        variables,
        metadata: ShaderMetadata { entry_points: vec![], inputs: vec![], outputs: vec![], workgroup_size: None, vertex: None },
        spirv: vec![],
    }
}

#[test]
fn stage_flags_merge_to_all_when_stages_differ() {
    assert_eq!(merge_stage_flags(ShaderType::Vertex, ShaderType::Vertex), ShaderType::Vertex);
    assert_eq!(merge_stage_flags(ShaderType::Vertex, ShaderType::Fragment), ShaderType::All);
}

#[test]
fn binding_counts_prefer_configuration_and_default_to_256() {
    let kind = BindTableVariable { var_type: BindTableVariableType::Storage, binding: 0, count: 0 };
    assert_eq!(resolve_binding_count::<u8>(&kind, None), 256);
    let sized = TableConfig::<u8>::Empty { size: 8 };
    assert_eq!(resolve_binding_count(&kind, Some(&sized)), 8);
    let given = TableConfig::WithResources {
        resources: vec![IndexedResource { resource: 1u8, slot: 0 }, IndexedResource { resource: 2u8, slot: 1 }],
    };
    assert_eq!(resolve_binding_count(&kind, Some(&given)), 2);
}

#[test]
fn table_rejects_out_of_range_and_repeated_slots() {
    let ok = TableConfig::WithResources {
        resources: vec![IndexedResource { resource: 1u8, slot: 1 }, IndexedResource { resource: 2u8, slot: 0 }],
    };
    assert_eq!(resources_from_config(&ok, 2), Some(TableFill::Provided));
    let out_of_range = TableConfig::WithResources {
        resources: vec![IndexedResource { resource: 1u8, slot: 0 }, IndexedResource { resource: 2u8, slot: 2 }],
    };
    assert_eq!(resources_from_config(&out_of_range, 2), None);
    let repeated = TableConfig::WithResources {
        resources: vec![IndexedResource { resource: 1u8, slot: 1 }, IndexedResource { resource: 2u8, slot: 1 }],
    };
    assert_eq!(resources_from_config(&repeated, 2), None);
    assert_eq!(resources_from_config(&TableConfig::<u8>::Empty { size: 4 }, 4), Some(TableFill::Defaults));
    assert_eq!(resources_from_config(&TableConfig::<u8>::Empty { size: 4 }, 5), None);
}

#[test]
fn graphics_bind_groups_merge_shared_bindings() {
    let vertex = stage(
        ShaderType::Vertex,
        vec![
            var("camera", 0, 1, BindTableVariableType::Uniform, 1),
            var("only_vertex", 0, 0, BindTableVariableType::Storage, 1),
            var("other_set", 1, 0, BindTableVariableType::Storage, 1),
        ],
    );
    let fragment = stage(
        ShaderType::Fragment,
        vec![var("cam", 0, 1, BindTableVariableType::Uniform, 1), var("albedo", 0, 2, BindTableVariableType::Image, 1)],
    );
    let merged = plan_bind_group_set(&vertex, &fragment, 0);
    assert_eq!(merged.len(), 3);
    assert_eq!(merged[0].var.binding, 0);
    assert_eq!(merged[0].stage, ShaderType::Vertex);
    assert_eq!(merged[1].var.binding, 1);
    assert_eq!(merged[1].stage, ShaderType::All);
    assert_eq!(merged[1].names, vec!["camera".to_string(), "cam".to_string()]);
    assert_eq!(merged[2].stage, ShaderType::Fragment);

    let (v, f, shared) = stage_variables(&merged);
    assert_eq!((v.len(), f.len(), shared.len()), (1, 1, 1));

    let mut provided: NamedMap<u32> = NamedMap::new();
    provided.insert("cam".to_string(), 5);
    let bindings = meshi::bento::builder::group_bindings(&merged, &provided);
    assert_eq!(bindings, vec![(1, "cam".to_string())]);
}

#[test]
fn graphics_tables_reject_clashing_counts() {
    let vertex = stage(ShaderType::Vertex, vec![var("lights", 0, 3, BindTableVariableType::Storage, 4)]);
    let fragment = stage(ShaderType::Fragment, vec![var("lights2", 0, 3, BindTableVariableType::Storage, 8)]);
    let configs: NamedMap<TableConfig<u8>> = NamedMap::new();
    assert!(plan_graphics_table_set(&vertex, &fragment, 0, &configs).is_none());

    let fragment = stage(ShaderType::Fragment, vec![var("lights", 0, 3, BindTableVariableType::Storage, 4)]);
    let mut configs: NamedMap<TableConfig<u8>> = NamedMap::new();
    configs.insert("lights".to_string(), TableConfig::Empty { size: 4 });
    let plan = plan_graphics_table_set(&vertex, &fragment, 0, &configs).expect("plans");
    assert_eq!(plan.layout.len(), 1);
    assert_eq!(plan.layout[0].count, 4);
    assert_eq!(plan.entries.len(), 1);
    assert_eq!((plan.entries[0].binding, plan.entries[0].size, plan.entries[0].fill), (3, 4, TableFill::Defaults));
}

#[test]
fn compute_tables_follow_each_configured_variable() {
    let shader = stage(
        ShaderType::Compute,
        vec![var("data", 0, 0, BindTableVariableType::Storage, 0), var("params", 0, 1, BindTableVariableType::Uniform, 1)],
    );
    let mut configs: NamedMap<TableConfig<u8>> = NamedMap::new();
    configs.insert(
        "data".to_string(),
        TableConfig::WithResources { resources: vec![IndexedResource { resource: 0u8, slot: 0 }] },
    );
    let plan = plan_compute_table_set(&shader, 0, &configs).expect("plans");
    assert_eq!(plan.layout.len(), 2);
    assert_eq!(plan.layout[0].count, 1);
    assert_eq!(plan.layout[1].count, 1);
    assert_eq!(plan.entries.len(), 1);
    assert_eq!(plan.entries[0].fill, TableFill::Provided);

    let mut provided: NamedMap<u8> = NamedMap::new();
    provided.insert("params".to_string(), 3);
    assert_eq!(plan_compute_bindings(&shader, 0, &provided), vec![(1, "params".to_string())]);

    let mut bad: NamedMap<TableConfig<u8>> = NamedMap::new();
    bad.insert(
        "data".to_string(),
        TableConfig::WithResources { resources: vec![IndexedResource { resource: 0u8, slot: 5 }] },
    );
    assert!(plan_compute_table_set(&shader, 0, &bad).is_none());
}

#[test]
fn table_updates_check_their_slots() {
    let mut bindings: NamedMap<TableBinding<u8>> = NamedMap::new();
    bindings.insert("tex".to_string(), TableBinding { table: 9, binding: 2, size: 4 });
    assert!(update_table_slice(&bindings, "tex", &vec![0, 3]).is_some());
    assert!(update_table_slice(&bindings, "tex", &vec![4]).is_none());
    assert!(update_table_slice(&bindings, "other", &vec![0]).is_none());
}

#[test]
fn first_four_handles_fill_the_slots_in_order() {
    assert_eq!(first_four(&vec![1, 2]), [Some(1), Some(2), None, None]);
    assert_eq!(first_four(&vec![1, 2, 3, 4, 5]), [Some(1), Some(2), Some(3), Some(4)]);
}

#[test]
fn builders_collect_configuration() {
    let builder: GraphicsPipelineBuilder<u8, ()> = GraphicsPipelineBuilder::new();
    let builder = builder.add_table_variable("t", 3).add_variable("v", 1).set_details(());
    assert!(builder.table_variables.get("t").is_some());
    assert_eq!(builder.variables.get("v"), Some(&1));
    assert!(builder.vertex.is_none());
    let compute: ComputePipelineBuilder<u8> = ComputePipelineBuilder::new();
    let compute = compute.add_table_variable_with_resources("r", vec![]).shader_compiled(None);
    assert!(compute.shader.is_none());
    assert!(compute.table_variables.get("r").is_some());
}

#[test]
fn default_fill_takes_every_slot_in_order() {
    assert_eq!(default_slots(4), vec![0, 1, 2, 3]);
    assert!(default_slots(0).is_empty());
}
