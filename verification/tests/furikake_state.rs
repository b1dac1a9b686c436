use meshi::bento::types::{
    BindTableVariable, BindTableVariableType, CompilationResult, ShaderLang, ShaderMetadata, ShaderType,
    ShaderVariable,
};
use meshi::furikake::dirty::DirtyRange;
use meshi::furikake::handle::Handle;
use meshi::furikake::joints::{JointRangeAllocator, PerObjectJointAllocation};
use meshi::furikake::reserved::{
    ReservedBindlessAnimationKeyframes, ReservedBindlessCamera, ReservedBindlessMaterials,
    ReservedBindlessTransformations, ReservedParticles,
};
use meshi::furikake::slots::SyncRequest;
use meshi::furikake::resolver::{FurikakeError, ReservedMetadata, Resolver};
use meshi::furikake::state::{bindless_reserved_items, default_reserved_items, reserved_binding, reserved_of_kind, ReservedItemKind};
use meshi::furikake::subscriptions::{TableSubscriptions, TableTarget};
use meshi::furikake::textures::ReservedBindlessTextures;

fn make_result(variables: Vec<ShaderVariable>) -> CompilationResult {
    CompilationResult {
        name: None,
        file: None,
        lang: ShaderLang::Glsl,
        stage: ShaderType::Vertex,
        variables,
        metadata: ShaderMetadata {
            entry_points: Vec::new(),
            inputs: Vec::new(),
            outputs: Vec::new(),
            workgroup_size: None,
            vertex: None,
        },
        spirv: Vec::new(),
    }
}

fn timing_metadata() -> Vec<ReservedMetadata> {
    vec![ReservedMetadata { name: "meshi_timing".to_string(), kind: BindTableVariableType::Uniform }]
}

#[test]
fn reports_missing_reserved_binding() {
    let res = make_result(vec![]);
    let err = Resolver::new(&timing_metadata(), &res).err().expect("missing binding");

    match err {
        FurikakeError::MissingReservedBinding { name } => {
            assert_eq!(name, "meshi_timing");
        }
        other => panic!("unexpected error {other:?}"),
    }
}

#[test]
fn reports_type_mismatch() {
    let res = make_result(vec![ShaderVariable {
        name: "meshi_timing".to_string(),
        set: 0,
        kind: BindTableVariable { var_type: BindTableVariableType::Storage, binding: 0, count: 1 },
    }]);

    let err = Resolver::new(&timing_metadata(), &res).err().expect("mismatch");
    match err {
        FurikakeError::ResolverReflection { source } => {
            assert!(source.contains("expected Uniform"));
            assert!(source.contains("Storage"));
            assert_eq!(source, "reserved binding `meshi_timing` expected Uniform but shader reported Storage");
        }
        other => panic!("unexpected error {other:?}"),
    }
}

#[test]
fn resolves_reserved_bindings_in_metadata_order() {
    let res = make_result(vec![
        ShaderVariable {
            name: "other".to_string(),
            set: 1,
            kind: BindTableVariable { var_type: BindTableVariableType::Storage, binding: 3, count: 1 },
        },
        ShaderVariable {
            name: "meshi_timing".to_string(),
            set: 2,
            kind: BindTableVariable { var_type: BindTableVariableType::Uniform, binding: 4, count: 1 },
        },
    ]);
    let resolver = Resolver::new(&timing_metadata(), &res).expect("resolves");
    let resolved = resolver.resolved();
    assert_eq!(resolved.len(), 1);
    assert_eq!(resolved[0].name, "meshi_timing");
    assert!(resolved[0].exists);
    assert_eq!(resolved[0].set, 2);
    assert_eq!(resolved[0].binding.binding, 4);
}

#[test]
fn displays_missing_binding() {
    let missing = FurikakeError::MissingReservedBinding { name: "meshi_camera".to_string() };
    assert_eq!(missing.message(), "reserved binding `meshi_camera` not found");
}

#[test]
fn displays_mismatched_binding_type() {
    let mismatched = FurikakeError::ReservedItemTypeMismatch { name: "meshi_camera".to_string() };
    assert_eq!(mismatched.message(), "reserved binding `meshi_camera` had the wrong type");
}

#[test]
fn displays_mapping_failures() {
    let map_error = FurikakeError::BufferMapFailed { source: "Library could not be loaded".to_string() };
    assert_eq!(map_error.message(), "failed to map buffer: Library could not be loaded");
    let unmap_error = FurikakeError::BufferUnmapFailed { source: "Slot Error".to_string() };
    assert_eq!(unmap_error.message(), "failed to unmap buffer: Slot Error");
    let reflect = FurikakeError::from_message("boom".to_string());
    assert_eq!(reflect.message(), "failed to reflect resolver bindings: boom");
}

#[test]
fn reuses_released_camera_slots() {
    let mut cameras = ReservedBindlessCamera::new(0u64);

    let first = cameras.add_camera();
    let second = cameras.add_camera();
    assert_ne!(first.slot, second.slot);

    cameras.remove_camera(first);
    let reused = cameras.add_camera();

    assert_eq!(first.slot, reused.slot);
}

#[test]
fn extend_populates_available_slots() {
    let mut textures = ReservedBindlessTextures::new(7u32, 9u32);
    let initial_capacity = textures.len();

    for _ in 0..=initial_capacity {
        let _ = textures.add_texture(1u32);
    }

    assert!(textures.len() > initial_capacity);
    // One slot is consumed from the extension block.
    assert_eq!(textures.available_len(), 127);
}

fn target(slot: u16, binding: u32, size: u32) -> TableTarget {
    TableTarget { table: Handle::new(slot, 0), binding, size }
}

#[test]
fn table_subscriptions_deduplicate_and_filter_by_size() {
    let mut subs = TableSubscriptions::new();
    subs.register_table_target("meshi_bindless_textures", target(1, 0, 4));
    subs.register_table_target("meshi_bindless_textures", target(1, 0, 4));
    subs.register_table_target("meshi_bindless_textures", target(2, 0, 16));

    let reached = subs.update_targets("meshi_bindless_textures", 8);
    assert_eq!(reached.len(), 1);
    assert_eq!(reached[0].table, Handle::new(2, 0));
    assert_eq!(subs.update_targets("meshi_bindless_textures", 0).len(), 2);
    assert!(subs.update_targets("unknown", 0).is_empty());

    subs.unregister_table("meshi_bindless_textures", target(1, 0, 99));
    assert_eq!(subs.update_targets("meshi_bindless_textures", 0).len(), 1);
    subs.unregister_table("meshi_bindless_textures", target(2, 0, 16));
    assert!(subs.update_targets("meshi_bindless_textures", 0).is_empty());
}

#[test]
fn mutates_host_camera_data() {
    let mut cameras = ReservedBindlessCamera::new([0u32; 4]);
    let handle = cameras.add_camera();
    {
        let cam = cameras.camera_mut(handle);
        cam[0] = 1;
        cam[2] = 3;
    }
    assert_eq!(*cameras.camera(handle), [1, 0, 3, 0]);
    let stride = std::mem::size_of::<[u32; 4]>() as u32;
    let start = handle.slot as u32 * stride;
    assert_eq!(cameras.update(), SyncRequest::Range { start, end: start + stride });
    assert_eq!(cameras.update(), SyncRequest::Nothing);
}

#[test]
fn item_tables_keep_their_removal_rules() {
    let mut materials = ReservedBindlessMaterials::new(0u32);
    let pushed = materials.push_material(42);
    assert_eq!(pushed.slot, 4095);
    assert_eq!(*materials.material(pushed), 42);
    // materials only take back slots below the shared low limit
    materials.remove_material(pushed);
    assert_eq!(materials.add_material().slot, 4094);

    let mut particles = ReservedParticles::new(0u8);
    let p = particles.push_particle(7);
    particles.remove_particle(p);
    assert_eq!(particles.add_particle(), p);

    // transformations are uploaded whole on every update
    let mut transforms = ReservedBindlessTransformations::new(0u16);
    let t = transforms.add_transform();
    *transforms.transform_mut(t) = 5;
    assert_eq!(*transforms.transform(t), 5);
    assert_eq!(transforms.update(), SyncRequest::Whole);

    let mut keyframes = ReservedBindlessAnimationKeyframes::new(0u32);
    let k = keyframes.push_keyframe(9);
    assert_eq!(*keyframes.keyframe(k), 9);
    keyframes.remove_keyframe(k);
    assert_eq!(keyframes.add_keyframe(), k);
}

#[test]
fn pending_range_covers_every_mark() {
    let mut range = DirtyRange::new();
    assert_eq!(range.take(), None);
    range.mark_bytes(64, 16);
    range.mark_bytes(8, 4);
    range.mark_bytes(100, 0);
    assert_eq!(range.take(), Some((8, 80)));
    assert_eq!(range.take(), None);
    range.mark_bytes(u32::MAX - 2, 10);
    assert_eq!(range.take(), Some((u32::MAX - 2, u32::MAX)));
}

#[test]
fn joint_ranges_reserve_first_fit_and_free_back() {
    let mut joints = JointRangeAllocator::new(64);
    let a = joints.reserve(10).expect("room for ten");
    assert_eq!(a, PerObjectJointAllocation { offset: 0, count: 10 });
    let b = joints.reserve(20).expect("room for twenty");
    assert_eq!(b, PerObjectJointAllocation { offset: 10, count: 20 });
    assert_eq!(joints.reserve(0), None);
    assert_eq!(joints.reserve(100), None);
    joints.free(a);
    // the freed front is the first fit again
    assert_eq!(joints.reserve(10), Some(PerObjectJointAllocation { offset: 0, count: 10 }));
    joints.free(PerObjectJointAllocation { offset: 0, count: 10 });
    joints.free(b);
    // everything coalesced back into one range
    assert_eq!(joints.reserve(64), Some(PerObjectJointAllocation { offset: 0, count: 64 }));
}

#[test]
fn add_texture_sets_default_sampler() {
    let default_img = 7u32;
    let default_sampler = 9u32;
    let mut textures = ReservedBindlessTextures::new(default_img, default_sampler);
    let view = 41u32;

    let id = textures.add_texture(view);

    let host_entry = textures.texture(id).unwrap();
    assert_eq!(host_entry.img, view);
    assert_eq!(host_entry.sampler, Some(default_sampler));

    let device_entry = textures.binding()[id as usize];
    assert_eq!(device_entry.img, view);
    assert_eq!(device_entry.sampler, default_sampler);
}

#[test]
fn add_texture_with_custom_sampler_overrides_default() {
    let mut textures = ReservedBindlessTextures::new(7u32, 9u32);
    let view = 41u32;
    let custom_sampler = 4u32;

    let id = textures.add_texture_with_sampler(view, Some(custom_sampler));

    let host_entry = textures.texture(id).unwrap();
    assert_eq!(host_entry.sampler, Some(custom_sampler));
    assert_eq!(textures.binding()[id as usize].sampler, custom_sampler);
}

#[test]
fn update_sampler_rewrites_binding() {
    let mut textures = ReservedBindlessTextures::new(7u32, 9u32);
    let view = 41u32;
    let id = textures.add_texture(view);

    let replacement_sampler = 8u32;
    textures.update_sampler(id, replacement_sampler);

    assert_eq!(textures.texture(id).unwrap().sampler, Some(replacement_sampler));
    assert_eq!(textures.binding()[id as usize].sampler, replacement_sampler);
    assert_eq!(textures.binding()[id as usize].img, view);
}

#[test]
fn errors_on_type_mismatch() {
    let items = bindless_reserved_items();
    let result = reserved_of_kind(&items, "meshi_timing", ReservedItemKind::Cameras);
    match result {
        Err(FurikakeError::ReservedItemTypeMismatch { name }) => assert_eq!(name, "meshi_timing"),
        other => panic!("expected type mismatch error, got {other:?}"),
    }
}

#[test]
fn typed_lookup_finds_reserved_items() {
    let items = bindless_reserved_items();
    assert_eq!(reserved_binding(&items, "meshi_bindless_textures"), Ok(ReservedItemKind::Textures));
    assert_eq!(reserved_binding(&items, "meshi_per_obj_joints"), Ok(ReservedItemKind::PerObjectJoints));
    assert_eq!(reserved_of_kind(&items, "meshi_particles", ReservedItemKind::Particles), Ok(()));
    match reserved_binding(&items, "meshi_unknown") {
        Err(FurikakeError::MissingReservedBinding { name }) => assert_eq!(name, "meshi_unknown"),
        other => panic!("expected missing binding error, got {other:?}"),
    }
    let defaults = default_reserved_items();
    assert_eq!(reserved_binding(&defaults, "meshi_timing"), Ok(ReservedItemKind::Timing));
    assert!(matches!(
        reserved_of_kind(&defaults, "meshi_bindless_cameras", ReservedItemKind::Cameras),
        Err(FurikakeError::MissingReservedBinding { .. })
    ));
}
