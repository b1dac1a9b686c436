use meshi::bento::metadata::{
    metadata_from_module, SpvInstruction, SpvModule, SpvOperand, DECORATION_BUILT_IN, DECORATION_LOCATION,
    OP_DECORATE, OP_ENTRY_POINT, OP_NAME, OP_TYPE_FLOAT, OP_TYPE_POINTER, OP_TYPE_VECTOR, OP_VARIABLE,
    STORAGE_CLASS_INPUT, STORAGE_CLASS_OUTPUT,
};
use meshi::bento::reflect::{reflect_bindings_from, DescriptorCount, ReflectedDescriptor};
use meshi::bento::spirv::{spirv_words_to_bytes, strip_debug_instructions};
use meshi::bento::glsl::SourceBinding;
use meshi::bento::types::{BindTableVariableType, ShaderPrimitiveType, VertexRate};

fn ins(opcode: u32, result_id: Option<u32>, result_type: Option<u32>, operands: Vec<SpvOperand>) -> SpvInstruction {
    SpvInstruction { opcode, result_id, result_type, operands }
}

#[test]
fn strips_debug_instructions_and_keeps_the_rest() {
    let header = [0x0723_0203u32, 0x0001_0300, 0, 20, 0];
    let mut words = header.to_vec();
    words.extend([(2 << 16) | 5, 7]); // OpName
    words.extend([(3 << 16) | 21, 1, 32]); // OpTypeInt
    words.extend([(2 << 16) | 8, 1]); // OpLine
    let stripped = strip_debug_instructions(&words);
    let mut expected = header.to_vec();
    expected.extend([(3 << 16) | 21, 1, 32]);
    assert_eq!(stripped, expected);
    assert_eq!(strip_debug_instructions(&stripped), stripped);
    assert_eq!(strip_debug_instructions(&[1, 2]), vec![1, 2]);
    // a zero-length instruction ends the walk
    let mut broken = header.to_vec();
    broken.extend([0, 99]);
    assert_eq!(strip_debug_instructions(&broken), header.to_vec());
}

#[test]
fn words_become_little_endian_bytes() {
    assert_eq!(spirv_words_to_bytes(&[0x0403_0201, 0xA0B0_C0D0]), vec![1, 2, 3, 4, 0xD0, 0xC0, 0xB0, 0xA0]);
}

#[test]
fn reflected_variables_take_source_names_and_slots() {
    let descriptors = vec![
        ReflectedDescriptor { set: 0, binding: 0, ty: 2, count: DescriptorCount::StaticSized(4), name: "".to_string() },
        ReflectedDescriptor { set: 0, binding: 1, ty: 7, count: DescriptorCount::Unbounded, name: "buf".to_string() },
        ReflectedDescriptor { set: 1, binding: 0, ty: 99, count: DescriptorCount::One, name: "x".to_string() },
    ];
    let sources = vec![
        SourceBinding { set: 0, binding: None, name: "textures".to_string(), order: 0 },
        SourceBinding { set: 1, binding: Some(0), name: "named".to_string(), order: 1 },
    ];
    let reflected = reflect_bindings_from(&descriptors, sources).expect("reflects");
    let names: Vec<(&str, u32, u32)> =
        reflected.variables.iter().map(|v| (v.name.as_str(), v.set, v.kind.binding)).collect();
    assert_eq!(names, vec![("textures", 0, 0), ("buf", 0, 1), ("named", 1, 0)]);
    assert_eq!(reflected.variables[0].kind.var_type, BindTableVariableType::Image);
    assert_eq!(reflected.variables[0].kind.count, 4);
    assert_eq!(reflected.variables[1].kind.var_type, BindTableVariableType::Storage);
    assert_eq!(reflected.variables[1].kind.count, 0);
    assert_eq!(reflected.variables[2].kind.var_type, BindTableVariableType::Uniform);
    assert!(reflected.remap.is_empty());
}

#[test]
fn unnamed_reflected_binding_is_an_error() {
    let descriptors =
        vec![ReflectedDescriptor { set: 2, binding: 3, ty: 6, count: DescriptorCount::One, name: " ".to_string() }];
    let err = reflect_bindings_from(&descriptors, vec![]).err().expect("unnamed");
    assert_eq!(
        err,
        meshi::bento::types::BentoError::ShaderCompilation(
            "Unable to determine binding name for set 2 binding 3 from source".to_string()
        )
    );
}

#[test]
fn reflects_vertex_layout_metadata() {
    let module = SpvModule {
        debug_names: vec![
            ins(OP_NAME, None, None, vec![SpvOperand::IdRef(20), SpvOperand::LiteralString("in_uv".to_string())]),
            ins(OP_NAME, None, None, vec![SpvOperand::IdRef(21), SpvOperand::LiteralString("in_pos".to_string())]),
        ],
        annotations: vec![
            ins(OP_DECORATE, None, None, vec![SpvOperand::IdRef(20), SpvOperand::Decoration(DECORATION_LOCATION), SpvOperand::LiteralBit32(1)]),
            ins(OP_DECORATE, None, None, vec![SpvOperand::IdRef(21), SpvOperand::Decoration(DECORATION_LOCATION), SpvOperand::LiteralBit32(0)]),
            ins(OP_DECORATE, None, None, vec![SpvOperand::IdRef(22), SpvOperand::Decoration(DECORATION_BUILT_IN), SpvOperand::BuiltIn(42)]),
        ],
        types_global_values: vec![
            ins(OP_TYPE_FLOAT, Some(1), None, vec![SpvOperand::LiteralBit32(32)]),
            ins(OP_TYPE_VECTOR, Some(2), None, vec![SpvOperand::IdRef(1), SpvOperand::LiteralBit32(2)]),
            ins(OP_TYPE_VECTOR, Some(3), None, vec![SpvOperand::IdRef(1), SpvOperand::LiteralBit32(3)]),
            ins(OP_TYPE_POINTER, Some(4), None, vec![SpvOperand::StorageClass(STORAGE_CLASS_INPUT), SpvOperand::IdRef(2)]),
            ins(OP_TYPE_POINTER, Some(5), None, vec![SpvOperand::StorageClass(STORAGE_CLASS_INPUT), SpvOperand::IdRef(3)]),
            ins(OP_VARIABLE, Some(20), Some(4), vec![SpvOperand::StorageClass(STORAGE_CLASS_INPUT)]),
            ins(OP_VARIABLE, Some(21), Some(5), vec![SpvOperand::StorageClass(STORAGE_CLASS_INPUT)]),
            ins(OP_VARIABLE, Some(22), Some(5), vec![SpvOperand::StorageClass(STORAGE_CLASS_INPUT)]),
            ins(OP_VARIABLE, Some(23), Some(5), vec![SpvOperand::StorageClass(STORAGE_CLASS_OUTPUT)]),
        ],
        entry_points: vec![ins(
            OP_ENTRY_POINT,
            None,
            None,
            vec![SpvOperand::ExecutionModel(0), SpvOperand::IdRef(9), SpvOperand::LiteralString("main".to_string())],
        )],
    };
    let metadata = metadata_from_module(&module, None);
    assert_eq!(metadata.entry_points, vec!["main".to_string()]);
    let inputs: Vec<(&str, Option<u32>)> = metadata.inputs.iter().map(|v| (v.name.as_str(), v.location)).collect();
    assert_eq!(inputs, vec![("in_pos", Some(0)), ("in_uv", Some(1))]);
    assert_eq!(metadata.outputs.len(), 1);
    assert_eq!(metadata.outputs[0].name, "var_23");
    let layout = metadata.vertex.expect("vertex layout");
    assert_eq!(layout.stride, 20);
    assert_eq!(layout.rate, VertexRate::Vertex);
    assert_eq!(layout.entries.len(), 2);
    assert_eq!((layout.entries[0].location, layout.entries[0].offset, layout.entries[0].format), (0, 0, ShaderPrimitiveType::Vec3));
    assert_eq!((layout.entries[1].location, layout.entries[1].offset, layout.entries[1].format), (1, 12, ShaderPrimitiveType::Vec2));
    assert_eq!(metadata.workgroup_size, None);
    let compute = metadata_from_module(&SpvModule { entry_points: vec![], ..module }, Some((8, 4, 1)));
    assert_eq!(compute.workgroup_size, Some([8, 4, 1]));
    assert!(compute.vertex.is_none());
}
