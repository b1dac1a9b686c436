use vstd::prelude::*;

use rspirv_reflect::rspirv::dr::Operand::{
    BuiltIn as RBuiltIn, Decoration as RDecoration, Dim as RDim, ExecutionModel as RModel, IdRef as RIdRef,
    LiteralBit32 as RBit32, LiteralBit64 as RBit64, LiteralString as RString, StorageClass as RStorage,
};
use rspirv_reflect::rspirv::dr::{Instruction, Operand};
use rspirv_reflect::Reflection;
use std::collections::HashMap;

use self::SpvOperand::{
    BuiltIn, Decoration, Dim, ExecutionModel, IdRef, LiteralBit32, LiteralBit64, LiteralString, Other, StorageClass,
};

use super::types::{BentoError, InterfaceVariable, ShaderMetadata, ShaderPrimitiveType, VertexEntry, VertexLayout, VertexRate};
use crate::text::{decimal, push_all, string_of, u32_to_string};

verus! {

// ------------------------------------------------------------ the module

/// An operand of a SPIR-V instruction, as far as reflection reads it.
#[derive(Clone, Debug, PartialEq, Eq)]
pub enum SpvOperand {
    IdRef(u32),
    LiteralBit32(u32),
    LiteralBit64(u64),
    LiteralString(String),
    Decoration(u32),
    BuiltIn(u32),
    StorageClass(u32),
    ExecutionModel(u32),
    Dim(u32),
    Other,
}

/// A SPIR-V instruction: opcode, result id and type, operands.
#[derive(Clone, Debug, PartialEq, Eq)]
pub struct SpvInstruction {
    pub opcode: u32,
    pub result_id: Option<u32>,
    pub result_type: Option<u32>,
    pub operands: Vec<SpvOperand>,
}

/// The sections of a SPIR-V module that reflection reads.
#[derive(Clone, Debug, PartialEq, Eq)]
pub struct SpvModule {
    pub debug_names: Vec<SpvInstruction>,
    pub annotations: Vec<SpvInstruction>,
    pub types_global_values: Vec<SpvInstruction>,
    pub entry_points: Vec<SpvInstruction>,
}

/// The sections of a module, in the order of its fields.
pub type ModuleView = (Seq<SpvInstruction>, Seq<SpvInstruction>, Seq<SpvInstruction>, Seq<SpvInstruction>);

impl View for SpvModule {
    type V = ModuleView;

    open spec fn view(&self) -> ModuleView {
        (self.debug_names@, self.annotations@, self.types_global_values@, self.entry_points@)
    }
}

/// Section `k` of `m`, in the order of the fields.
pub open spec fn section_of(m: ModuleView, k: int) -> Seq<SpvInstruction> {
    if k == 0 {
        m.0
    } else if k == 1 {
        m.1
    } else if k == 2 {
        m.2
    } else {
        m.3
    }
}

pub const OP_NAME: u32 = 5;
pub const OP_ENTRY_POINT: u32 = 15;
pub const OP_TYPE_INT: u32 = 21;
pub const OP_TYPE_FLOAT: u32 = 22;
pub const OP_TYPE_VECTOR: u32 = 23;
pub const OP_TYPE_POINTER: u32 = 32;
pub const OP_VARIABLE: u32 = 59;
pub const OP_DECORATE: u32 = 71;
pub const DECORATION_BUILT_IN: u32 = 11;
pub const DECORATION_LOCATION: u32 = 30;
pub const STORAGE_CLASS_INPUT: u32 = 1;
pub const STORAGE_CLASS_OUTPUT: u32 = 3;
pub const EXECUTION_MODEL_VERTEX: u32 = 0;

/// Operand `j` of `ins`, if it has one.
pub open spec fn op_at(ins: SpvInstruction, j: int) -> Option<SpvOperand> {
    if 0 <= j < ins.operands@.len() {
        Some(ins.operands@[j])
    } else {
        None
    }
}

fn op_at_exec(ins: &SpvInstruction, j: usize) -> (r: Option<&SpvOperand>)
    ensures
        match op_at(*ins, j as int) {
            Some(o) => r == Some(&o),
            None => r is None,
        },
{
    if j < ins.operands.len() {
        Some(&ins.operands[j])
    } else {
        None
    }
}

// ----------------------------------------------------------------- maps

/// Values keyed by id, each id once.
pub struct IdMap<V> {
    entries: HashMap<u32, V>,
}

impl<V> IdMap<V> {
    pub closed spec fn view(&self) -> Map<u32, V> {
        self.entries@
    }

    /// Nothing to keep beyond what the hash map keeps: each id once.
    pub closed spec fn wf(&self) -> bool {
        true
    }

    pub fn new() -> (r: Self)
        ensures
            r.wf(),
            r@ == Map::<u32, V>::empty(),
    {
        IdMap { entries: HashMap::new() }
    }

    /// Sets `id` to `value`, replacing an earlier value.
    pub fn insert(&mut self, id: u32, value: V)
        requires
            old(self).wf(),
        ensures
            final(self).wf(),
            final(self)@ == old(self)@.insert(id, value),
    {
        broadcast use vstd::std_specs::hash::group_hash_axioms;
        self.entries.insert(id, value);
    }

    /// The value of `id`, when there is one.
    pub fn get(&self, id: u32) -> (r: Option<&V>)
        requires
            self.wf(),
        ensures
            match r {
                Some(v) => self@.contains_key(id) && self@[id] == *v,
                None => !self@.contains_key(id),
            },
    {
        broadcast use vstd::std_specs::hash::group_hash_axioms;
        self.entries.get(&id)
    }
}

// ------------------------------------------------------------ sections

/// The debug names: each `OpName` of an id and a string names the id, a
/// later one replacing an earlier.
pub open spec fn names_from(ins: Seq<SpvInstruction>) -> Map<u32, Seq<char>>
    decreases ins.len(),
{
    if ins.len() == 0 {
        Map::empty()
    } else {
        let m = names_from(ins.drop_last());
        let i = ins.last();
        if i.opcode == OP_NAME {
            match (op_at(i, 0), op_at(i, 1)) {
                (Some(SpvOperand::IdRef(id)), Some(SpvOperand::LiteralString(name))) => m.insert(id, name@),
                _ => m,
            }
        } else {
            m
        }
    }
}

/// The locations given by `OpDecorate id Location n`.
pub open spec fn locations_from(ins: Seq<SpvInstruction>) -> Map<u32, u32>
    decreases ins.len(),
{
    if ins.len() == 0 {
        Map::empty()
    } else {
        let m = locations_from(ins.drop_last());
        let i = ins.last();
        if i.opcode == OP_DECORATE {
            match (op_at(i, 0), op_at(i, 1), op_at(i, 2)) {
                (Some(SpvOperand::IdRef(id)), Some(SpvOperand::Decoration(d)), Some(SpvOperand::LiteralBit32(n))) => if d
                    == DECORATION_LOCATION {
                    m.insert(id, n)
                } else {
                    m
                },
                _ => m,
            }
        } else {
            m
        }
    }
}

/// The ids decorated `BuiltIn`.
pub open spec fn builtins_from(ins: Seq<SpvInstruction>) -> Set<u32>
    decreases ins.len(),
{
    if ins.len() == 0 {
        Set::empty()
    } else {
        let m = builtins_from(ins.drop_last());
        let i = ins.last();
        if i.opcode == OP_DECORATE {
            match (op_at(i, 0), op_at(i, 1), op_at(i, 2)) {
                (Some(SpvOperand::IdRef(id)), Some(SpvOperand::Decoration(d)), Some(SpvOperand::BuiltIn(_))) => if d
                    == DECORATION_BUILT_IN {
                    m.insert(id)
                } else {
                    m
                },
                _ => m,
            }
        } else {
            m
        }
    }
}

/// A scalar type: a float of a width, or an integer of a width and
/// signedness.
#[derive(Clone, Copy, Debug, PartialEq, Eq, Structural)]
pub enum ScalarType {
    Float(u32),
    Int { width: u32, signed: bool },
}

/// A vector type: its component type's id and component count.
#[derive(Clone, Copy, Debug, PartialEq, Eq, Structural)]
pub struct VectorType {
    pub component_type: u32,
    pub component_count: u32,
}

pub open spec fn scalars_from(ins: Seq<SpvInstruction>) -> Map<u32, ScalarType>
    decreases ins.len(),
{
    if ins.len() == 0 {
        Map::empty()
    } else {
        let m = scalars_from(ins.drop_last());
        let i = ins.last();
        if i.opcode == OP_TYPE_FLOAT {
            match (i.result_id, op_at(i, 0)) {
                (Some(id), Some(SpvOperand::LiteralBit32(w))) => m.insert(id, ScalarType::Float(w)),
                _ => m,
            }
        } else if i.opcode == OP_TYPE_INT {
            match (i.result_id, op_at(i, 0), op_at(i, 1)) {
                (Some(id), Some(SpvOperand::LiteralBit32(w)), Some(SpvOperand::LiteralBit32(sg))) => m.insert(
                    id,
                    ScalarType::Int { width: w, signed: sg == 1 },
                ),
                _ => m,
            }
        } else {
            m
        }
    }
}

pub open spec fn vectors_from(ins: Seq<SpvInstruction>) -> Map<u32, VectorType>
    decreases ins.len(),
{
    if ins.len() == 0 {
        Map::empty()
    } else {
        let m = vectors_from(ins.drop_last());
        let i = ins.last();
        if i.opcode == OP_TYPE_VECTOR {
            match (i.result_id, op_at(i, 0), op_at(i, 1)) {
                (Some(id), Some(SpvOperand::IdRef(c)), Some(SpvOperand::LiteralBit32(n))) => m.insert(
                    id,
                    VectorType { component_type: c, component_count: n },
                ),
                _ => m,
            }
        } else {
            m
        }
    }
}

pub open spec fn pointers_from(ins: Seq<SpvInstruction>) -> Map<u32, u32>
    decreases ins.len(),
{
    if ins.len() == 0 {
        Map::empty()
    } else {
        let m = pointers_from(ins.drop_last());
        let i = ins.last();
        if i.opcode == OP_TYPE_POINTER {
            match (i.result_id, op_at(i, 1)) {
                (Some(id), Some(SpvOperand::IdRef(p))) => m.insert(id, p),
                _ => m,
            }
        } else {
            m
        }
    }
}

/// The vertex format of type `type_id`: a vector of 2, 3 or 4 32-bit
/// floats, or of 4 32-bit signed or unsigned integers.
pub open spec fn primitive_of(type_id: u32, scalars: Map<u32, ScalarType>, vectors: Map<u32, VectorType>) -> Option<ShaderPrimitiveType> {
    if !vectors.contains_key(type_id) || !scalars.contains_key(vectors[type_id].component_type) {
        None
    } else {
        let v = vectors[type_id];
        match scalars[v.component_type] {
            ScalarType::Float(w) => if w == 32 && v.component_count == 2 {
                Some(ShaderPrimitiveType::Vec2)
            } else if w == 32 && v.component_count == 3 {
                Some(ShaderPrimitiveType::Vec3)
            } else if w == 32 && v.component_count == 4 {
                Some(ShaderPrimitiveType::Vec4)
            } else {
                None
            },
            ScalarType::Int { width, signed } => if width == 32 && v.component_count == 4 {
                if signed {
                    Some(ShaderPrimitiveType::IVec4)
                } else {
                    Some(ShaderPrimitiveType::UVec4)
                }
            } else {
                None
            },
        }
    }
}

/// Vertex formats follow the component types: after an `OpTypeInt` `i`
/// of 32 bits (signedness `sg`) and an `OpTypeVector` `v` of four `i`,
/// the format of `v` is `IVec4` for a signed integer (`sg` = 1) and
/// `UVec4` otherwise; after an `OpTypeFloat` of 32 bits and a vector of
/// 2, 3 or 4 of it, `Vec2`, `Vec3` or `Vec4`.
pub proof fn law_vector_formats(ins: Seq<SpvInstruction>, a: SpvInstruction, b: SpvInstruction, i: u32, v: u32, n: u32)
    requires
        i != v,
        a.result_id == Some(i),
        op_at(a, 0) == Some(SpvOperand::LiteralBit32(32)),
        b.opcode == 23,
        b.result_id == Some(v),
        op_at(b, 0) == Some(SpvOperand::IdRef(i)),
        op_at(b, 1) == Some(SpvOperand::LiteralBit32(n)),
    ensures
        ({
            let t = ins.push(a).push(b);
            &&& a.opcode == 21 && n == 4 ==> match op_at(a, 1) {
                Some(SpvOperand::LiteralBit32(sg)) => primitive_of(v, scalars_from(t), vectors_from(t)) == Some(
                    if sg == 1 {
                        ShaderPrimitiveType::IVec4
                    } else {
                        ShaderPrimitiveType::UVec4
                    },
                ),
                _ => true,
            }
            &&& a.opcode == 22 && n == 2 ==> primitive_of(v, scalars_from(t), vectors_from(t)) == Some(ShaderPrimitiveType::Vec2)
            &&& a.opcode == 22 && n == 3 ==> primitive_of(v, scalars_from(t), vectors_from(t)) == Some(ShaderPrimitiveType::Vec3)
            &&& a.opcode == 22 && n == 4 ==> primitive_of(v, scalars_from(t), vectors_from(t)) == Some(ShaderPrimitiveType::Vec4)
        }),
{
    let t = ins.push(a).push(b);
    assert(t.drop_last() == ins.push(a));
    assert(ins.push(a).drop_last() == ins);
    assert(t.last() == b);
    assert(ins.push(a).last() == a);
    assert(scalars_from(t) == scalars_from(ins.push(a)));
    assert(vectors_from(t) == vectors_from(ins.push(a)).insert(v, VectorType { component_type: i, component_count: n }));
    if a.opcode == 21 || a.opcode == 22 {
        assert(vectors_from(ins.push(a)) == vectors_from(ins));
    }
    if a.opcode == 22 {
        assert(scalars_from(ins.push(a)) == scalars_from(ins).insert(i, ScalarType::Float(32)));
    }
    if a.opcode == 21 {
        if let Some(SpvOperand::LiteralBit32(sg)) = op_at(a, 1) {
            assert(scalars_from(ins.push(a)) == scalars_from(ins).insert(i, ScalarType::Int { width: 32, signed: sg == 1 }));
        }
    }
}

/// The vertex format of type `type_id` (see `primitive_of`).
pub fn resolve_primitive(type_id: u32, scalars: &IdMap<ScalarType>, vectors: &IdMap<VectorType>) -> (r: Option<ShaderPrimitiveType>)
    requires
        scalars.wf(),
        vectors.wf(),
    ensures
        r == primitive_of(type_id, scalars@, vectors@),
{
    let v = match vectors.get(type_id) {
        Some(v) => *v,
        None => return None,
    };
    let sc = match scalars.get(v.component_type) {
        Some(s) => *s,
        None => return None,
    };
    match sc {
        ScalarType::Float(w) => {
            if w == 32 && v.component_count == 2 {
                Some(ShaderPrimitiveType::Vec2)
            } else if w == 32 && v.component_count == 3 {
                Some(ShaderPrimitiveType::Vec3)
            } else if w == 32 && v.component_count == 4 {
                Some(ShaderPrimitiveType::Vec4)
            } else {
                None
            }
        },
        ScalarType::Int { width, signed } => {
            if width == 32 && v.component_count == 4 {
                if signed {
                    Some(ShaderPrimitiveType::IVec4)
                } else {
                    Some(ShaderPrimitiveType::UVec4)
                }
            } else {
                None
            }
        },
    }
}

/// Bytes of a vertex attribute of each format.
pub open spec fn size_of_format(format: ShaderPrimitiveType) -> usize {
    match format {
        ShaderPrimitiveType::Vec2 => 8,
        ShaderPrimitiveType::Vec3 => 12,
        ShaderPrimitiveType::Vec4 => 16,
        ShaderPrimitiveType::IVec4 => 16,
        ShaderPrimitiveType::UVec4 => 16,
    }
}

pub fn primitive_size(format: ShaderPrimitiveType) -> (r: usize)
    ensures
        r == size_of_format(format),
{
    match format {
        ShaderPrimitiveType::Vec2 => 8,
        ShaderPrimitiveType::Vec3 => 12,
        ShaderPrimitiveType::Vec4 => 16,
        ShaderPrimitiveType::IVec4 => 16,
        ShaderPrimitiveType::UVec4 => 16,
    }
}

/// The maps that the module's sections give: names, locations, built-ins,
/// scalar, vector and pointer types.
pub struct SectionMaps {
    pub names: IdMap<String>,
    pub locations: IdMap<u32>,
    pub builtins: IdMap<()>,
    pub scalars: IdMap<ScalarType>,
    pub vectors: IdMap<VectorType>,
    pub pointers: IdMap<u32>,
}

pub open spec fn names_view(m: Map<u32, String>) -> Map<u32, Seq<char>> {
    m.map_values(|s: String| s@)
}

impl SectionMaps {
    pub open spec fn wf(&self) -> bool {
        self.names.wf() && self.locations.wf() && self.builtins.wf() && self.scalars.wf() && self.vectors.wf()
            && self.pointers.wf()
    }

    /// The maps are those of `module`.
    pub open spec fn of(&self, module: ModuleView) -> bool {
        &&& names_view(self.names@) == names_from(module.0)
        &&& self.locations@ == locations_from(module.1)
        &&& self.builtins@.dom() == builtins_from(module.1)
        &&& self.scalars@ == scalars_from(module.2)
        &&& self.vectors@ == vectors_from(module.2)
        &&& self.pointers@ == pointers_from(module.2)
    }
}

pub(crate) fn read_names(ins: &Vec<SpvInstruction>) -> (r: IdMap<String>)
    ensures
        r.wf(),
        names_view(r@) == names_from(ins@),
{
    let mut m: IdMap<String> = IdMap::new();
    let n = ins.len();
    let mut i: usize = 0;
    assert(ins@.take(0) =~= Seq::<SpvInstruction>::empty());
    assert(names_view(m@) =~= Map::<u32, Seq<char>>::empty());
    while i < n
        invariant
            i <= n == ins@.len(),
            m.wf(),
            names_view(m@) == names_from(ins@.take(i as int)),
        decreases n - i,
    {
        assert(ins@.take(i + 1).drop_last() =~= ins@.take(i as int));
        let x = &ins[i];
        if x.opcode == OP_NAME {
            match (op_at_exec(x, 0), op_at_exec(x, 1)) {
                (Some(SpvOperand::IdRef(id)), Some(SpvOperand::LiteralString(name))) => {
                    let ghost before = m@;
                    m.insert(*id, name.clone());
                    assert(names_view(m@) =~= names_view(before).insert(*id, name@));
                },
                _ => {},
            }
        }
        i = i + 1;
    }
    assert(ins@.take(n as int) =~= ins@);
    m
}

fn read_decorations(ins: &Vec<SpvInstruction>) -> (r: (IdMap<u32>, IdMap<()>))
    ensures
        r.0.wf(),
        r.1.wf(),
        r.0@ == locations_from(ins@),
        r.1@.dom() == builtins_from(ins@),
{
    let mut locations: IdMap<u32> = IdMap::new();
    let mut builtins: IdMap<()> = IdMap::new();
    let n = ins.len();
    let mut i: usize = 0;
    assert(ins@.take(0) =~= Seq::<SpvInstruction>::empty());
    assert(builtins@.dom() =~= Set::<u32>::empty());
    while i < n
        invariant
            i <= n == ins@.len(),
            locations.wf(),
            builtins.wf(),
            locations@ == locations_from(ins@.take(i as int)),
            builtins@.dom() == builtins_from(ins@.take(i as int)),
        decreases n - i,
    {
        assert(ins@.take(i + 1).drop_last() =~= ins@.take(i as int));
        let x = &ins[i];
        if x.opcode == OP_DECORATE {
            match (op_at_exec(x, 0), op_at_exec(x, 1), op_at_exec(x, 2)) {
                (Some(SpvOperand::IdRef(id)), Some(SpvOperand::Decoration(d)), Some(SpvOperand::LiteralBit32(loc))) => {
                    if *d == DECORATION_LOCATION {
                        locations.insert(*id, *loc);
                    }
                },
                (Some(SpvOperand::IdRef(id)), Some(SpvOperand::Decoration(d)), Some(SpvOperand::BuiltIn(_))) => {
                    if *d == DECORATION_BUILT_IN {
                        let ghost before = builtins@;
                        builtins.insert(*id, ());
                        assert(builtins@.dom() =~= before.dom().insert(*id));
                    }
                },
                _ => {},
            }
        }
        i = i + 1;
    }
    assert(ins@.take(n as int) =~= ins@);
    (locations, builtins)
}

fn read_types(ins: &Vec<SpvInstruction>) -> (r: (IdMap<ScalarType>, IdMap<VectorType>, IdMap<u32>))
    ensures
        r.0.wf(),
        r.1.wf(),
        r.2.wf(),
        r.0@ == scalars_from(ins@),
        r.1@ == vectors_from(ins@),
        r.2@ == pointers_from(ins@),
{
    let mut scalars: IdMap<ScalarType> = IdMap::new();
    let mut vectors: IdMap<VectorType> = IdMap::new();
    let mut pointers: IdMap<u32> = IdMap::new();
    let n = ins.len();
    let mut i: usize = 0;
    assert(ins@.take(0) =~= Seq::<SpvInstruction>::empty());
    while i < n
        invariant
            i <= n == ins@.len(),
            scalars.wf(),
            vectors.wf(),
            pointers.wf(),
            scalars@ == scalars_from(ins@.take(i as int)),
            vectors@ == vectors_from(ins@.take(i as int)),
            pointers@ == pointers_from(ins@.take(i as int)),
        decreases n - i,
    {
        assert(ins@.take(i + 1).drop_last() =~= ins@.take(i as int));
        let x = &ins[i];
        if x.opcode == OP_TYPE_FLOAT {
            match (x.result_id, op_at_exec(x, 0)) {
                (Some(id), Some(SpvOperand::LiteralBit32(w))) => {
                    scalars.insert(id, ScalarType::Float(*w));
                },
                _ => {},
            }
        } else if x.opcode == OP_TYPE_INT {
            match (x.result_id, op_at_exec(x, 0), op_at_exec(x, 1)) {
                (Some(id), Some(SpvOperand::LiteralBit32(w)), Some(SpvOperand::LiteralBit32(sg))) => {
                    scalars.insert(id, ScalarType::Int { width: *w, signed: *sg == 1 });
                },
                _ => {},
            }
        } else if x.opcode == OP_TYPE_VECTOR {
            match (x.result_id, op_at_exec(x, 0), op_at_exec(x, 1)) {
                (Some(id), Some(SpvOperand::IdRef(c)), Some(SpvOperand::LiteralBit32(cnt))) => {
                    vectors.insert(id, VectorType { component_type: *c, component_count: *cnt });
                },
                _ => {},
            }
        } else if x.opcode == OP_TYPE_POINTER {
            match (x.result_id, op_at_exec(x, 1)) {
                (Some(id), Some(SpvOperand::IdRef(p))) => {
                    pointers.insert(id, *p);
                },
                _ => {},
            }
        }
        i = i + 1;
    }
    assert(ins@.take(n as int) =~= ins@);
    (scalars, vectors, pointers)
}

/// Reads the maps of `module`'s sections (see `SectionMaps::of`).
pub fn read_sections(module: &SpvModule) -> (r: SectionMaps)
    ensures
        r.wf(),
        r.of(module@),
{
    let names = read_names(&module.debug_names);
    let (locations, builtins) = read_decorations(&module.annotations);
    let (scalars, vectors, pointers) = read_types(&module.types_global_values);
    SectionMaps { names, locations, builtins, scalars, vectors, pointers }
}

// ----------------------------------------------------------- interfaces

pub type InterfaceView = (Seq<char>, Option<u32>, Option<ShaderPrimitiveType>);

pub open spec fn iface_view(v: InterfaceVariable) -> InterfaceView {
    (v.name@, v.location, v.format)
}

pub open spec fn iface_views(v: Seq<InterfaceVariable>) -> Seq<InterfaceView> {
    v.map_values(|x: InterfaceVariable| iface_view(x))
}

pub open spec fn lookup<V>(m: Map<u32, V>, k: u32) -> Option<V> {
    if m.contains_key(k) {
        Some(m[k])
    } else {
        None
    }
}

/// The interface variable that `OpVariable` `ins` (result `id`) declares:
/// its debug name (else `var_<id>`), location and vertex format (through a
/// pointer type to its pointee).
pub open spec fn interface_of(module: ModuleView, ins: SpvInstruction, id: u32) -> InterfaceView {
    let names = names_from(module.0);
    let pointers = pointers_from(module.2);
    let name = if names.contains_key(id) {
        names[id]
    } else {
        "var_"@ + decimal(id as nat)
    };
    let format = match ins.result_type {
        None => None,
        Some(ty) => primitive_of(
            if pointers.contains_key(ty) {
                pointers[ty]
            } else {
                ty
            },
            scalars_from(module.2),
            vectors_from(module.2),
        ),
    };
    (name, lookup(locations_from(module.1), id), format)
}

/// The variables of storage class `class` among `vars`, in order; built-in
/// inputs are left out.
pub open spec fn interfaces_of(module: ModuleView, vars: Seq<SpvInstruction>, class: u32) -> Seq<InterfaceView>
    decreases vars.len(),
{
    if vars.len() == 0 {
        Seq::empty()
    } else {
        let before = interfaces_of(module, vars.drop_last(), class);
        let i = vars.last();
        if i.opcode == OP_VARIABLE {
            match (i.result_id, op_at(i, 0)) {
                (Some(id), Some(SpvOperand::StorageClass(sc))) => if sc == class && !(class == STORAGE_CLASS_INPUT
                    && builtins_from(module.1).contains(id)) {
                    before.push(interface_of(module, i, id))
                } else {
                    before
                },
                _ => before,
            }
        } else {
            before
        }
    }
}

/// Locations in order, no location first.
pub open spec fn loc_lt(a: Option<u32>, b: Option<u32>) -> bool {
    match (a, b) {
        (None, Some(_)) => true,
        (Some(x), Some(y)) => x < y,
        _ => false,
    }
}

/// `a <= b` in the order of strings.
pub open spec fn chars_le(a: Seq<char>, b: Seq<char>) -> bool
    decreases a.len(),
{
    if a.len() == 0 {
        true
    } else if b.len() == 0 {
        false
    } else if a[0] != b[0] {
        (a[0] as u32) < (b[0] as u32)
    } else {
        chars_le(a.drop_first(), b.drop_first())
    }
}

/// `a` sorts no later than `b`: by location, then name.
pub open spec fn iface_le(a: InterfaceView, b: InterfaceView) -> bool {
    loc_lt(a.1, b.1) || (a.1 == b.1 && chars_le(a.0, b.0))
}

pub open spec fn iface_insert_pos(s: Seq<InterfaceView>, x: InterfaceView) -> int
    decreases s.len(),
{
    if s.len() == 0 {
        0
    } else if iface_le(s.last(), x) {
        s.len() as int
    } else {
        iface_insert_pos(s.drop_last(), x)
    }
}

/// The stable sort of `s` by location, then name.
pub open spec fn sort_ifaces(s: Seq<InterfaceView>) -> Seq<InterfaceView>
    decreases s.len(),
{
    if s.len() == 0 {
        Seq::empty()
    } else {
        let t = sort_ifaces(s.drop_last());
        t.insert(iface_insert_pos(t, s.last()), s.last())
    }
}

pub proof fn lemma_iface_insert_pos(s: Seq<InterfaceView>, x: InterfaceView)
    ensures
        0 <= iface_insert_pos(s, x) <= s.len(),
    decreases s.len(),
{
    if s.len() > 0 && !iface_le(s.last(), x) {
        lemma_iface_insert_pos(s.drop_last(), x);
    }
}

proof fn lemma_chars_le_total(a: Seq<char>, b: Seq<char>)
    ensures
        chars_le(a, b) || chars_le(b, a),
    decreases a.len(),
{
    if a.len() > 0 && b.len() > 0 {
        if a[0] == b[0] {
            lemma_chars_le_total(a.drop_first(), b.drop_first());
        } else {
            vstd::utf8::char_u32_cast(a[0], a[0] as u32);
            vstd::utf8::char_u32_cast(b[0], b[0] as u32);
        }
    }
}

proof fn lemma_chars_le_trans(a: Seq<char>, b: Seq<char>, c: Seq<char>)
    requires
        chars_le(a, b),
        chars_le(b, c),
    ensures
        chars_le(a, c),
    decreases a.len(),
{
    if a.len() > 0 && b.len() > 0 && c.len() > 0 && a[0] == b[0] && b[0] == c[0] {
        lemma_chars_le_trans(a.drop_first(), b.drop_first(), c.drop_first());
    }
}

proof fn lemma_iface_le_total(a: InterfaceView, b: InterfaceView)
    ensures
        iface_le(a, b) || iface_le(b, a),
{
    lemma_chars_le_total(a.0, b.0);
}

proof fn lemma_iface_le_trans(a: InterfaceView, b: InterfaceView, c: InterfaceView)
    requires
        iface_le(a, b),
        iface_le(b, c),
    ensures
        iface_le(a, c),
{
    if a.1 == b.1 && b.1 == c.1 {
        lemma_chars_le_trans(a.0, b.0, c.0);
    }
}

/// Every pair of entries in order of location, then name.
pub open spec fn ifaces_sorted(s: Seq<InterfaceView>) -> bool {
    forall|i: int, j: int| 0 <= i < j < s.len() ==> iface_le(#[trigger] s[i], #[trigger] s[j])
}

proof fn lemma_iface_insert_sorted(t: Seq<InterfaceView>, x: InterfaceView)
    requires
        ifaces_sorted(t),
    ensures
        ifaces_sorted(t.insert(iface_insert_pos(t, x), x)),
    decreases t.len(),
{
    lemma_iface_insert_pos(t, x);
    let p = iface_insert_pos(t, x);
    let r = t.insert(p, x);
    t.insert_ensures(p, x);
    if t.len() == 0 {
    } else if iface_le(t.last(), x) {
        assert(p == t.len());
        assert forall|i: int, j: int| 0 <= i < j < r.len() implies iface_le(#[trigger] r[i], #[trigger] r[j]) by {
            if j == t.len() {
                assert(r[j] == x);
                assert(r[i] == t[i]);
                if i < t.len() - 1 {
                    assert(iface_le(t[i], t[t.len() - 1]));
                    lemma_iface_le_trans(t[i], t[t.len() - 1], x);
                }
            } else {
                assert(r[i] == t[i]);
                assert(r[j] == t[j]);
            }
        }
    } else {
        let u = t.drop_last();
        assert(ifaces_sorted(u)) by {
            assert forall|i: int, j: int| 0 <= i < j < u.len() implies iface_le(#[trigger] u[i], #[trigger] u[j]) by {
                assert(u[i] == t[i]);
                assert(u[j] == t[j]);
            }
        }
        lemma_iface_insert_sorted(u, x);
        assert(iface_insert_pos(t, x) == iface_insert_pos(u, x));
        lemma_iface_insert_pos(u, x);
        let ru = u.insert(p, x);
        u.insert_ensures(p, x);
        assert(r =~= ru.push(t.last()));
        lemma_iface_le_total(t.last(), x);
        assert forall|i: int, j: int| 0 <= i < j < r.len() implies iface_le(#[trigger] r[i], #[trigger] r[j]) by {
            if j == r.len() - 1 {
                assert(r[j] == t.last());
                if i == p {
                    assert(r[i] == x);
                } else if i < p {
                    assert(r[i] == t[i]);
                    assert(iface_le(t[i], t[t.len() - 1]));
                } else {
                    assert(r[i] == t[i - 1]);
                    assert(iface_le(t[i - 1], t[t.len() - 1]));
                }
            } else {
                assert(r[i] == ru[i]);
                assert(r[j] == ru[j]);
            }
        }
    }
}

/// Sorting interface variables puts every pair in order of location (no
/// location first), then name, and keeps every variable.
pub proof fn law_interfaces_sorted(s: Seq<InterfaceView>)
    ensures
        ifaces_sorted(sort_ifaces(s)),
        sort_ifaces(s).to_multiset() == s.to_multiset(),
    decreases s.len(),
{
    if s.len() > 0 {
        law_interfaces_sorted(s.drop_last());
        let t = sort_ifaces(s.drop_last());
        lemma_iface_insert_sorted(t, s.last());
        lemma_iface_insert_pos(t, s.last());
        let x = s.last();
        let p = iface_insert_pos(t, x);
        let r = t.insert(p, x);
        t.insert_ensures(p, x);
        assert(r.remove(p) =~= t);
        vstd::seq_lib::to_multiset_remove(r, p);
        vstd::seq_lib::to_multiset_build(s.drop_last(), x);
        assert(s.drop_last().push(x) =~= s);
        r.to_multiset_ensures();
        assert(r.contains(x)) by {
            assert(r[p] == x);
        }
        assert(r.to_multiset() =~= t.to_multiset().insert(x));
        assert(s.to_multiset() =~= s.drop_last().to_multiset().insert(x));
    } else {
        assert(sort_ifaces(s) =~= Seq::<InterfaceView>::empty());
        assert(s =~= Seq::<InterfaceView>::empty());
    }
}

fn chars_le_exec(a: &Vec<char>, b: &Vec<char>) -> (r: bool)
    ensures
        r == chars_le(a@, b@),
{
    let mut i: usize = 0;
    assert(a@.skip(0) =~= a@);
    assert(b@.skip(0) =~= b@);
    loop
        invariant
            i <= a@.len(),
            i <= b@.len(),
            chars_le(a@, b@) == chars_le(a@.skip(i as int), b@.skip(i as int)),
        decreases a@.len() - i,
    {
        if i == a.len() {
            assert(a@.skip(i as int).len() == 0);
            return true;
        }
        if i == b.len() {
            assert(b@.skip(i as int).len() == 0);
            return false;
        }
        assert(a@.skip(i as int)[0] == a@[i as int]);
        assert(b@.skip(i as int)[0] == b@[i as int]);
        if a[i] != b[i] {
            return (a[i] as u32) < (b[i] as u32);
        }
        assert(a@.skip(i as int).drop_first() =~= a@.skip(i + 1));
        assert(b@.skip(i as int).drop_first() =~= b@.skip(i + 1));
        i = i + 1;
    }
}

fn iface_le_exec(a: &InterfaceVariable, b: &InterfaceVariable) -> (r: bool)
    ensures
        r == iface_le(iface_view(*a), iface_view(*b)),
{
    let lt = match (a.location, b.location) {
        (None, Some(_)) => true,
        (Some(x), Some(y)) => x < y,
        _ => false,
    };
    if lt {
        return true;
    }
    let same = match (a.location, b.location) {
        (None, None) => true,
        (Some(x), Some(y)) => x == y,
        _ => false,
    };
    if !same {
        return false;
    }
    let ac = crate::text::chars_of(a.name.as_str());
    let bc = crate::text::chars_of(b.name.as_str());
    chars_le_exec(&ac, &bc)
}

fn insert_iface(v: &mut Vec<InterfaceVariable>, x: InterfaceVariable)
    ensures
        final(v)@.len() == old(v)@.len() + 1,
        iface_views(final(v)@) == iface_views(old(v)@).insert(iface_insert_pos(iface_views(old(v)@), iface_view(x)), iface_view(x)),
{
    let ghost vv = iface_views(v@);
    let ghost xv = iface_view(x);
    let mut p = v.len();
    proof {
        assert(vv.take(p as int) =~= vv);
    }
    while p > 0 && !iface_le_exec(&v[p - 1], &x)
        invariant
            p <= v@.len(),
            vv == iface_views(v@),
            xv == iface_view(x),
            iface_insert_pos(vv, xv) == iface_insert_pos(vv.take(p as int), xv),
        decreases p,
    {
        proof {
            assert(vv.take(p as int).drop_last() =~= vv.take(p - 1));
            assert(vv.take(p as int).last() == iface_view(v@[p - 1]));
        }
        p = p - 1;
    }
    proof {
        if p > 0 {
            assert(vv.take(p as int).last() == iface_view(v@[p - 1]));
        }
        lemma_iface_insert_pos(vv, xv);
    }
    v.insert(p, x);
    assert(iface_views(v@) =~= vv.insert(p as int, xv));
}

fn var_name_exec(maps: &SectionMaps, id: u32) -> (r: String)
    requires
        maps.wf(),
    ensures
        r@ == (if names_view(maps.names@).contains_key(id) {
            names_view(maps.names@)[id]
        } else {
            "var_"@ + decimal(id as nat)
        }),
{
    match maps.names.get(id) {
        Some(n) => n.clone(),
        None => {
            let mut out = String::new();
            push_all(&mut out, "var_");
            let t = u32_to_string(id);
            push_all(&mut out, t.as_str());
            assert(out@ =~= "var_"@ + decimal(id as nat));
            out
        },
    }
}

/// The input and output variables of `module`, each sorted by location and
/// name.
pub fn read_interfaces(module: &SpvModule, maps: &SectionMaps) -> (r: (Vec<InterfaceVariable>, Vec<InterfaceVariable>))
    requires
        maps.wf(),
        maps.of(module@),
    ensures
        iface_views(r.0@) == sort_ifaces(interfaces_of(module@, module.types_global_values@, STORAGE_CLASS_INPUT)),
        iface_views(r.1@) == sort_ifaces(interfaces_of(module@, module.types_global_values@, STORAGE_CLASS_OUTPUT)),
        r.0@.len() <= module.types_global_values@.len(),
{
    let ghost vars = module.types_global_values@;
    let mut inputs: Vec<InterfaceVariable> = Vec::new();
    let mut outputs: Vec<InterfaceVariable> = Vec::new();
    let ghost mut ins_seen: Seq<InterfaceView> = Seq::empty();
    let ghost mut outs_seen: Seq<InterfaceView> = Seq::empty();
    let n = module.types_global_values.len();
    let mut i: usize = 0;
    assert(vars.take(0) =~= Seq::<SpvInstruction>::empty());
    assert(iface_views(inputs@) =~= Seq::<InterfaceView>::empty());
    assert(iface_views(outputs@) =~= Seq::<InterfaceView>::empty());
    while i < n
        invariant
            i <= n == vars.len(),
            vars == module.types_global_values@,
            maps.wf(),
            maps.of(module@),
            ins_seen == interfaces_of(module@, vars.take(i as int), STORAGE_CLASS_INPUT),
            outs_seen == interfaces_of(module@, vars.take(i as int), STORAGE_CLASS_OUTPUT),
            iface_views(inputs@) == sort_ifaces(ins_seen),
            iface_views(outputs@) == sort_ifaces(outs_seen),
            inputs@.len() <= i,
        decreases n - i,
    {
        assert(vars.take(i + 1).drop_last() =~= vars.take(i as int));
        let x = &module.types_global_values[i];
        if x.opcode == OP_VARIABLE {
            match (x.result_id, op_at_exec(x, 0)) {
                (Some(id), Some(SpvOperand::StorageClass(sc))) => {
                    let is_input = *sc == STORAGE_CLASS_INPUT;
                    let is_output = *sc == STORAGE_CLASS_OUTPUT;
                    if is_input || is_output {
                        let builtin = maps.builtins.get(id).is_some();
                        if is_output || !builtin {
                            let name = var_name_exec(maps, id);
                            let location = match maps.locations.get(id) {
                                Some(l) => Some(*l),
                                None => None,
                            };
                            let ty = match x.result_type {
                                Some(ty) => match maps.pointers.get(ty) {
                                    Some(p) => Some(*p),
                                    None => Some(ty),
                                },
                                None => None,
                            };
                            let format = match ty {
                                Some(t) => resolve_primitive(t, &maps.scalars, &maps.vectors),
                                None => None,
                            };
                            let v = InterfaceVariable { name, location, format };
                            proof {
                                assert(iface_view(v) == interface_of(module@, *x, id));
                            }
                            if is_input {
                                let ghost old_seen = ins_seen;
                                insert_iface(&mut inputs, v);
                                proof {
                                    ins_seen = ins_seen.push(iface_view(v));
                                    assert(ins_seen.drop_last() =~= old_seen);
                                }
                            } else {
                                let ghost old_seen = outs_seen;
                                insert_iface(&mut outputs, v);
                                proof {
                                    outs_seen = outs_seen.push(iface_view(v));
                                    assert(outs_seen.drop_last() =~= old_seen);
                                }
                            }
                        }
                    }
                },
                _ => {},
            }
        }
        i = i + 1;
    }
    assert(vars.take(n as int) =~= vars);
    (inputs, outputs)
}

// ------------------------------------------------------- entry points

/// The names of the entry points, in order.
pub open spec fn entry_names(eps: Seq<SpvInstruction>) -> Seq<Seq<char>>
    decreases eps.len(),
{
    if eps.len() == 0 {
        Seq::empty()
    } else {
        let before = entry_names(eps.drop_last());
        let i = eps.last();
        if i.opcode == OP_ENTRY_POINT {
            match op_at(i, 2) {
                Some(SpvOperand::LiteralString(n)) => before.push(n@),
                _ => before,
            }
        } else {
            before
        }
    }
}

/// Whether an entry point runs in the vertex stage.
pub open spec fn has_vertex_entry(eps: Seq<SpvInstruction>) -> bool
    decreases eps.len(),
{
    if eps.len() == 0 {
        false
    } else {
        let i = eps.last();
        has_vertex_entry(eps.drop_last()) || (i.opcode == OP_ENTRY_POINT && op_at(i, 0) == Some(
            SpvOperand::ExecutionModel(EXECUTION_MODEL_VERTEX),
        ))
    }
}

pub open spec fn strings_view(v: Seq<String>) -> Seq<Seq<char>> {
    v.map_values(|s: String| s@)
}

fn read_entry_points(eps: &Vec<SpvInstruction>) -> (r: (Vec<String>, bool))
    ensures
        strings_view(r.0@) == entry_names(eps@),
        r.1 == has_vertex_entry(eps@),
{
    let mut names: Vec<String> = Vec::new();
    let mut vertex = false;
    let n = eps.len();
    let mut i: usize = 0;
    assert(eps@.take(0) =~= Seq::<SpvInstruction>::empty());
    assert(strings_view(names@) =~= Seq::<Seq<char>>::empty());
    while i < n
        invariant
            i <= n == eps@.len(),
            strings_view(names@) == entry_names(eps@.take(i as int)),
            vertex == has_vertex_entry(eps@.take(i as int)),
        decreases n - i,
    {
        assert(eps@.take(i + 1).drop_last() =~= eps@.take(i as int));
        let x = &eps[i];
        if x.opcode == OP_ENTRY_POINT {
            match op_at_exec(x, 0) {
                Some(SpvOperand::ExecutionModel(m)) => {
                    if *m == EXECUTION_MODEL_VERTEX {
                        vertex = true;
                    }
                },
                _ => {},
            }
            match op_at_exec(x, 2) {
                Some(SpvOperand::LiteralString(name)) => {
                    let ghost before = strings_view(names@);
                    names.push(name.clone());
                    assert(strings_view(names@) =~= before.push(name@));
                },
                _ => {},
            }
        }
        i = i + 1;
    }
    assert(eps@.take(n as int) =~= eps@);
    (names, vertex)
}

// ------------------------------------------------------- vertex layout

/// The inputs that have both a location and a vertex format.
pub open spec fn attributes_of(ifs: Seq<InterfaceView>) -> Seq<(u32, ShaderPrimitiveType)>
    decreases ifs.len(),
{
    if ifs.len() == 0 {
        Seq::empty()
    } else {
        let before = attributes_of(ifs.drop_last());
        match (ifs.last().1, ifs.last().2) {
            (Some(l), Some(f)) => before.push((l, f)),
            _ => before,
        }
    }
}

pub open spec fn attr_insert_pos(s: Seq<(u32, ShaderPrimitiveType)>, x: (u32, ShaderPrimitiveType)) -> int
    decreases s.len(),
{
    if s.len() == 0 {
        0
    } else if s.last().0 <= x.0 {
        s.len() as int
    } else {
        attr_insert_pos(s.drop_last(), x)
    }
}

/// The stable sort of `s` by location.
pub open spec fn sort_attrs(s: Seq<(u32, ShaderPrimitiveType)>) -> Seq<(u32, ShaderPrimitiveType)>
    decreases s.len(),
{
    if s.len() == 0 {
        Seq::empty()
    } else {
        let t = sort_attrs(s.drop_last());
        t.insert(attr_insert_pos(t, s.last()), s.last())
    }
}

pub proof fn lemma_attr_insert_pos(s: Seq<(u32, ShaderPrimitiveType)>, x: (u32, ShaderPrimitiveType))
    ensures
        0 <= attr_insert_pos(s, x) <= s.len(),
    decreases s.len(),
{
    if s.len() > 0 && s.last().0 > x.0 {
        lemma_attr_insert_pos(s.drop_last(), x);
    }
}

/// Bytes that the attributes take, packed one after another.
pub open spec fn packed_size(attrs: Seq<(u32, ShaderPrimitiveType)>) -> nat
    decreases attrs.len(),
{
    if attrs.len() == 0 {
        0
    } else {
        packed_size(attrs.drop_last()) + size_of_format(attrs.last().1) as nat
    }
}

/// The packed entries: each attribute right after the one before.
pub open spec fn packed_entries(attrs: Seq<(u32, ShaderPrimitiveType)>) -> Seq<VertexEntry>
    decreases attrs.len(),
{
    if attrs.len() == 0 {
        Seq::empty()
    } else {
        packed_entries(attrs.drop_last()).push(
            VertexEntry { format: attrs.last().1, location: attrs.last().0 as usize, offset: packed_size(attrs.drop_last()) as usize },
        )
    }
}

proof fn lemma_packed_size_bound(attrs: Seq<(u32, ShaderPrimitiveType)>)
    ensures
        packed_size(attrs) <= 16 * attrs.len(),
    decreases attrs.len(),
{
    if attrs.len() > 0 {
        lemma_packed_size_bound(attrs.drop_last());
    }
}

proof fn lemma_attributes_len(ifs: Seq<InterfaceView>)
    ensures
        attributes_of(ifs).len() <= ifs.len(),
    decreases ifs.len(),
{
    if ifs.len() > 0 {
        lemma_attributes_len(ifs.drop_last());
    }
}

proof fn lemma_sort_attrs_len(s: Seq<(u32, ShaderPrimitiveType)>)
    ensures
        sort_attrs(s).len() == s.len(),
    decreases s.len(),
{
    if s.len() > 0 {
        lemma_sort_attrs_len(s.drop_last());
        let t = sort_attrs(s.drop_last());
        lemma_attr_insert_pos(t, s.last());
        t.insert_ensures(attr_insert_pos(t, s.last()), s.last());
    }
}

/// The vertex layout of a vertex shader's sorted inputs: the located and
/// formatted ones sorted by location and packed; none when no input
/// qualifies.
pub open spec fn vertex_layout_of(inputs: Seq<InterfaceView>) -> Option<(Seq<VertexEntry>, nat)> {
    let attrs = sort_attrs(attributes_of(inputs));
    if attrs.len() == 0 {
        None
    } else {
        Some((packed_entries(attrs), packed_size(attrs)))
    }
}

fn insert_attr(v: &mut Vec<(u32, ShaderPrimitiveType)>, x: (u32, ShaderPrimitiveType))
    ensures
        final(v)@ == old(v)@.insert(attr_insert_pos(old(v)@, x), x),
{
    let ghost vv = v@;
    let mut p = v.len();
    proof {
        assert(vv.take(p as int) =~= vv);
    }
    while p > 0 && v[p - 1].0 > x.0
        invariant
            p <= v@.len(),
            vv == v@,
            attr_insert_pos(vv, x) == attr_insert_pos(vv.take(p as int), x),
        decreases p,
    {
        proof {
            assert(vv.take(p as int).drop_last() =~= vv.take(p - 1));
        }
        p = p - 1;
    }
    proof {
        lemma_attr_insert_pos(vv, x);
    }
    v.insert(p, x);
}

/// The vertex layout of the sorted inputs (see `vertex_layout_of`).
pub fn vertex_layout(inputs: &Vec<InterfaceVariable>) -> (r: Option<VertexLayout>)
    requires
        16 * inputs@.len() <= usize::MAX,
    ensures
        match vertex_layout_of(iface_views(inputs@)) {
            Some((entries, stride)) => r matches Some(l) && l.entries@ == entries && l.stride == stride
                && l.rate == VertexRate::Vertex,
            None => r is None,
        },
{
    let ghost iv = iface_views(inputs@);
    let mut attrs: Vec<(u32, ShaderPrimitiveType)> = Vec::new();
    let n = inputs.len();
    let mut i: usize = 0;
    assert(iv.take(0) =~= Seq::<InterfaceView>::empty());
    while i < n
        invariant
            i <= n == inputs@.len(),
            iv == iface_views(inputs@),
            attrs@ == sort_attrs(attributes_of(iv.take(i as int))),
        decreases n - i,
    {
        assert(iv.take(i + 1).drop_last() =~= iv.take(i as int));
        assert(iv.take(i + 1).last() == iface_view(inputs@[i as int]));
        match (inputs[i].location, inputs[i].format) {
            (Some(l), Some(f)) => {
                let ghost prev = attributes_of(iv.take(i as int));
                assert(attributes_of(iv.take(i + 1)) == prev.push((l, f)));
                assert(prev.push((l, f)).drop_last() =~= prev);
                insert_attr(&mut attrs, (l, f));
            },
            _ => {},
        }
        i = i + 1;
    }
    assert(iv.take(n as int) =~= iv);
    proof {
        lemma_attributes_len(iv);
        lemma_sort_attrs_len(attributes_of(iv));
        lemma_packed_size_bound(attrs@);
    }
    if attrs.len() == 0 {
        return None;
    }
    let mut entries: Vec<VertexEntry> = Vec::new();
    let mut offset: usize = 0;
    let m = attrs.len();
    let mut k: usize = 0;
    assert(attrs@.take(0) =~= Seq::<(u32, ShaderPrimitiveType)>::empty());
    while k < m
        invariant
            k <= m == attrs@.len(),
            16 * m <= usize::MAX,
            entries@ == packed_entries(attrs@.take(k as int)),
            offset == packed_size(attrs@.take(k as int)),
        decreases m - k,
    {
        assert(attrs@.take(k + 1).drop_last() =~= attrs@.take(k as int));
        proof {
            lemma_packed_size_bound(attrs@.take(k + 1));
        }
        let (l, f) = attrs[k];
        entries.push(VertexEntry { format: f, location: l as usize, offset });
        offset = offset + primitive_size(f);
        k = k + 1;
    }
    assert(attrs@.take(m as int) =~= attrs@);
    Some(VertexLayout { entries, stride: offset, rate: VertexRate::Vertex })
}

// ---------------------------------------------------------------- metadata

/// What the metadata of `module` is, given the compute group size.
pub open spec fn is_module_metadata(r: ShaderMetadata, module: ModuleView, group_size: Option<(u32, u32, u32)>) -> bool {
    &&& strings_view(r.entry_points@) == entry_names(module.3)
    &&& iface_views(r.inputs@) == sort_ifaces(interfaces_of(module, module.2, STORAGE_CLASS_INPUT))
    &&& iface_views(r.outputs@) == sort_ifaces(interfaces_of(module, module.2, STORAGE_CLASS_OUTPUT))
    &&& r.workgroup_size == (match group_size {
        Some((x, y, z)) => Some([x, y, z]),
        None => None,
    })
    &&& !has_vertex_entry(module.3) ==> r.vertex is None
    &&& has_vertex_entry(module.3) ==> match vertex_layout_of(iface_views(r.inputs@)) {
        Some((entries, stride)) => r.vertex matches Some(l) && l.entries@ == entries && l.stride == stride
            && l.rate == VertexRate::Vertex,
        None => r.vertex is None,
    }
}

/// Reflected inputs and outputs come in order of location (no location
/// first), then name.
pub proof fn law_metadata_interfaces_sorted(r: ShaderMetadata, module: ModuleView, group_size: Option<(u32, u32, u32)>)
    requires
        is_module_metadata(r, module, group_size),
    ensures
        ifaces_sorted(iface_views(r.inputs@)),
        ifaces_sorted(iface_views(r.outputs@)),
{
    law_interfaces_sorted(interfaces_of(module, module.2, STORAGE_CLASS_INPUT));
    law_interfaces_sorted(interfaces_of(module, module.2, STORAGE_CLASS_OUTPUT));
}

/// The metadata of `module` (see `is_module_metadata`): entry point names,
/// inputs and outputs sorted by location then name, the compute group size,
/// and for a module with a vertex entry point the packed vertex layout of
/// its inputs.
pub fn metadata_from_module(module: &SpvModule, group_size: Option<(u32, u32, u32)>) -> (r: ShaderMetadata)
    requires
        16 * module.types_global_values@.len() <= usize::MAX,
    ensures
        is_module_metadata(r, module@, group_size),
{
    let maps = read_sections(module);
    let (inputs, outputs) = read_interfaces(module, &maps);
    let (entry_points, has_vertex) = read_entry_points(&module.entry_points);
    let workgroup_size = match group_size {
        Some((x, y, z)) => Some([x, y, z]),
        None => None,
    };
    let vertex = if has_vertex {
        vertex_layout(&inputs)
    } else {
        None
    };
    ShaderMetadata { entry_points, inputs, outputs, workgroup_size, vertex }
}

// ------------------------------------------------------------- reading

/// What `rspirv_reflect` parses out of the SPIR-V bytes `bytes`: the
/// sections that metadata reads, with the compute group size, or the
/// parse error's message.  Each instruction keeps its opcode, ids and
/// operands; the operand kinds that reflection reads keep their number,
/// the others are `Other`.
pub uninterp spec fn spirv_module_of(bytes: Seq<u8>) -> Result<(ModuleView, Option<(u32, u32, u32)>), Seq<char>>;

/// An instruction's opcode, result id and result type id.
pub type Head = (u32, Option<u32>, Option<u32>);

pub open spec fn heads_of(s: Seq<SpvInstruction>) -> Seq<Head> {
    s.map_values(|i: SpvInstruction| (i.opcode, i.result_id, i.result_type))
}

/// `rspirv_reflect::Reflection::new_from_spirv`, then
/// `Reflection::get_compute_group_size`: the heads of each section's
/// instructions and the group size, as `spirv_module_of` names them.
#[verifier::external_body]
fn read_heads(bytes: &[u8]) -> (r: Result<((Vec<Head>, Vec<Head>, Vec<Head>, Vec<Head>), Option<(u32, u32, u32)>), String>)
    ensures
        match r {
            Ok((h, gs)) => spirv_module_of(bytes@) matches Ok((m, g)) && g == gs && h.0@ == heads_of(m.0) && h.1@
                == heads_of(m.1) && h.2@ == heads_of(m.2) && h.3@ == heads_of(m.3),
            Err(e) => spirv_module_of(bytes@) == Err::<(ModuleView, Option<(u32, u32, u32)>), Seq<char>>(e@),
        },
{
    let r = Reflection::new_from_spirv(bytes).map_err(|e| e.to_string())?;
    let h = |s: &Vec<Instruction>| s.iter().map(|i| (i.class.opcode as u32, i.result_id, i.result_type)).collect();
    let m = &r.0;
    Ok(((h(&m.debug_names), h(&m.annotations), h(&m.types_global_values), h(&m.entry_points)), r.get_compute_group_size()))
}

/// `rspirv_reflect::Reflection::new_from_spirv`: the operands of each
/// instruction of section `section`, as `spirv_module_of` names them;
/// nothing when the bytes do not parse.
#[verifier::external_body]
fn read_section_operands(bytes: &[u8], section: usize) -> (r: Option<Vec<Vec<SpvOperand>>>)
    requires
        section < 4,
    ensures
        match r {
            Some(v) => spirv_module_of(bytes@) matches Ok((m, _)) && v@.len() == section_of(m, section as int).len()
                && forall|k: int| 0 <= k < v@.len() ==> #[trigger] v@[k] == section_of(m, section as int)[k].operands,
            None => spirv_module_of(bytes@) is Err,
        },
{
    let r = Reflection::new_from_spirv(bytes).ok()?;
    let m = &r.0;
    Some([&m.debug_names, &m.annotations, &m.types_global_values, &m.entry_points][section].iter().map(|i| i.operands.iter().map(|o| match *o {
        RIdRef(v) => IdRef(v),
        RBit32(v) => LiteralBit32(v),
        RBit64(v) => LiteralBit64(v),
        RString(ref v) => LiteralString(v.clone()),
        RDecoration(v) => Decoration(v as u32),
        RBuiltIn(v) => BuiltIn(v as u32),
        RStorage(v) => StorageClass(v as u32),
        RModel(v) => ExecutionModel(v as u32),
        RDim(v) => Dim(v as u32),
        _ => Other,
    }).collect()).collect())
}

/// Puts each head together with its operands.
fn join_section(heads: Vec<Head>, operands: Vec<Vec<SpvOperand>>) -> (r: Vec<SpvInstruction>)
    requires
        heads@.len() == operands@.len(),
    ensures
        r@.len() == heads@.len(),
        forall|k: int| 0 <= k < r@.len() ==> #[trigger] r@[k] == (SpvInstruction {
            opcode: heads@[k].0,
            result_id: heads@[k].1,
            result_type: heads@[k].2,
            operands: operands@[k],
        }),
{
    let mut rest = operands;
    let mut out: Vec<SpvInstruction> = Vec::new();
    let n = heads.len();
    let mut k: usize = 0;
    while k < n
        invariant
            k <= n == heads@.len() == operands@.len(),
            rest@ == operands@.skip(k as int),
            out@.len() == k,
            forall|j: int| 0 <= j < k ==> #[trigger] out@[j] == (SpvInstruction {
                opcode: heads@[j].0,
                result_id: heads@[j].1,
                result_type: heads@[j].2,
                operands: operands@[j],
            }),
        decreases n - k,
    {
        let ops = rest.remove(0);
        assert(ops == operands@[k as int]);
        assert(rest@ =~= operands@.skip(k + 1));
        let h = heads[k];
        out.push(SpvInstruction { opcode: h.0, result_id: h.1, result_type: h.2, operands: ops });
        k = k + 1;
    }
    out
}

proof fn lemma_joined(r: Seq<SpvInstruction>, heads: Seq<Head>, operands: Seq<Vec<SpvOperand>>, s: Seq<SpvInstruction>)
    requires
        heads == heads_of(s),
        operands.len() == s.len(),
        forall|k: int| 0 <= k < operands.len() ==> #[trigger] operands[k] == s[k].operands,
        r.len() == heads.len(),
        forall|k: int| 0 <= k < r.len() ==> #[trigger] r[k] == (SpvInstruction {
            opcode: heads[k].0,
            result_id: heads[k].1,
            result_type: heads[k].2,
            operands: operands[k],
        }),
    ensures
        r == s,
{
    assert forall|k: int| 0 <= k < r.len() implies #[trigger] r[k] == s[k] by {
        assert(heads[k] == (s[k].opcode, s[k].result_id, s[k].result_type));
        assert(operands[k] == s[k].operands);
    }
    assert(r =~= s);
}

/// The module that `rspirv_reflect` parses out of `bytes` (see
/// `spirv_module_of`), with its compute group size.
pub(crate) fn read_module(bytes: &[u8]) -> (r: Result<(SpvModule, Option<(u32, u32, u32)>), String>)
    ensures
        match r {
            Ok((m, gs)) => spirv_module_of(bytes@) == Ok::<(ModuleView, Option<(u32, u32, u32)>), Seq<char>>((m@, gs)),
            Err(e) => spirv_module_of(bytes@) == Err::<(ModuleView, Option<(u32, u32, u32)>), Seq<char>>(e@),
        },
{
    let (heads, group_size) = read_heads(bytes)?;
    let ghost m = spirv_module_of(bytes@)->Ok_0.0;
    let (h0, h1, h2, h3) = heads;
    let (o0, o1, o2, o3) = match (
        read_section_operands(bytes, 0),
        read_section_operands(bytes, 1),
        read_section_operands(bytes, 2),
        read_section_operands(bytes, 3),
    ) {
        (Some(o0), Some(o1), Some(o2), Some(o3)) => (o0, o1, o2, o3),
        _ => {
            // `read_heads` parsed the bytes, so every section reads
            proof {
                assert(false);
            }
            return Err(String::new());
        },
    };
    let debug_names = join_section(h0, o0);
    let annotations = join_section(h1, o1);
    let types_global_values = join_section(h2, o2);
    let entry_points = join_section(h3, o3);
    proof {
        lemma_joined(debug_names@, h0@, o0@, m.0);
        lemma_joined(annotations@, h1@, o1@, m.1);
        lemma_joined(types_global_values@, h2@, o2@, m.2);
        lemma_joined(entry_points@, h3@, o3@, m.3);
    }
    let module = SpvModule { debug_names, annotations, types_global_values, entry_points };
    assert(module@ == m);
    Ok((module, group_size))
}

pub open spec fn module_too_large_message() -> Seq<char> {
    "SPIR-V module is too large to reflect"@
}

/// The stage metadata of the SPIR-V bytes `spirv_bytes` (see
/// `is_module_metadata`); a module that does not parse is a compilation
/// error with the parser's message, and one with more types and globals
/// than a vertex layout's offsets could count is refused the same way.
pub fn reflect_metadata(spirv_bytes: &[u8]) -> (r: Result<ShaderMetadata, BentoError>)
    ensures
        match spirv_module_of(spirv_bytes@) {
            Err(e) => r matches Err(BentoError::ShaderCompilation(x)) && x@ == e,
            Ok((m, gs)) => if 16 * m.2.len() <= usize::MAX {
                r matches Ok(md) && is_module_metadata(md, m, gs)
            } else {
                r matches Err(BentoError::ShaderCompilation(x)) && x@ == module_too_large_message()
            },
        },
{
    match read_module(spirv_bytes) {
        Err(e) => Err(BentoError::ShaderCompilation(e)),
        Ok((module, group_size)) => {
            if module.types_global_values.len() > usize::MAX / 16 {
                let mut msg = String::new();
                push_all(&mut msg, "SPIR-V module is too large to reflect");
                assert(msg@ =~= module_too_large_message());
                return Err(BentoError::ShaderCompilation(msg));
            }
            Ok(metadata_from_module(&module, group_size))
        },
    }
}

} // verus!
