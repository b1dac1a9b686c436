//! What `rspirv_reflect`'s descriptor reader does with a parsed SPIR-V
//! module: read it, fail with an error, or stop on one of its assertions.

use vstd::prelude::*;

use rspirv_reflect::Reflection;

use super::metadata::{
    names_from, names_view, op_at, read_names, ModuleView, SpvInstruction, SpvModule, SpvOperand, OP_NAME, OP_TYPE_INT,
    OP_TYPE_POINTER, OP_VARIABLE,
};
use crate::text::chars_of;
use super::rewrite::{DECORATION_BINDING, DECORATION_DESCRIPTOR_SET};

verus! {

pub const OP_TYPE_IMAGE: u32 = 25;
pub const OP_TYPE_SAMPLED_IMAGE: u32 = 27;
pub const OP_TYPE_ARRAY: u32 = 28;
pub const OP_TYPE_RUNTIME_ARRAY: u32 = 29;
pub const OP_TYPE_STRUCT: u32 = 30;
pub const OP_CONSTANT: u32 = 43;
pub const DECORATION_BLOCK: u32 = 2;
pub const DECORATION_BUFFER_BLOCK: u32 = 3;
pub const DIM_BUFFER: u32 = 5;
pub const DIM_SUBPASS_DATA: u32 = 6;
pub const STORAGE_CLASS_UNIFORM_CONSTANT: u32 = 0;
pub const STORAGE_CLASS_UNIFORM: u32 = 2;
pub const STORAGE_CLASS_STORAGE_BUFFER: u32 = 12;
pub const OP_TYPE_SAMPLER: u32 = 26;
pub const OP_TYPE_ACCELERATION_STRUCTURE: u32 = 5341;
pub const DESCRIPTOR_SAMPLER: u32 = 0;
pub const DESCRIPTOR_COMBINED_IMAGE_SAMPLER: u32 = 1;
pub const DESCRIPTOR_SAMPLED_IMAGE: u32 = 2;
pub const DESCRIPTOR_STORAGE_IMAGE: u32 = 3;
pub const DESCRIPTOR_UNIFORM_TEXEL_BUFFER: u32 = 4;
pub const DESCRIPTOR_STORAGE_TEXEL_BUFFER: u32 = 5;
pub const DESCRIPTOR_UNIFORM_BUFFER: u32 = 6;
pub const DESCRIPTOR_STORAGE_BUFFER: u32 = 7;
pub const DESCRIPTOR_INPUT_ATTACHMENT: u32 = 10;
pub const DESCRIPTOR_ACCELERATION_STRUCTURE: u32 = 1000150000;

/// The header version (major, minor) of the module `rspirv_reflect`
/// parses out of `bytes`; `None` when the bytes do not parse or the
/// module has no header.
pub uninterp spec fn spirv_version_of(bytes: Seq<u8>) -> Option<(u8, u8)>;

/// `rspirv_reflect::Reflection::new_from_spirv`, then the module header's
/// `version()`: what `spirv_version_of` names for the bytes.
#[verifier::external_body]
pub(crate) fn read_version(bytes: &[u8]) -> (r: Option<(u8, u8)>)
    ensures
        r == spirv_version_of(bytes@),
{
    let r = Reflection::new_from_spirv(bytes).ok()?;
    Some(r.0.header?.version())
}

// ------------------------------------------------------------ lookups

/// The first instruction from `k` on that assigns `id`.
pub open spec fn first_def(tys: Seq<SpvInstruction>, id: u32, k: int) -> Option<SpvInstruction>
    decreases tys.len() - k,
{
    if k < 0 || k >= tys.len() {
        None
    } else if tys[k].result_id == Some(id) {
        Some(tys[k])
    } else {
        first_def(tys, id, k + 1)
    }
}

fn first_def_exec(tys: &Vec<SpvInstruction>, id: u32) -> (r: Option<usize>)
    ensures
        match first_def(tys@, id, 0) {
            Some(t) => r matches Some(i) && i < tys@.len() && tys@[i as int] == t,
            None => r is None,
        },
{
    let mut k: usize = 0;
    while k < tys.len()
        invariant
            k <= tys@.len(),
            first_def(tys@, id, 0) == first_def(tys@, id, k as int),
        decreases tys@.len() - k,
    {
        if tys[k].result_id == Some(id) {
            return Some(k);
        }
        k = k + 1;
    }
    None
}

/// `a` is an annotation of `id` (its first operand names it) with the
/// decoration `d` among its operands.
pub open spec fn decorates(a: SpvInstruction, id: u32, d: u32) -> bool {
    &&& op_at(a, 0) == Some(SpvOperand::IdRef(id))
    &&& exists|j: int| 0 <= j < a.operands@.len() && a.operands@[j] == SpvOperand::Decoration(d)
}

pub open spec fn has_decoration(anns: Seq<SpvInstruction>, id: u32, d: u32) -> bool {
    exists|i: int| 0 <= i < anns.len() && #[trigger] decorates(anns[i], id, d)
}

fn decorates_exec(a: &SpvInstruction, id: u32, d: u32) -> (r: bool)
    ensures
        r == decorates(*a, id, d),
{
    if a.operands.len() == 0 {
        return false;
    }
    match &a.operands[0] {
        SpvOperand::IdRef(x) => {
            if *x != id {
                return false;
            }
        },
        _ => {
            return false;
        },
    }
    assert(op_at(*a, 0) == Some(SpvOperand::IdRef(id)));
    let mut j: usize = 0;
    while j < a.operands.len()
        invariant
            j <= a.operands@.len(),
            op_at(*a, 0) == Some(SpvOperand::IdRef(id)),
            forall|i: int| 0 <= i < j ==> a.operands@[i] != SpvOperand::Decoration(d),
        decreases a.operands@.len() - j,
    {
        match &a.operands[j] {
            SpvOperand::Decoration(x) => {
                if *x == d {
                    assert(a.operands@[j as int] == SpvOperand::Decoration(d));
                    return true;
                }
            },
            _ => {},
        }
        j = j + 1;
    }
    false
}

fn has_decoration_exec(anns: &Vec<SpvInstruction>, id: u32, d: u32) -> (r: bool)
    ensures
        r == has_decoration(anns@, id, d),
{
    let mut i: usize = 0;
    while i < anns.len()
        invariant
            i <= anns@.len(),
            forall|k: int| 0 <= k < i ==> !#[trigger] decorates(anns@[k], id, d),
        decreases anns@.len() - i,
    {
        if decorates_exec(&anns[i], id, d) {
            return true;
        }
        i = i + 1;
    }
    false
}

// ------------------------------------------------------------- types

/// What the reader does: reads a descriptor of the given Vulkan type,
/// fails with an error, or stops (an assertion, or a type that refers back
/// to itself so that the reading never ends).
#[derive(Clone, Copy, Debug, PartialEq, Eq, Structural)]
pub enum ReadOutcome {
    Read(u32),
    Fails,
    Stops,
}

pub open spec fn version_at_least_1_3(v: (u8, u8)) -> bool {
    v.0 > 1 || (v.0 == 1 && v.1 >= 3)
}

pub open spec fn version_at_most_1_3(v: (u8, u8)) -> bool {
    v.0 < 1 || (v.0 == 1 && v.1 <= 3)
}

/// A struct type of a resource in storage class `sc`: a `Block` is a
/// uniform buffer (a storage buffer in `StorageBuffer`), a `BufferBlock` a
/// storage buffer up to version 1.3; from 1.3 on, a struct that is not a
/// `Block`, or (past 1.3) a `BufferBlock`, stops the reader.
pub open spec fn struct_outcome(anns: Seq<SpvInstruction>, ver: Option<(u8, u8)>, t: SpvInstruction, sc: u32) -> ReadOutcome {
    let uniform = match t.result_id {
        Some(id) => has_decoration(anns, id, DECORATION_BLOCK),
        None => false,
    };
    let storage = match t.result_id {
        Some(id) => has_decoration(anns, id, DECORATION_BUFFER_BLOCK),
        None => false,
    };
    match ver {
        None => ReadOutcome::Fails,
        Some(v) => if version_at_most_1_3(v) && storage {
            ReadOutcome::Read(DESCRIPTOR_STORAGE_BUFFER)
        } else if version_at_least_1_3(v) {
            if storage || !uniform {
                ReadOutcome::Stops
            } else if sc == STORAGE_CLASS_UNIFORM || sc == STORAGE_CLASS_UNIFORM_CONSTANT {
                ReadOutcome::Read(DESCRIPTOR_UNIFORM_BUFFER)
            } else if sc == STORAGE_CLASS_STORAGE_BUFFER {
                ReadOutcome::Read(DESCRIPTOR_STORAGE_BUFFER)
            } else {
                ReadOutcome::Fails
            }
        } else if uniform {
            ReadOutcome::Read(DESCRIPTOR_UNIFORM_BUFFER)
        } else {
            ReadOutcome::Fails
        },
    }
}

/// An image type: a texel buffer, an input attachment, or a sampled or
/// storage image, by its dimension and sampled operand.
pub open spec fn image_outcome(t: SpvInstruction) -> ReadOutcome {
    match op_at(t, 1) {
        Some(SpvOperand::Dim(d)) => match op_at(t, 5) {
            Some(SpvOperand::LiteralBit32(sampled)) => if d == DIM_BUFFER {
                if sampled == 1 {
                    ReadOutcome::Read(DESCRIPTOR_UNIFORM_TEXEL_BUFFER)
                } else if sampled == 2 {
                    ReadOutcome::Read(DESCRIPTOR_STORAGE_TEXEL_BUFFER)
                } else {
                    ReadOutcome::Fails
                }
            } else if d == DIM_SUBPASS_DATA {
                ReadOutcome::Read(DESCRIPTOR_INPUT_ATTACHMENT)
            } else if sampled == 1 {
                ReadOutcome::Read(DESCRIPTOR_SAMPLED_IMAGE)
            } else if sampled == 2 {
                ReadOutcome::Read(DESCRIPTOR_STORAGE_IMAGE)
            } else {
                ReadOutcome::Fails
            },
            _ => ReadOutcome::Fails,
        },
        _ => ReadOutcome::Fails,
    }
}

/// The length of array type `t`: it must be an `OpConstant` (else the
/// reader stops) of an integer type of 32 or 64 bits, at least one.
/// `Read(0)` when the length passes.
pub open spec fn array_length_outcome(tys: Seq<SpvInstruction>, t: SpvInstruction) -> ReadOutcome {
    match op_at(t, 1) {
        Some(SpvOperand::IdRef(n)) => match first_def(tys, n, 0) {
            None => ReadOutcome::Fails,
            Some(c) => if c.opcode != OP_CONSTANT {
                ReadOutcome::Stops
            } else {
                match c.result_type {
                    None => ReadOutcome::Stops,
                    Some(rt) => match first_def(tys, rt, 0) {
                        None => ReadOutcome::Fails,
                        Some(ti) => if ti.opcode != OP_TYPE_INT {
                            ReadOutcome::Stops
                        } else {
                            match op_at(ti, 0) {
                                Some(SpvOperand::LiteralBit32(w)) => if w == 32 {
                                    match op_at(c, 0) {
                                        Some(SpvOperand::LiteralBit32(v)) => if v >= 1 {
                                            ReadOutcome::Read(0)
                                        } else {
                                            ReadOutcome::Stops
                                        },
                                        _ => ReadOutcome::Fails,
                                    }
                                } else if w == 64 {
                                    match op_at(c, 0) {
                                        Some(SpvOperand::LiteralBit64(v)) => if v > usize::MAX {
                                            ReadOutcome::Fails
                                        } else if v >= 1 {
                                            ReadOutcome::Read(0)
                                        } else {
                                            ReadOutcome::Stops
                                        },
                                        _ => ReadOutcome::Fails,
                                    }
                                } else {
                                    ReadOutcome::Fails
                                },
                                _ => ReadOutcome::Fails,
                            }
                        },
                    },
                }
            },
        },
        _ => ReadOutcome::Fails,
    }
}

/// What reading type `id` of a resource in storage class `sc` gives,
/// following at most `fuel` types: an unknown id or a malformed operand
/// fails, the reader's assertions stop it, and running out of fuel means
/// the type refers back to itself (a chain of distinct types is never
/// longer than the module's list of types).
pub open spec fn type_outcome(m: ModuleView, ver: Option<(u8, u8)>, id: u32, sc: u32, fuel: nat) -> ReadOutcome
    decreases fuel,
{
    match first_def(m.2, id, 0) {
        None => ReadOutcome::Fails,
        Some(t) => if fuel == 0 {
            ReadOutcome::Stops
        } else {
            let f = (fuel - 1) as nat;
            if t.opcode == OP_TYPE_ARRAY {
                match op_at(t, 0) {
                    Some(SpvOperand::IdRef(e)) => match array_length_outcome(m.2, t) {
                        ReadOutcome::Read(_) => type_outcome(m, ver, e, sc, f),
                        o => o,
                    },
                    _ => ReadOutcome::Fails,
                }
            } else if t.opcode == OP_TYPE_RUNTIME_ARRAY {
                match op_at(t, 0) {
                    Some(SpvOperand::IdRef(e)) => type_outcome(m, ver, e, sc, f),
                    _ => ReadOutcome::Fails,
                }
            } else if t.opcode == OP_TYPE_POINTER {
                match op_at(t, 0) {
                    Some(SpvOperand::StorageClass(p)) => match op_at(t, 1) {
                        Some(SpvOperand::IdRef(e)) => if p != sc {
                            ReadOutcome::Stops
                        } else {
                            type_outcome(m, ver, e, sc, f)
                        },
                        _ => ReadOutcome::Fails,
                    },
                    _ => ReadOutcome::Fails,
                }
            } else if t.opcode == OP_TYPE_SAMPLED_IMAGE {
                match op_at(t, 0) {
                    Some(SpvOperand::IdRef(e)) => match first_def(m.2, e, 0) {
                        None => ReadOutcome::Fails,
                        Some(img) => match type_outcome(m, ver, e, sc, f) {
                            ReadOutcome::Read(ty) => match op_at(img, 1) {
                                Some(SpvOperand::Dim(d)) => if d == DIM_SUBPASS_DATA {
                                    ReadOutcome::Stops
                                } else if d == DIM_BUFFER {
                                    if ty == DESCRIPTOR_UNIFORM_TEXEL_BUFFER || ty == DESCRIPTOR_STORAGE_TEXEL_BUFFER {
                                        ReadOutcome::Read(ty)
                                    } else {
                                        ReadOutcome::Stops
                                    }
                                } else {
                                    ReadOutcome::Read(DESCRIPTOR_COMBINED_IMAGE_SAMPLER)
                                },
                                _ => ReadOutcome::Fails,
                            },
                            o => o,
                        },
                    },
                    _ => ReadOutcome::Fails,
                }
            } else if t.opcode == OP_TYPE_SAMPLER {
                ReadOutcome::Read(DESCRIPTOR_SAMPLER)
            } else if t.opcode == OP_TYPE_IMAGE {
                image_outcome(t)
            } else if t.opcode == OP_TYPE_STRUCT {
                struct_outcome(m.1, ver, t, sc)
            } else if t.opcode == OP_TYPE_ACCELERATION_STRUCTURE {
                ReadOutcome::Read(DESCRIPTOR_ACCELERATION_STRUCTURE)
            } else {
                ReadOutcome::Fails
            }
        },
    }
}

// --------------------------------------------------------- resources

/// The storage class of a resource variable, which the reader visits:
/// `UniformConstant`, `Uniform` or `StorageBuffer`.
pub open spec fn resource_class(v: SpvInstruction) -> Option<u32> {
    if v.opcode == OP_VARIABLE {
        match op_at(v, 0) {
            Some(SpvOperand::StorageClass(c)) => if c == STORAGE_CLASS_UNIFORM_CONSTANT || c == STORAGE_CLASS_UNIFORM || c
                == STORAGE_CLASS_STORAGE_BUFFER {
                Some(c)
            } else {
                None
            },
            _ => None,
        }
    } else {
        None
    }
}

/// The value that annotation `a` gives decoration `d` of `id`, when it is
/// such a decoration with a 32-bit literal.
pub open spec fn slot_decoration(a: SpvInstruction, id: u32, d: u32) -> Option<u32> {
    if a.operands@.len() >= 3 && op_at(a, 0) == Some(SpvOperand::IdRef(id)) && op_at(a, 1) == Some(
        SpvOperand::Decoration(d),
    ) {
        match op_at(a, 2) {
            Some(SpvOperand::LiteralBit32(i)) => Some(i),
            _ => None,
        }
    } else {
        None
    }
}

/// How many of the first `k` annotations give `id` decoration `d`.
pub open spec fn decoration_count(anns: Seq<SpvInstruction>, id: u32, d: u32, k: int) -> nat
    decreases k,
{
    if k <= 0 || k > anns.len() {
        0
    } else {
        decoration_count(anns, id, d, k - 1) + if slot_decoration(anns[k - 1], id, d) is Some {
            1nat
        } else {
            0nat
        }
    }
}

/// The value the last of the first `k` annotations gives decoration `d`
/// of `id`.
pub open spec fn decoration_value(anns: Seq<SpvInstruction>, id: u32, d: u32, k: int) -> Option<u32>
    decreases k,
{
    if k <= 0 || k > anns.len() {
        None
    } else {
        match slot_decoration(anns[k - 1], id, d) {
            Some(i) => Some(i),
            None => decoration_value(anns, id, d, k - 1),
        }
    }
}

/// Every variable's first operand is a storage class (else the reader
/// fails before it reads any resource).
pub open spec fn variables_classed(tys: Seq<SpvInstruction>) -> bool {
    forall|i: int| 0 <= i < tys.len() && #[trigger] tys[i].opcode == OP_VARIABLE ==> op_at(tys[i], 0) is Some && op_at(
        tys[i],
        0,
    )->0 is StorageClass
}

/// Every debug name names an id with a string (else the reader fails).
pub open spec fn names_well_formed(names: Seq<SpvInstruction>) -> bool {
    forall|i: int| 0 <= i < names.len() && #[trigger] names[i].opcode == OP_NAME ==> (op_at(names[i], 0) is Some && op_at(
        names[i],
        0,
    )->0 is IdRef && op_at(names[i], 1) is Some && op_at(names[i], 1)->0 is LiteralString)
}

/// Every annotation's first operand is an id (else the reader fails on
/// the first resource).
pub open spec fn annotations_on_ids(anns: Seq<SpvInstruction>) -> bool {
    forall|i: int| 0 <= i < anns.len() ==> op_at(#[trigger] anns[i], 0) is Some && op_at(anns[i], 0)->0 is IdRef
}

/// What the reader does with the resource variable `v` (of storage class
/// `c` and id `vid`) when the slots `taken` are bound already: a second
/// set or binding decoration stops it, a missing one fails, then its type
/// is read, a resource named `$Globals` fails, and a slot bound already
/// stops it.  `Read(0)` when the resource is read.
pub open spec fn resource_outcome(
    m: ModuleView,
    ver: Option<(u8, u8)>,
    v: SpvInstruction,
    c: u32,
    vid: u32,
    taken: Seq<(u32, u32)>,
) -> ReadOutcome {
    let anns = m.1;
    if !annotations_on_ids(anns) {
        ReadOutcome::Fails
    } else if decoration_count(anns, vid, DECORATION_DESCRIPTOR_SET, anns.len() as int) >= 2 || decoration_count(
        anns,
        vid,
        DECORATION_BINDING,
        anns.len() as int,
    ) >= 2 {
        ReadOutcome::Stops
    } else {
        match (
            decoration_value(anns, vid, DECORATION_DESCRIPTOR_SET, anns.len() as int),
            decoration_value(anns, vid, DECORATION_BINDING, anns.len() as int),
        ) {
            (Some(set), Some(binding)) => match v.result_type {
                None => ReadOutcome::Fails,
                Some(tid) => match type_outcome(m, ver, tid, c, m.2.len()) {
                    ReadOutcome::Read(_) => if names_from(m.0).contains_key(vid) && names_from(m.0)[vid] == "$Globals"@ {
                        ReadOutcome::Fails
                    } else if taken.contains((set, binding)) {
                        ReadOutcome::Stops
                    } else {
                        ReadOutcome::Read(0)
                    },
                    o => o,
                },
            },
            _ => ReadOutcome::Fails,
        }
    }
}

/// The slot a resource is decorated with.
pub open spec fn resource_slot(m: ModuleView, vid: u32) -> (u32, u32) {
    (
        decoration_value(m.1, vid, DECORATION_DESCRIPTOR_SET, m.1.len() as int)->0,
        decoration_value(m.1, vid, DECORATION_BINDING, m.1.len() as int)->0,
    )
}

/// What the reader does with the resources among globals `k..`, the slots
/// `taken` bound already.
pub open spec fn resources_outcome(m: ModuleView, ver: Option<(u8, u8)>, k: int, taken: Seq<(u32, u32)>) -> ReadOutcome
    decreases m.2.len() - k,
{
    if k < 0 || k >= m.2.len() {
        ReadOutcome::Read(0)
    } else {
        let v = m.2[k];
        match (resource_class(v), v.result_id) {
            (Some(c), Some(vid)) => match resource_outcome(m, ver, v, c, vid, taken) {
                ReadOutcome::Read(_) => resources_outcome(m, ver, k + 1, taken.push(resource_slot(m, vid))),
                o => o,
            },
            _ => resources_outcome(m, ver, k + 1, taken),
        }
    }
}

/// What `get_descriptor_sets` does with module `m` of header version
/// `ver`: the variables and debug names are checked first, then each
/// resource in turn.
pub open spec fn read_outcome(m: ModuleView, ver: Option<(u8, u8)>) -> ReadOutcome {
    if !variables_classed(m.2) || !names_well_formed(m.0) {
        ReadOutcome::Fails
    } else {
        resources_outcome(m, ver, 0, Seq::empty())
    }
}

/// `rspirv_reflect` reads the descriptor sets of module `m` (of header
/// version `ver`) without stopping on an assertion or reading forever: it
/// reads them or returns an error.
pub open spec fn descriptor_read_safe(m: ModuleView, ver: Option<(u8, u8)>) -> bool {
    read_outcome(m, ver) != ReadOutcome::Stops
}

// ------------------------------------------------------------ executable

fn operand(t: &SpvInstruction, j: usize) -> (r: Option<&SpvOperand>)
    ensures
        match op_at(*t, j as int) {
            Some(o) => r == Some(&o),
            None => r is None,
        },
{
    if j < t.operands.len() {
        Some(&t.operands[j])
    } else {
        None
    }
}

fn struct_outcome_exec(anns: &Vec<SpvInstruction>, ver: Option<(u8, u8)>, t: &SpvInstruction, sc: u32) -> (r: ReadOutcome)
    ensures
        r == struct_outcome(anns@, ver, *t, sc),
{
    let (uniform, storage) = match t.result_id {
        Some(id) => (has_decoration_exec(anns, id, DECORATION_BLOCK), has_decoration_exec(anns, id, DECORATION_BUFFER_BLOCK)),
        None => (false, false),
    };
    match ver {
        None => ReadOutcome::Fails,
        Some(v) => {
            let at_least = v.0 > 1 || (v.0 == 1 && v.1 >= 3);
            let at_most = v.0 < 1 || (v.0 == 1 && v.1 <= 3);
            if at_most && storage {
                ReadOutcome::Read(DESCRIPTOR_STORAGE_BUFFER)
            } else if at_least {
                if storage || !uniform {
                    ReadOutcome::Stops
                } else if sc == STORAGE_CLASS_UNIFORM || sc == STORAGE_CLASS_UNIFORM_CONSTANT {
                    ReadOutcome::Read(DESCRIPTOR_UNIFORM_BUFFER)
                } else if sc == STORAGE_CLASS_STORAGE_BUFFER {
                    ReadOutcome::Read(DESCRIPTOR_STORAGE_BUFFER)
                } else {
                    ReadOutcome::Fails
                }
            } else if uniform {
                ReadOutcome::Read(DESCRIPTOR_UNIFORM_BUFFER)
            } else {
                ReadOutcome::Fails
            }
        },
    }
}

fn image_outcome_exec(t: &SpvInstruction) -> (r: ReadOutcome)
    ensures
        r == image_outcome(*t),
{
    match (operand(t, 1), operand(t, 5)) {
        (Some(SpvOperand::Dim(d)), Some(SpvOperand::LiteralBit32(sampled))) => if *d == DIM_BUFFER {
            if *sampled == 1 {
                ReadOutcome::Read(DESCRIPTOR_UNIFORM_TEXEL_BUFFER)
            } else if *sampled == 2 {
                ReadOutcome::Read(DESCRIPTOR_STORAGE_TEXEL_BUFFER)
            } else {
                ReadOutcome::Fails
            }
        } else if *d == DIM_SUBPASS_DATA {
            ReadOutcome::Read(DESCRIPTOR_INPUT_ATTACHMENT)
        } else if *sampled == 1 {
            ReadOutcome::Read(DESCRIPTOR_SAMPLED_IMAGE)
        } else if *sampled == 2 {
            ReadOutcome::Read(DESCRIPTOR_STORAGE_IMAGE)
        } else {
            ReadOutcome::Fails
        },
        _ => ReadOutcome::Fails,
    }
}

fn array_length_outcome_exec(tys: &Vec<SpvInstruction>, t: &SpvInstruction) -> (r: ReadOutcome)
    ensures
        r == array_length_outcome(tys@, *t),
{
    let n = match operand(t, 1) {
        Some(SpvOperand::IdRef(n)) => *n,
        _ => {
            return ReadOutcome::Fails;
        },
    };
    let c = match first_def_exec(tys, n) {
        None => {
            return ReadOutcome::Fails;
        },
        Some(i) => &tys[i],
    };
    if c.opcode != OP_CONSTANT {
        return ReadOutcome::Stops;
    }
    let rt = match c.result_type {
        None => {
            return ReadOutcome::Stops;
        },
        Some(rt) => rt,
    };
    let ti = match first_def_exec(tys, rt) {
        None => {
            return ReadOutcome::Fails;
        },
        Some(i) => &tys[i],
    };
    if ti.opcode != OP_TYPE_INT {
        return ReadOutcome::Stops;
    }
    match operand(ti, 0) {
        Some(SpvOperand::LiteralBit32(w)) => if *w == 32 {
            match operand(c, 0) {
                Some(SpvOperand::LiteralBit32(v)) => if *v >= 1 {
                    ReadOutcome::Read(0)
                } else {
                    ReadOutcome::Stops
                },
                _ => ReadOutcome::Fails,
            }
        } else if *w == 64 {
            match operand(c, 0) {
                Some(SpvOperand::LiteralBit64(v)) => if *v > usize::MAX as u64 {
                    ReadOutcome::Fails
                } else if *v >= 1 {
                    ReadOutcome::Read(0)
                } else {
                    ReadOutcome::Stops
                },
                _ => ReadOutcome::Fails,
            }
        } else {
            ReadOutcome::Fails
        },
        _ => ReadOutcome::Fails,
    }
}

fn type_outcome_exec(m: &SpvModule, ver: Option<(u8, u8)>, id: u32, sc: u32, fuel: usize) -> (r: ReadOutcome)
    ensures
        r == type_outcome(m@, ver, id, sc, fuel as nat),
    decreases fuel,
{
    let t = match first_def_exec(&m.types_global_values, id) {
        None => {
            return ReadOutcome::Fails;
        },
        Some(i) => &m.types_global_values[i],
    };
    if fuel == 0 {
        return ReadOutcome::Stops;
    }
    let f = fuel - 1;
    if t.opcode == OP_TYPE_ARRAY {
        match operand(t, 0) {
            Some(SpvOperand::IdRef(e)) => match array_length_outcome_exec(&m.types_global_values, t) {
                ReadOutcome::Read(_) => type_outcome_exec(m, ver, *e, sc, f),
                o => o,
            },
            _ => ReadOutcome::Fails,
        }
    } else if t.opcode == OP_TYPE_RUNTIME_ARRAY {
        match operand(t, 0) {
            Some(SpvOperand::IdRef(e)) => type_outcome_exec(m, ver, *e, sc, f),
            _ => ReadOutcome::Fails,
        }
    } else if t.opcode == OP_TYPE_POINTER {
        match (operand(t, 0), operand(t, 1)) {
            (Some(SpvOperand::StorageClass(p)), Some(SpvOperand::IdRef(e))) => if *p != sc {
                ReadOutcome::Stops
            } else {
                type_outcome_exec(m, ver, *e, sc, f)
            },
            _ => ReadOutcome::Fails,
        }
    } else if t.opcode == OP_TYPE_SAMPLED_IMAGE {
        match operand(t, 0) {
            Some(SpvOperand::IdRef(e)) => match first_def_exec(&m.types_global_values, *e) {
                None => ReadOutcome::Fails,
                Some(j) => {
                    let img = &m.types_global_values[j];
                    match type_outcome_exec(m, ver, *e, sc, f) {
                        ReadOutcome::Read(ty) => match operand(img, 1) {
                            Some(SpvOperand::Dim(d)) => if *d == DIM_SUBPASS_DATA {
                                ReadOutcome::Stops
                            } else if *d == DIM_BUFFER {
                                if ty == DESCRIPTOR_UNIFORM_TEXEL_BUFFER || ty == DESCRIPTOR_STORAGE_TEXEL_BUFFER {
                                    ReadOutcome::Read(ty)
                                } else {
                                    ReadOutcome::Stops
                                }
                            } else {
                                ReadOutcome::Read(DESCRIPTOR_COMBINED_IMAGE_SAMPLER)
                            },
                            _ => ReadOutcome::Fails,
                        },
                        o => o,
                    }
                },
            },
            _ => ReadOutcome::Fails,
        }
    } else if t.opcode == OP_TYPE_SAMPLER {
        ReadOutcome::Read(DESCRIPTOR_SAMPLER)
    } else if t.opcode == OP_TYPE_IMAGE {
        image_outcome_exec(t)
    } else if t.opcode == OP_TYPE_STRUCT {
        struct_outcome_exec(&m.annotations, ver, t, sc)
    } else if t.opcode == OP_TYPE_ACCELERATION_STRUCTURE {
        ReadOutcome::Read(DESCRIPTOR_ACCELERATION_STRUCTURE)
    } else {
        ReadOutcome::Fails
    }
}

fn slot_decoration_exec(a: &SpvInstruction, id: u32, d: u32) -> (r: Option<u32>)
    ensures
        r == slot_decoration(*a, id, d),
{
    if a.operands.len() < 3 {
        return None;
    }
    match (&a.operands[0], &a.operands[1], &a.operands[2]) {
        (SpvOperand::IdRef(x), SpvOperand::Decoration(y), SpvOperand::LiteralBit32(i)) => if *x == id && *y == d {
            Some(*i)
        } else {
            None
        },
        _ => None,
    }
}

fn decoration_exec(anns: &Vec<SpvInstruction>, id: u32, d: u32) -> (r: (usize, Option<u32>))
    ensures
        r.0 == decoration_count(anns@, id, d, anns@.len() as int),
        r.1 == decoration_value(anns@, id, d, anns@.len() as int),
{
    let mut count: usize = 0;
    let mut value: Option<u32> = None;
    let mut k: usize = 0;
    while k < anns.len()
        invariant
            k <= anns@.len(),
            count == decoration_count(anns@, id, d, k as int),
            count <= k,
            value == decoration_value(anns@, id, d, k as int),
        decreases anns@.len() - k,
    {
        match slot_decoration_exec(&anns[k], id, d) {
            Some(i) => {
                count = count + 1;
                value = Some(i);
            },
            None => {},
        }
        k = k + 1;
    }
    (count, value)
}

fn resource_class_exec(v: &SpvInstruction) -> (r: Option<u32>)
    ensures
        r == resource_class(*v),
{
    if v.opcode != OP_VARIABLE {
        return None;
    }
    match operand(v, 0) {
        Some(SpvOperand::StorageClass(c)) => if *c == STORAGE_CLASS_UNIFORM_CONSTANT || *c == STORAGE_CLASS_UNIFORM || *c
            == STORAGE_CLASS_STORAGE_BUFFER {
            Some(*c)
        } else {
            None
        },
        _ => None,
    }
}

fn variables_classed_exec(tys: &Vec<SpvInstruction>) -> (r: bool)
    ensures
        r == variables_classed(tys@),
{
    let mut i: usize = 0;
    while i < tys.len()
        invariant
            i <= tys@.len(),
            forall|k: int| 0 <= k < i && #[trigger] tys@[k].opcode == OP_VARIABLE ==> op_at(tys@[k], 0) is Some && op_at(
                tys@[k],
                0,
            )->0 is StorageClass,
        decreases tys@.len() - i,
    {
        if tys[i].opcode == OP_VARIABLE {
            match operand(&tys[i], 0) {
                Some(SpvOperand::StorageClass(_)) => {},
                _ => {
                    return false;
                },
            }
        }
        i = i + 1;
    }
    true
}

fn names_well_formed_exec(names: &Vec<SpvInstruction>) -> (r: bool)
    ensures
        r == names_well_formed(names@),
{
    let mut i: usize = 0;
    while i < names.len()
        invariant
            i <= names@.len(),
            forall|k: int| 0 <= k < i && #[trigger] names@[k].opcode == OP_NAME ==> (op_at(names@[k], 0) is Some && op_at(
                names@[k],
                0,
            )->0 is IdRef && op_at(names@[k], 1) is Some && op_at(names@[k], 1)->0 is LiteralString),
        decreases names@.len() - i,
    {
        if names[i].opcode == OP_NAME {
            match (operand(&names[i], 0), operand(&names[i], 1)) {
                (Some(SpvOperand::IdRef(_)), Some(SpvOperand::LiteralString(_))) => {},
                _ => {
                    return false;
                },
            }
        }
        i = i + 1;
    }
    true
}

fn annotations_on_ids_exec(anns: &Vec<SpvInstruction>) -> (r: bool)
    ensures
        r == annotations_on_ids(anns@),
{
    let mut i: usize = 0;
    while i < anns.len()
        invariant
            i <= anns@.len(),
            forall|k: int| 0 <= k < i ==> op_at(#[trigger] anns@[k], 0) is Some && op_at(anns@[k], 0)->0 is IdRef,
        decreases anns@.len() - i,
    {
        match operand(&anns[i], 0) {
            Some(SpvOperand::IdRef(_)) => {},
            _ => {
                return false;
            },
        }
        i = i + 1;
    }
    true
}

fn is_globals(s: &String) -> (r: bool)
    ensures
        r == (s@ == "$Globals"@),
{
    let a = chars_of(s.as_str());
    let b = chars_of("$Globals");
    if a.len() != b.len() {
        return false;
    }
    let mut i: usize = 0;
    while i < a.len()
        invariant
            a@ == s@,
            b@ == "$Globals"@,
            a@.len() == b@.len(),
            i <= a@.len(),
            forall|k: int| 0 <= k < i ==> a@[k] == b@[k],
        decreases a@.len() - i,
    {
        if a[i] != b[i] {
            return false;
        }
        i = i + 1;
    }
    assert(a@ =~= b@);
    true
}

fn slot_taken(taken: &Vec<(u32, u32)>, slot: (u32, u32)) -> (r: bool)
    ensures
        r == taken@.contains(slot),
{
    let mut i: usize = 0;
    while i < taken.len()
        invariant
            i <= taken@.len(),
            forall|k: int| 0 <= k < i ==> taken@[k] != slot,
        decreases taken@.len() - i,
    {
        if taken[i].0 == slot.0 && taken[i].1 == slot.1 {
            assert(taken@[i as int] == slot);
            return true;
        }
        i = i + 1;
    }
    false
}

/// Whether `rspirv_reflect` reads the descriptor sets of `m`, of header
/// version `ver`, without stopping (see `descriptor_read_safe`).
pub fn descriptor_reads_safe(m: &SpvModule, ver: Option<(u8, u8)>) -> (r: bool)
    ensures
        r == descriptor_read_safe(m@, ver),
{
    if !variables_classed_exec(&m.types_global_values) || !names_well_formed_exec(&m.debug_names) {
        return true;
    }
    let anns_ok = annotations_on_ids_exec(&m.annotations);
    let names = read_names(&m.debug_names);
    let tys = &m.types_global_values;
    let n = tys.len();
    let mut taken: Vec<(u32, u32)> = Vec::new();
    let mut k: usize = 0;
    while k < n
        invariant
            k <= n == tys@.len(),
            tys == &m.types_global_values,
            anns_ok == annotations_on_ids(m@.1),
            names.wf(),
            names_view(names@) == names_from(m@.0),
            variables_classed(m@.2) && names_well_formed(m@.0),
            read_outcome(m@, ver) == resources_outcome(m@, ver, k as int, taken@),
        decreases n - k,
    {
        let v = &tys[k];
        match (resource_class_exec(v), v.result_id) {
            (Some(c), Some(vid)) => {
                if !anns_ok {
                    return true;
                }
                let (sets, set) = decoration_exec(&m.annotations, vid, DECORATION_DESCRIPTOR_SET);
                let (bindings, binding) = decoration_exec(&m.annotations, vid, DECORATION_BINDING);
                if sets >= 2 || bindings >= 2 {
                    return false;
                }
                let slot = match (set, binding) {
                    (Some(s), Some(b)) => (s, b),
                    _ => {
                        return true;
                    },
                };
                let tid = match v.result_type {
                    None => {
                        return true;
                    },
                    Some(tid) => tid,
                };
                match type_outcome_exec(m, ver, tid, c, n) {
                    ReadOutcome::Read(_) => {},
                    ReadOutcome::Fails => {
                        return true;
                    },
                    ReadOutcome::Stops => {
                        return false;
                    },
                }
                match names.get(vid) {
                    Some(name) => {
                        if is_globals(name) {
                            return true;
                        }
                    },
                    None => {},
                }
                if slot_taken(&taken, slot) {
                    return false;
                }
                taken.push(slot);
            },
            _ => {},
        }
        k = k + 1;
    }
    true
}

} // verus!
