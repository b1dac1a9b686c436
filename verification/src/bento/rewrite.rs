//! Carrying the names that reflection settled on back into the SPIR-V: the
//! debug name of each bound variable is set to its variable's name, and
//! annotations follow the slots that source declarations moved.

use vstd::prelude::*;

use rspirv_reflect::rspirv::binary::Assemble;
use rspirv_reflect::rspirv::dr::{Instruction, Operand};
use rspirv_reflect::rspirv::spirv::Op;
use rspirv_reflect::Reflection;

use super::metadata::{op_at, read_module, spirv_module_of, IdMap, ModuleView, SpvInstruction, SpvOperand, OP_DECORATE, OP_NAME};
use super::reflect::{var_view, var_views, SlotMove, VarView};
use super::spirv::{spirv_words_to_bytes, words_bytes};
use super::types::{BentoError, ShaderVariable};

verus! {

pub const DECORATION_BINDING: u32 = 33;
pub const DECORATION_DESCRIPTOR_SET: u32 = 34;

// ------------------------------------------------------------------ edits

/// One change to a parsed SPIR-V module.
#[derive(Clone, Debug, PartialEq, Eq)]
pub enum SpirvEdit {
    /// The third operand of annotation `index` becomes the literal `value`.
    SetAnnotationLiteral { index: usize, value: u32 },
    /// The second operand of debug name `index` becomes the string `name`.
    RenameDebugName { index: usize, name: String },
    /// Debug name `index` gets the string `name` as a further operand.
    ExtendDebugName { index: usize, name: String },
    /// A new `OpName` giving `id` the name `name` follows the debug names.
    AppendDebugName { id: u32, name: String },
}

/// An edit as plain values: its kind (in the order of the variants), the
/// index it changes, the literal or id it carries, and its name.
pub type EditView = (u32, int, u32, Seq<char>);

pub open spec fn edit_view(e: SpirvEdit) -> EditView {
    match e {
        SpirvEdit::SetAnnotationLiteral { index, value } => (0u32, index as int, value, Seq::empty()),
        SpirvEdit::RenameDebugName { index, name } => (1u32, index as int, 0u32, name@),
        SpirvEdit::ExtendDebugName { index, name } => (2u32, index as int, 0u32, name@),
        SpirvEdit::AppendDebugName { id, name } => (3u32, 0int, id, name@),
    }
}

pub open spec fn edit_views(v: Seq<SpirvEdit>) -> Seq<EditView> {
    v.map_values(|e: SpirvEdit| edit_view(e))
}

/// A debug name as far as edits see it: opcode, the id its first operand
/// refers to, and its number of operands.
pub type NameView = (u32, Option<u32>, nat);

pub open spec fn name_view(i: SpvInstruction) -> NameView {
    (i.opcode, match op_at(i, 0) {
        Some(SpvOperand::IdRef(x)) => Some(x),
        _ => None,
    }, i.operands@.len())
}

pub open spec fn name_views(v: Seq<SpvInstruction>) -> Seq<NameView> {
    v.map_values(|i: SpvInstruction| name_view(i))
}

pub open spec fn operand_counts(v: Seq<SpvInstruction>) -> Seq<nat> {
    v.map_values(|i: SpvInstruction| i.operands@.len())
}

/// The debug names after one edit, or `None` when the edit does not fit:
/// an annotation literal needs an annotation with a third operand, a rename
/// a debug name with a second one, an extension an existing debug name.
pub open spec fn apply_one(ann_ops: Seq<nat>, names: Seq<NameView>, e: EditView) -> Option<Seq<NameView>> {
    if e.0 == 0 {
        if 0 <= e.1 < ann_ops.len() && ann_ops[e.1] >= 3 {
            Some(names)
        } else {
            None
        }
    } else if e.0 == 1 {
        if 0 <= e.1 < names.len() && names[e.1].2 >= 2 {
            Some(names)
        } else {
            None
        }
    } else if e.0 == 2 {
        if 0 <= e.1 < names.len() {
            Some(names.update(e.1, (names[e.1].0, names[e.1].1, names[e.1].2 + 1)))
        } else {
            None
        }
    } else {
        Some(names.push((OP_NAME, Some(e.2), 2nat)))
    }
}

/// The debug names after `edits` in order, when each of them fits.
pub open spec fn apply_edits(ann_ops: Seq<nat>, names: Seq<NameView>, edits: Seq<EditView>) -> Option<Seq<NameView>>
    decreases edits.len(),
{
    if edits.len() == 0 {
        Some(names)
    } else {
        match apply_edits(ann_ops, names, edits.drop_last()) {
            None => None,
            Some(ns) => apply_one(ann_ops, ns, edits.last()),
        }
    }
}

/// What `rspirv` makes of the SPIR-V bytes `bytes` after the edits
/// `edits`: the assembled words, or the parse error's message.
pub uninterp spec fn spirv_edited(bytes: Seq<u8>, edits: Seq<EditView>) -> Result<Seq<u32>, Seq<char>>;

/// `rspirv_reflect::Reflection::new_from_spirv`, each edit applied to the
/// parsed module in order (an annotation's third operand set to a 32-bit
/// literal, a debug name's second operand set to or extended by a string,
/// an `OpName` appended), then `rspirv::dr::Module::assemble`: the result
/// is what `spirv_edited` names for the bytes and edits.
#[verifier::external_body]
fn assemble_edited(bytes: &[u8], edits: &Vec<SpirvEdit>) -> (r: Result<Vec<u32>, String>)
    requires
        spirv_module_of(bytes@) matches Ok((m, _)) && apply_edits(operand_counts(m.1), name_views(m.0), edit_views(edits@))
            is Some,
    ensures
        match r {
            Ok(w) => spirv_edited(bytes@, edit_views(edits@)) == Ok::<Seq<u32>, Seq<char>>(w@),
            Err(e) => spirv_edited(bytes@, edit_views(edits@)) == Err::<Seq<u32>, Seq<char>>(e@),
        },
{
    let mut m = Reflection::new_from_spirv(bytes).map_err(|e| e.to_string())?.0;
    for e in edits {
        match e {
            SpirvEdit::SetAnnotationLiteral { index, value } => m.annotations[*index].operands[2] = Operand::LiteralBit32(*value),
            SpirvEdit::RenameDebugName { index, name } => m.debug_names[*index].operands[1] = Operand::LiteralString(name.clone()),
            SpirvEdit::ExtendDebugName { index, name } => m.debug_names[*index].operands.push(Operand::LiteralString(name.clone())),
            SpirvEdit::AppendDebugName { id, name } => m.debug_names.push(Instruction::new(Op::Name, None, None, vec![Operand::IdRef(*id), Operand::LiteralString(name.clone())])),
        }
    }
    Ok(m.assemble())
}

// ------------------------------------------------------------ the targets

/// `OpDecorate id decoration literal`, as its three numbers.
pub open spec fn decorate_triple(i: SpvInstruction) -> Option<(u32, u32, u32)> {
    if i.opcode == OP_DECORATE {
        match (op_at(i, 0), op_at(i, 1), op_at(i, 2)) {
            (Some(SpvOperand::IdRef(id)), Some(SpvOperand::Decoration(d)), Some(SpvOperand::LiteralBit32(v))) => Some((id, d, v)),
            _ => None,
        }
    } else {
        None
    }
}

/// For each id decorated with a literal, the descriptor set and binding
/// that its decorations give, a later decoration replacing an earlier.
pub open spec fn targets_of(anns: Seq<SpvInstruction>) -> Map<u32, (Option<u32>, Option<u32>)>
    decreases anns.len(),
{
    if anns.len() == 0 {
        Map::empty()
    } else {
        let t = targets_of(anns.drop_last());
        match decorate_triple(anns.last()) {
            Some((id, d, v)) => {
                let e = if t.contains_key(id) {
                    t[id]
                } else {
                    (None, None)
                };
                t.insert(
                    id,
                    if d == DECORATION_DESCRIPTOR_SET {
                        (Some(v), e.1)
                    } else if d == DECORATION_BINDING {
                        (e.0, Some(v))
                    } else {
                        e
                    },
                )
            },
            None => t,
        }
    }
}

/// The ids of `targets_of`, in the order of their first decoration.
pub open spec fn target_order(anns: Seq<SpvInstruction>) -> Seq<u32>
    decreases anns.len(),
{
    if anns.len() == 0 {
        Seq::empty()
    } else {
        let o = target_order(anns.drop_last());
        match decorate_triple(anns.last()) {
            Some((id, _, _)) => if targets_of(anns.drop_last()).contains_key(id) {
                o
            } else {
                o.push(id)
            },
            None => o,
        }
    }
}

/// The id bound at slot `s`: the last in `order` whose set and binding are
/// `s`.
pub open spec fn slot_id(order: Seq<u32>, t: Map<u32, (Option<u32>, Option<u32>)>, s: (u32, u32)) -> Option<u32>
    decreases order.len(),
{
    if order.len() == 0 {
        None
    } else if t.contains_key(order.last()) && t[order.last()] == (Some(s.0), Some(s.1)) {
        Some(order.last())
    } else {
        slot_id(order.drop_last(), t, s)
    }
}

/// Where the slot of `id` moved: the target of the last move whose source
/// slot binds `id`.
pub open spec fn moved_to(order: Seq<u32>, t: Map<u32, (Option<u32>, Option<u32>)>, remap: Seq<SlotMove>, id: u32) -> Option<(u32, u32)>
    decreases remap.len(),
{
    if remap.len() == 0 {
        None
    } else if slot_id(order, t, remap.last().0) == Some(id) {
        Some(remap.last().1)
    } else {
        moved_to(order, t, remap.drop_last(), id)
    }
}

/// Where slot `s` moved from: the source of the last move to it.
pub open spec fn moved_from(remap: Seq<SlotMove>, s: (u32, u32)) -> Option<(u32, u32)>
    decreases remap.len(),
{
    if remap.len() == 0 {
        None
    } else if remap.last().1 == s {
        Some(remap.last().0)
    } else {
        moved_from(remap.drop_last(), s)
    }
}

/// The literal edits for the annotations: a set or binding decoration of an
/// id whose slot moved takes the moved slot's set or binding.
pub open spec fn ann_edits(anns: Seq<SpvInstruction>, order: Seq<u32>, t: Map<u32, (Option<u32>, Option<u32>)>, remap: Seq<SlotMove>) -> Seq<EditView>
    decreases anns.len(),
{
    if anns.len() == 0 {
        Seq::empty()
    } else {
        let prev = ann_edits(anns.drop_last(), order, t, remap);
        let i = anns.last();
        let k = anns.len() - 1;
        if i.opcode == OP_DECORATE {
            match op_at(i, 0) {
                Some(SpvOperand::IdRef(id)) => match moved_to(order, t, remap, id) {
                    Some((ns, nb)) => match op_at(i, 1) {
                        Some(SpvOperand::Decoration(d)) => if d == DECORATION_DESCRIPTOR_SET && i.operands@.len() >= 3 {
                            prev.push((0u32, k, ns, Seq::empty()))
                        } else if d == DECORATION_BINDING && i.operands@.len() >= 3 {
                            prev.push((0u32, k, nb, Seq::empty()))
                        } else {
                            prev
                        },
                        _ => prev,
                    },
                    None => prev,
                },
                _ => prev,
            }
        } else {
            prev
        }
    }
}

// -------------------------------------------------------------- the names

/// The id a variable at slot `s` is bound to: the slot's own id, else the
/// id of the slot it moved from.
pub open spec fn var_slot_id(order: Seq<u32>, t: Map<u32, (Option<u32>, Option<u32>)>, remap: Seq<SlotMove>, s: (u32, u32)) -> Option<u32> {
    match slot_id(order, t, s) {
        Some(id) => Some(id),
        None => match moved_from(remap, s) {
            Some(old) => slot_id(order, t, old),
            None => None,
        },
    }
}

pub open spec fn names_id(n: NameView, id: u32) -> bool {
    n.0 == OP_NAME && n.1 == Some(id)
}

/// The first debug name that names `id`.
pub open spec fn first_name(names: Seq<NameView>, id: u32) -> Option<int>
    decreases names.len(),
{
    if names.len() == 0 {
        None
    } else {
        match first_name(names.drop_last(), id) {
            Some(p) => Some(p),
            None => if names_id(names.last(), id) {
                Some(names.len() - 1)
            } else {
                None
            },
        }
    }
}

/// Naming `id` `name`: the first debug name of `id` gets `name` as its
/// second operand (added when it has none), and an id without one gets a
/// new `OpName`.
pub open spec fn name_step(names: Seq<NameView>, id: u32, name: Seq<char>) -> (EditView, Seq<NameView>) {
    match first_name(names, id) {
        Some(i) => if names[i].2 >= 2 {
            ((1u32, i, 0u32, name), names)
        } else {
            ((2u32, i, 0u32, name), names.update(i, (names[i].0, names[i].1, names[i].2 + 1)))
        },
        None => ((3u32, 0int, id, name), names.push((OP_NAME, Some(id), 2nat))),
    }
}

/// The name edits for `vars` in order, with the debug names they leave.
pub open spec fn var_edits(vars: Seq<VarView>, order: Seq<u32>, t: Map<u32, (Option<u32>, Option<u32>)>, remap: Seq<SlotMove>, names: Seq<NameView>) -> (Seq<EditView>, Seq<NameView>)
    decreases vars.len(),
{
    if vars.len() == 0 {
        (Seq::empty(), names)
    } else {
        let (es, ns) = var_edits(vars.drop_last(), order, t, remap, names);
        let v = vars.last();
        match var_slot_id(order, t, remap, (v.1, v.3)) {
            None => (es, ns),
            Some(id) => {
                let (e, ns2) = name_step(ns, id, v.0);
                (es.push(e), ns2)
            },
        }
    }
}

/// The edits that carry `vars` and the slot moves `remap` into `m`.
pub open spec fn rewrite_edits(m: ModuleView, vars: Seq<VarView>, remap: Seq<SlotMove>) -> Seq<EditView> {
    let t = targets_of(m.1);
    let o = target_order(m.1);
    ann_edits(m.1, o, t, remap) + var_edits(vars, o, t, remap, name_views(m.0)).0
}

// ------------------------------------------------------------- computing

fn decorate_triple_exec(i: &SpvInstruction) -> (r: Option<(u32, u32, u32)>)
    ensures
        r == decorate_triple(*i),
{
    if i.opcode != OP_DECORATE || i.operands.len() < 3 {
        return None;
    }
    match (&i.operands[0], &i.operands[1], &i.operands[2]) {
        (SpvOperand::IdRef(id), SpvOperand::Decoration(d), SpvOperand::LiteralBit32(v)) => Some((*id, *d, *v)),
        _ => None,
    }
}

fn collect_targets(anns: &Vec<SpvInstruction>) -> (r: (IdMap<(Option<u32>, Option<u32>)>, Vec<u32>))
    ensures
        r.0.wf(),
        r.0@ == targets_of(anns@),
        r.1@ == target_order(anns@),
{
    let mut t: IdMap<(Option<u32>, Option<u32>)> = IdMap::new();
    let mut order: Vec<u32> = Vec::new();
    let n = anns.len();
    let mut k: usize = 0;
    while k < n
        invariant
            k <= n == anns@.len(),
            t.wf(),
            t@ == targets_of(anns@.take(k as int)),
            order@ == target_order(anns@.take(k as int)),
        decreases n - k,
    {
        proof {
            assert(anns@.take(k + 1).drop_last() =~= anns@.take(k as int));
        }
        match decorate_triple_exec(&anns[k]) {
            Some((id, d, v)) => {
                let e = match t.get(id) {
                    Some(e) => *e,
                    None => {
                        order.push(id);
                        (None, None)
                    },
                };
                let nv = if d == DECORATION_DESCRIPTOR_SET {
                    (Some(v), e.1)
                } else if d == DECORATION_BINDING {
                    (e.0, Some(v))
                } else {
                    e
                };
                t.insert(id, nv);
            },
            None => {},
        }
        k = k + 1;
    }
    assert(anns@.take(n as int) =~= anns@);
    (t, order)
}

fn slot_id_exec(order: &Vec<u32>, t: &IdMap<(Option<u32>, Option<u32>)>, s: (u32, u32)) -> (r: Option<u32>)
    requires
        t.wf(),
    ensures
        r == slot_id(order@, t@, s),
{
    let mut i = order.len();
    assert(order@.take(i as int) =~= order@);
    while i > 0
        invariant
            i <= order@.len(),
            t.wf(),
            slot_id(order@, t@, s) == slot_id(order@.take(i as int), t@, s),
        decreases i,
    {
        let id = order[i - 1];
        proof {
            assert(order@.take(i as int).drop_last() =~= order@.take(i - 1));
            assert(order@.take(i as int).last() == id);
        }
        match t.get(id) {
            Some(e) => match *e {
                (Some(a), Some(b)) => {
                    if a == s.0 && b == s.1 {
                        return Some(id);
                    }
                },
                _ => {},
            },
            None => {},
        }
        i = i - 1;
    }
    None
}

fn moved_to_exec(order: &Vec<u32>, t: &IdMap<(Option<u32>, Option<u32>)>, remap: &Vec<SlotMove>, id: u32) -> (r: Option<(u32, u32)>)
    requires
        t.wf(),
    ensures
        r == moved_to(order@, t@, remap@, id),
{
    let mut i = remap.len();
    assert(remap@.take(i as int) =~= remap@);
    while i > 0
        invariant
            i <= remap@.len(),
            t.wf(),
            moved_to(order@, t@, remap@, id) == moved_to(order@, t@, remap@.take(i as int), id),
        decreases i,
    {
        let mv = remap[i - 1];
        proof {
            assert(remap@.take(i as int).drop_last() =~= remap@.take(i - 1));
            assert(remap@.take(i as int).last() == mv);
        }
        if slot_id_exec(order, t, mv.0) == Some(id) {
            return Some(mv.1);
        }
        i = i - 1;
    }
    None
}

fn moved_from_exec(remap: &Vec<SlotMove>, s: (u32, u32)) -> (r: Option<(u32, u32)>)
    ensures
        r == moved_from(remap@, s),
{
    let mut i = remap.len();
    assert(remap@.take(i as int) =~= remap@);
    while i > 0
        invariant
            i <= remap@.len(),
            moved_from(remap@, s) == moved_from(remap@.take(i as int), s),
        decreases i,
    {
        let mv = remap[i - 1];
        proof {
            assert(remap@.take(i as int).drop_last() =~= remap@.take(i - 1));
            assert(remap@.take(i as int).last() == mv);
        }
        if (mv.1).0 == s.0 && (mv.1).1 == s.1 {
            return Some(mv.0);
        }
        i = i - 1;
    }
    None
}

fn var_slot_id_exec(order: &Vec<u32>, t: &IdMap<(Option<u32>, Option<u32>)>, remap: &Vec<SlotMove>, s: (u32, u32)) -> (r: Option<u32>)
    requires
        t.wf(),
    ensures
        r == var_slot_id(order@, t@, remap@, s),
{
    match slot_id_exec(order, t, s) {
        Some(id) => Some(id),
        None => match moved_from_exec(remap, s) {
            Some(old) => slot_id_exec(order, t, old),
            None => None,
        },
    }
}

pub open spec fn nv_of(v: Seq<(u32, Option<u32>, usize)>) -> Seq<NameView> {
    v.map_values(|x: (u32, Option<u32>, usize)| (x.0, x.1, x.2 as nat))
}

fn name_model(names: &Vec<SpvInstruction>) -> (r: Vec<(u32, Option<u32>, usize)>)
    ensures
        nv_of(r@) == name_views(names@),
{
    let mut out: Vec<(u32, Option<u32>, usize)> = Vec::new();
    let n = names.len();
    let mut k: usize = 0;
    while k < n
        invariant
            k <= n == names@.len(),
            nv_of(out@) == name_views(names@.take(k as int)),
        decreases n - k,
    {
        let i = &names[k];
        let first = if i.operands.len() > 0 {
            match &i.operands[0] {
                SpvOperand::IdRef(x) => Some(*x),
                _ => None,
            }
        } else {
            None
        };
        let ghost before = out@;
        out.push((i.opcode, first, i.operands.len()));
        proof {
            assert(name_view(names@[k as int]) == (i.opcode, first, i.operands@.len()));
            assert(names@.take(k + 1) =~= names@.take(k as int).push(names@[k as int]));
            assert(name_views(names@.take(k + 1)) =~= name_views(names@.take(k as int)).push(name_view(names@[k as int])));
            assert(out@ =~= before.push((i.opcode, first, i.operands.len())));
            assert(nv_of(out@) =~= nv_of(before).push((i.opcode, first, i.operands@.len())));
        }
        k = k + 1;
    }
    assert(names@.take(n as int) =~= names@);
    out
}

proof fn lemma_first_name_extend(s: Seq<NameView>, j: int, id: u32)
    requires
        0 <= j <= s.len(),
        first_name(s.take(j), id) is Some,
    ensures
        first_name(s, id) == first_name(s.take(j), id),
    decreases s.len() - j,
{
    if j < s.len() {
        assert(s.take(j + 1).drop_last() =~= s.take(j));
        lemma_first_name_extend(s, j + 1, id);
    } else {
        assert(s.take(j) =~= s);
    }
}

fn first_name_exec(names: &Vec<(u32, Option<u32>, usize)>, id: u32) -> (r: Option<usize>)
    ensures
        r matches Some(i) ==> i < names@.len() && first_name(nv_of(names@), id) == Some(i as int),
        r is None ==> first_name(nv_of(names@), id) is None,
{
    let ghost s = nv_of(names@);
    let n = names.len();
    let mut i: usize = 0;
    while i < n
        invariant
            i <= n == names@.len(),
            s == nv_of(names@),
            first_name(s.take(i as int), id) is None,
        decreases n - i,
    {
        proof {
            assert(s.take(i + 1).drop_last() =~= s.take(i as int));
            assert(s.take(i + 1).last() == s[i as int]);
        }
        if names[i].0 == OP_NAME && names[i].1 == Some(id) {
            proof {
                lemma_first_name_extend(s, i + 1, id);
            }
            return Some(i);
        }
        i = i + 1;
    }
    assert(s.take(n as int) =~= s);
    None
}

proof fn lemma_edit_push(v: Seq<SpirvEdit>, e: SpirvEdit)
    ensures
        edit_views(v.push(e)) == edit_views(v).push(edit_view(e)),
        edit_views(v.push(e)).drop_last() == edit_views(v),
{
    assert(edit_views(v.push(e)) =~= edit_views(v).push(edit_view(e)));
    assert(edit_views(v.push(e)).drop_last() =~= edit_views(v));
}

/// Sets the debug name of each bound variable in `variables` to the
/// variable's name and moves the set and binding decorations that `remap`
/// moved, then assembles the module again (see `rewrite_edits`); a module
/// that does not parse is a compilation error with the parser's message.
pub fn rewrite_spirv_binding_names(spirv: &[u32], variables: &Vec<ShaderVariable>, remap: &Vec<SlotMove>) -> (r: Result<Vec<u32>, BentoError>)
    ensures
        match spirv_module_of(words_bytes(spirv@)) {
            Err(e) => r matches Err(BentoError::ShaderCompilation(x)) && x@ == e,
            Ok((m, _)) => match spirv_edited(words_bytes(spirv@), rewrite_edits(m, var_views(variables@), remap@)) {
                Ok(w) => r matches Ok(x) && x@ == w,
                Err(e) => r matches Err(BentoError::ShaderCompilation(x)) && x@ == e,
            },
        },
{
    let bytes = spirv_words_to_bytes(spirv);
    let module = match read_module(&bytes) {
        Err(e) => {
            return Err(BentoError::ShaderCompilation(e));
        },
        Ok((m, _)) => m,
    };
    let ghost m = module@;
    let (t, order) = collect_targets(&module.annotations);
    let anns = &module.annotations;
    let ghost counts = operand_counts(anns@);
    let mut names = name_model(&module.debug_names);
    let ghost names0 = nv_of(names@);
    let mut edits: Vec<SpirvEdit> = Vec::new();
    let n = anns.len();
    let mut k: usize = 0;
    while k < n
        invariant
            k <= n == anns@.len(),
            t.wf(),
            counts == operand_counts(anns@),
            names0 == nv_of(names@),
            edit_views(edits@) == ann_edits(anns@.take(k as int), order@, t@, remap@),
            apply_edits(counts, names0, edit_views(edits@)) == Some(names0),
        decreases n - k,
    {
        proof {
            assert(anns@.take(k + 1).drop_last() =~= anns@.take(k as int));
            assert(anns@.take(k + 1).last() == anns@[k as int]);
            assert(counts[k as int] == anns@[k as int].operands@.len());
        }
        let i = &anns[k];
        if i.opcode == OP_DECORATE && i.operands.len() > 0 {
            match &i.operands[0] {
                SpvOperand::IdRef(id) => match moved_to_exec(&order, &t, remap, *id) {
                    Some((ns, nb)) => {
                        if i.operands.len() > 1 {
                            match &i.operands[1] {
                                SpvOperand::Decoration(d) => {
                                    if *d == DECORATION_DESCRIPTOR_SET && i.operands.len() >= 3 {
                                        let e = SpirvEdit::SetAnnotationLiteral { index: k, value: ns };
                                        proof {
                                            lemma_edit_push(edits@, e);
                                        }
                                        edits.push(e);
                                    } else if *d == DECORATION_BINDING && i.operands.len() >= 3 {
                                        let e = SpirvEdit::SetAnnotationLiteral { index: k, value: nb };
                                        proof {
                                            lemma_edit_push(edits@, e);
                                        }
                                        edits.push(e);
                                    }
                                },
                                _ => {},
                            }
                        }
                    },
                    None => {},
                },
                _ => {},
            }
        }
        k = k + 1;
    }
    assert(anns@.take(n as int) =~= anns@);
    let ghost head = edit_views(edits@);
    let ghost vv = var_views(variables@);
    let nv = variables.len();
    let mut j: usize = 0;
    assert(head + Seq::<EditView>::empty() =~= head);
    while j < nv
        invariant
            j <= nv == variables@.len(),
            vv == var_views(variables@),
            t.wf(),
            counts == operand_counts(m.1),
            names0 == name_views(m.0),
            head == ann_edits(m.1, order@, t@, remap@),
            edit_views(edits@) == head + var_edits(vv.take(j as int), order@, t@, remap@, names0).0,
            nv_of(names@) == var_edits(vv.take(j as int), order@, t@, remap@, names0).1,
            apply_edits(counts, names0, edit_views(edits@)) == Some(nv_of(names@)),
        decreases nv - j,
    {
        let ghost before = var_edits(vv.take(j as int), order@, t@, remap@, names0);
        proof {
            assert(vv.take(j + 1).drop_last() =~= vv.take(j as int));
            assert(vv.take(j + 1).last() == var_view(variables@[j as int]));
        }
        let v = &variables[j];
        match var_slot_id_exec(&order, &t, remap, (v.set, v.kind.binding)) {
            None => {},
            Some(id) => {
                let name = v.name.clone();
                match first_name_exec(&names, id) {
                    Some(p) => {
                        let x = names[p];
                        if x.2 >= 2 {
                            let e = SpirvEdit::RenameDebugName { index: p, name };
                            proof {
                                lemma_edit_push(edits@, e);
                                assert(head + before.0.push(edit_view(e)) =~= (head + before.0).push(edit_view(e)));
                            }
                            edits.push(e);
                        } else {
                            let e = SpirvEdit::ExtendDebugName { index: p, name };
                            proof {
                                lemma_edit_push(edits@, e);
                                assert(head + before.0.push(edit_view(e)) =~= (head + before.0).push(edit_view(e)));
                            }
                            edits.push(e);
                            names.set(p, (x.0, x.1, x.2 + 1));
                            proof {
                                let s0 = before.1;
                                assert(nv_of(names@) =~= s0.update(p as int, (s0[p as int].0, s0[p as int].1, s0[p as int].2 + 1)));
                            }
                        }
                    },
                    None => {
                        let e = SpirvEdit::AppendDebugName { id, name };
                        proof {
                            lemma_edit_push(edits@, e);
                            assert(head + before.0.push(edit_view(e)) =~= (head + before.0).push(edit_view(e)));
                        }
                        edits.push(e);
                        names.push((OP_NAME, Some(id), 2));
                        proof {
                            assert(nv_of(names@) =~= before.1.push((OP_NAME, Some(id), 2nat)));
                        }
                    },
                }
            },
        }
        j = j + 1;
    }
    assert(vv.take(nv as int) =~= vv);
    match assemble_edited(&bytes, &edits) {
        Ok(w) => Ok(w),
        Err(e) => Err(BentoError::ShaderCompilation(e)),
    }
}

} // verus!
