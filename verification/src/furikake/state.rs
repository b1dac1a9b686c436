//! The bindings that the two states reserve: the default state reserves
//! the timing block only, the bindless state the full set of bindless
//! tables.

use vstd::prelude::*;

use super::resolver::{FurikakeError, ReservedMetadata};
use crate::bento::builder::names_view;
use crate::bento::named::NamedMap;
use crate::bento::types::BindTableVariableType;
use crate::text::{chars_of, string_of};

verus! {

pub open spec fn default_names() -> Seq<Seq<char>> {
    seq!["meshi_timing"@]
}

pub open spec fn bindless_names() -> Seq<Seq<char>> {
    seq![
        "meshi_timing"@,
        "meshi_bindless_cameras"@,
        "meshi_bindless_textures"@,
        "meshi_bindless_samplers"@,
        "meshi_bindless_transformations"@,
        "meshi_bindless_materials"@,
        "meshi_bindless_lights"@,
        "meshi_bindless_skeletons"@,
        "meshi_bindless_joints"@,
        "meshi_bindless_animations"@,
        "meshi_bindless_animation_tracks"@,
        "meshi_bindless_animation_keyframes"@,
        "meshi_bindless_skinning"@,
        "meshi_bindless_vertices"@,
        "meshi_bindless_indices"@,
        "meshi_particles"@,
        "meshi_per_obj_joints"@,
    ]
}

/// The type each bindless binding holds: the timing block is a uniform,
/// textures are images, samplers samplers, and every other table storage.
pub open spec fn bindless_kind(i: int) -> BindTableVariableType {
    if i == 0 {
        BindTableVariableType::Uniform
    } else if i == 2 {
        BindTableVariableType::Image
    } else if i == 3 {
        BindTableVariableType::Sampler
    } else {
        BindTableVariableType::Storage
    }
}

pub open spec fn metadata_names(v: Seq<ReservedMetadata>) -> Seq<Seq<char>> {
    v.map_values(|m: ReservedMetadata| m.name@)
}

fn owned(s: &str) -> (r: String)
    ensures
        r@ == s@,
{
    string_of(chars_of(s).as_slice())
}

/// The names the default state reserves.
pub fn default_state_names() -> (r: Vec<String>)
    ensures
        names_view(r@) == default_names(),
{
    let mut v: Vec<String> = Vec::new();
    v.push(owned("meshi_timing"));
    assert(names_view(v@) =~= default_names());
    v
}

/// What the default state reserves: the timing block, a uniform.
pub fn default_metadata() -> (r: Vec<ReservedMetadata>)
    ensures
        metadata_names(r@) == default_names(),
        r@.len() == 1,
        r@[0].kind == BindTableVariableType::Uniform,
{
    let mut v: Vec<ReservedMetadata> = Vec::new();
    v.push(ReservedMetadata { name: owned("meshi_timing"), kind: BindTableVariableType::Uniform });
    assert(metadata_names(v@) =~= default_names());
    v
}

fn bindless_name_list() -> (r: Vec<&'static str>)
    ensures
        r@.map_values(|s: &str| s@) == bindless_names(),
{
    let v: Vec<&'static str> = vec![
        "meshi_timing",
        "meshi_bindless_cameras",
        "meshi_bindless_textures",
        "meshi_bindless_samplers",
        "meshi_bindless_transformations",
        "meshi_bindless_materials",
        "meshi_bindless_lights",
        "meshi_bindless_skeletons",
        "meshi_bindless_joints",
        "meshi_bindless_animations",
        "meshi_bindless_animation_tracks",
        "meshi_bindless_animation_keyframes",
        "meshi_bindless_skinning",
        "meshi_bindless_vertices",
        "meshi_bindless_indices",
        "meshi_particles",
        "meshi_per_obj_joints",
    ];
    assert(v@.map_values(|s: &str| s@) =~= bindless_names());
    v
}

/// The names the bindless state reserves, in order.
pub fn bindless_state_names() -> (r: Vec<String>)
    ensures
        names_view(r@) == bindless_names(),
{
    let list = bindless_name_list();
    let ghost all = list@.map_values(|s: &str| s@);
    let mut out: Vec<String> = Vec::new();
    let n = list.len();
    let mut i: usize = 0;
    while i < n
        invariant
            i <= n == list@.len(),
            all == list@.map_values(|s: &str| s@),
            names_view(out@) == all.take(i as int),
        decreases n - i,
    {
        let s = owned(list[i]);
        let ghost before = out@;
        out.push(s);
        assert(names_view(out@) =~= names_view(before).push(s@));
        assert(all.take(i + 1) =~= all.take(i as int).push(all[i as int]));
        i = i + 1;
    }
    assert(all.take(n as int) =~= all);
    out
}

/// What the bindless state reserves: each name of `bindless_names` with
/// the type `bindless_kind` gives it.
pub fn bindless_metadata() -> (r: Vec<ReservedMetadata>)
    ensures
        metadata_names(r@) == bindless_names(),
        forall|i: int| 0 <= i < r@.len() ==> #[trigger] r@[i].kind == bindless_kind(i),
{
    let list = bindless_name_list();
    let ghost all = list@.map_values(|s: &str| s@);
    let mut out: Vec<ReservedMetadata> = Vec::new();
    let n = list.len();
    let mut i: usize = 0;
    while i < n
        invariant
            i <= n == list@.len(),
            all == list@.map_values(|s: &str| s@),
            out@.len() == i,
            metadata_names(out@) == all.take(i as int),
            forall|j: int| 0 <= j < i ==> #[trigger] out@[j].kind == bindless_kind(j),
        decreases n - i,
    {
        let kind = if i == 0 {
            BindTableVariableType::Uniform
        } else if i == 2 {
            BindTableVariableType::Image
        } else if i == 3 {
            BindTableVariableType::Sampler
        } else {
            BindTableVariableType::Storage
        };
        let m = ReservedMetadata { name: owned(list[i]), kind };
        let ghost before = out@;
        out.push(m);
        assert(metadata_names(out@) =~= metadata_names(before).push(m.name@));
        assert(all.take(i + 1) =~= all.take(i as int).push(all[i as int]));
        i = i + 1;
    }
    assert(all.take(n as int) =~= all);
    out
}

// ------------------------------------------------------------ lookups

/// The type of item a reserved binding holds.
#[derive(Clone, Copy, Debug, PartialEq, Eq, Structural)]
pub enum ReservedItemKind {
    Timing,
    Cameras,
    Textures,
    Samplers,
    Transformations,
    Materials,
    Lights,
    Skeletons,
    Joints,
    Animations,
    AnimationTracks,
    AnimationKeyframes,
    Skinning,
    Vertices,
    Indices,
    Particles,
    PerObjectJoints,
}

/// The item type of bindless binding `i` (in the order of
/// `bindless_names`).
pub open spec fn bindless_item_kind(i: int) -> ReservedItemKind {
    if i == 0 {
        ReservedItemKind::Timing
    } else if i == 1 {
        ReservedItemKind::Cameras
    } else if i == 2 {
        ReservedItemKind::Textures
    } else if i == 3 {
        ReservedItemKind::Samplers
    } else if i == 4 {
        ReservedItemKind::Transformations
    } else if i == 5 {
        ReservedItemKind::Materials
    } else if i == 6 {
        ReservedItemKind::Lights
    } else if i == 7 {
        ReservedItemKind::Skeletons
    } else if i == 8 {
        ReservedItemKind::Joints
    } else if i == 9 {
        ReservedItemKind::Animations
    } else if i == 10 {
        ReservedItemKind::AnimationTracks
    } else if i == 11 {
        ReservedItemKind::AnimationKeyframes
    } else if i == 12 {
        ReservedItemKind::Skinning
    } else if i == 13 {
        ReservedItemKind::Vertices
    } else if i == 14 {
        ReservedItemKind::Indices
    } else if i == 15 {
        ReservedItemKind::Particles
    } else {
        ReservedItemKind::PerObjectJoints
    }
}

fn bindless_item_kind_exec(i: usize) -> (r: ReservedItemKind)
    ensures
        r == bindless_item_kind(i as int),
{
    if i == 0 {
        ReservedItemKind::Timing
    } else if i == 1 {
        ReservedItemKind::Cameras
    } else if i == 2 {
        ReservedItemKind::Textures
    } else if i == 3 {
        ReservedItemKind::Samplers
    } else if i == 4 {
        ReservedItemKind::Transformations
    } else if i == 5 {
        ReservedItemKind::Materials
    } else if i == 6 {
        ReservedItemKind::Lights
    } else if i == 7 {
        ReservedItemKind::Skeletons
    } else if i == 8 {
        ReservedItemKind::Joints
    } else if i == 9 {
        ReservedItemKind::Animations
    } else if i == 10 {
        ReservedItemKind::AnimationTracks
    } else if i == 11 {
        ReservedItemKind::AnimationKeyframes
    } else if i == 12 {
        ReservedItemKind::Skinning
    } else if i == 13 {
        ReservedItemKind::Vertices
    } else if i == 14 {
        ReservedItemKind::Indices
    } else if i == 15 {
        ReservedItemKind::Particles
    } else {
        ReservedItemKind::PerObjectJoints
    }
}

/// The first `k` bindless names, each with its item type, inserted in
/// order.
pub open spec fn bindless_items_map(k: int) -> Map<Seq<char>, ReservedItemKind>
    decreases k,
{
    if k <= 0 {
        Map::empty()
    } else {
        bindless_items_map(k - 1).insert(bindless_names()[k - 1], bindless_item_kind(k - 1))
    }
}

/// The items the default state holds: its timing block.
pub fn default_reserved_items() -> (r: NamedMap<ReservedItemKind>)
    ensures
        r.wf(),
        r@ == Map::<Seq<char>, ReservedItemKind>::empty().insert("meshi_timing"@, ReservedItemKind::Timing),
{
    let mut r = NamedMap::new();
    r.insert(owned("meshi_timing"), ReservedItemKind::Timing);
    r
}

/// The items the bindless state holds: each bindless name with its item
/// type.
pub fn bindless_reserved_items() -> (r: NamedMap<ReservedItemKind>)
    ensures
        r.wf(),
        r@ == bindless_items_map(bindless_names().len() as int),
{
    let list = bindless_name_list();
    let ghost all = list@.map_values(|s: &str| s@);
    let mut r: NamedMap<ReservedItemKind> = NamedMap::new();
    let n = list.len();
    let mut i: usize = 0;
    while i < n
        invariant
            i <= n == list@.len(),
            all == list@.map_values(|s: &str| s@),
            all == bindless_names(),
            r.wf(),
            r@ == bindless_items_map(i as int),
        decreases n - i,
    {
        let kind = bindless_item_kind_exec(i);
        let name = owned(list[i]);
        assert(name@ == bindless_names()[i as int]);
        r.insert(name, kind);
        i = i + 1;
    }
    r
}

/// The type of the item reserved under `key`; a name nothing is reserved
/// under is `MissingReservedBinding`.
pub fn reserved_binding(items: &NamedMap<ReservedItemKind>, key: &str) -> (r: Result<ReservedItemKind, FurikakeError>)
    requires
        items.wf(),
    ensures
        items@.contains_key(key@) ==> r == Ok::<ReservedItemKind, FurikakeError>(items@[key@]),
        !items@.contains_key(key@) ==> (r matches Err(FurikakeError::MissingReservedBinding { name }) && name@ == key@),
{
    match items.get(key) {
        Some(k) => Ok(*k),
        None => Err(FurikakeError::MissingReservedBinding { name: owned(key) }),
    }
}

/// Typed access to the item reserved under `key`, which the caller wants
/// as a `kind`: a missing name is `MissingReservedBinding`, an item of
/// another type `ReservedItemTypeMismatch`.
pub fn reserved_of_kind(items: &NamedMap<ReservedItemKind>, key: &str, kind: ReservedItemKind) -> (r: Result<(), FurikakeError>)
    requires
        items.wf(),
    ensures
        !items@.contains_key(key@) ==> (r matches Err(FurikakeError::MissingReservedBinding { name }) && name@ == key@),
        items@.contains_key(key@) && items@[key@] != kind ==> (r matches Err(
            FurikakeError::ReservedItemTypeMismatch { name },
        ) && name@ == key@),
        items@.contains_key(key@) && items@[key@] == kind ==> r is Ok,
{
    match reserved_binding(items, key) {
        Err(e) => Err(e),
        Ok(k) => if k == kind {
            Ok(())
        } else {
            Err(FurikakeError::ReservedItemTypeMismatch { name: owned(key) })
        },
    }
}

} // verus!
