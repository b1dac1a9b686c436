use vstd::prelude::*;

verus! {

/// How a camera projects: perspective or orthographic.
#[derive(Clone, Copy, Debug, PartialEq, Eq)]
pub enum ProjectionKind {
    Perspective,
    Orthographic,
}

impl ProjectionKind {
    /// Perspective is the default projection.
    pub fn default_kind() -> (k: ProjectionKind)
        ensures
            k == ProjectionKind::Perspective,
    {
        ProjectionKind::Perspective
    }

    /// The value the kind has in GPU buffers.
    pub fn as_u32(self) -> (v: u32)
        ensures
            v == (match self {
                ProjectionKind::Perspective => 0u32,
                ProjectionKind::Orthographic => 1u32,
            }),
    {
        match self {
            ProjectionKind::Perspective => 0,
            ProjectionKind::Orthographic => 1,
        }
    }
}

/// Which of the bindless vertex buffers a mesh lives in.
#[derive(Clone, Copy, Debug, PartialEq, Eq)]
pub enum VertexBufferSlot {
    Skeleton,
    Simple,
}

/// Number of bindless vertex buffers.
pub const VERTEX_BUFFER_SLOT_COUNT: usize = 2;

pub open spec fn slot_index(slot: VertexBufferSlot) -> usize {
    match slot {
        VertexBufferSlot::Skeleton => 0,
        VertexBufferSlot::Simple => 1,
    }
}

impl VertexBufferSlot {
    /// The index of the buffer: `Skeleton` is 0, `Simple` is 1.
    pub fn as_index(self) -> (i: usize)
        ensures
            i == slot_index(self),
            i < VERTEX_BUFFER_SLOT_COUNT,
    {
        match self {
            VertexBufferSlot::Skeleton => 0,
            VertexBufferSlot::Simple => 1,
        }
    }
}

/// Light type codes stored in `Light::position_type.w`.
pub const LIGHT_TYPE_DIRECTIONAL: u32 = 0;
pub const LIGHT_TYPE_POINT: u32 = 1;
pub const LIGHT_TYPE_SPOT: u32 = 2;
pub const LIGHT_TYPE_AREA_RECT: u32 = 3;

/// Skeleton header as laid out in the bindless skeleton buffer.
#[derive(Clone, Copy, Debug, Default, PartialEq, Eq)]
pub struct SkeletonHeader {
    /// Total number of joints in this skeleton.
    pub joint_count: u32,
    /// Base offset into the joint data buffer.
    pub joint_offset: u32,
    /// Base offset into the bind pose data buffer.
    pub bind_pose_offset: u32,
    /// Padding to keep the struct 16-byte aligned in buffers.
    pub _padding: u32,
}

/// Animation track as laid out in the bindless track buffer.
#[derive(Clone, Copy, Debug, Default, PartialEq, Eq)]
pub struct AnimationTrack {
    /// Joint index affected by this track.
    pub joint_index: u32,
    /// Number of keyframes in this track.
    pub keyframe_count: u32,
    /// Base offset into the keyframe buffer.
    pub keyframe_offset: u32,
    /// Padding to keep the struct 16-byte aligned in buffers.
    pub _padding: u32,
}

/// Where a particle is simulated and drawn.
#[derive(Clone, Copy, Debug, PartialEq, Eq)]
pub enum ParticleSpace {
    World3d,
    Screen2d,
}

impl ParticleSpace {
    /// World space is the default particle space.
    pub fn default_space() -> (s: ParticleSpace)
        ensures
            s == ParticleSpace::World3d,
    {
        ParticleSpace::World3d
    }

    /// The value the space has in GPU buffers.
    pub fn as_u32(self) -> (v: u32)
        ensures
            v == (match self {
                ParticleSpace::World3d => 0u32,
                ParticleSpace::Screen2d => 1u32,
            }),
    {
        match self {
            ParticleSpace::World3d => 0,
            ParticleSpace::Screen2d => 1,
        }
    }
}

/// A material: bindless texture ids and a render mask.
#[derive(Clone, Copy, Debug, Default, PartialEq, Eq)]
pub struct Material {
    pub base_color_texture_id: u16,
    pub normal_texture_id: u16,
    pub metallic_roughness_texture_id: u16,
    pub occlusion_texture_id: u16,
    pub emissive_texture_id: u16,
    pub render_mask: u16,
    pub _padding: u16,
}

} // verus!
