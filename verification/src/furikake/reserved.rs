use vstd::prelude::*;

use super::handle::Handle;
use super::joints::filled;
use super::slots::{added, pending_after_write, pushed, removed, same_config, slot_range, synced, SlotReservation, SyncRequest};

verus! {

/// Slot removal limit shared by the light, material and
/// transformation tables: only slots below it are taken back.
pub const LOW_SLOT_REMOVE_LIMIT: usize = 512;

/// Number of cameras in the reserved buffer.
pub const CAMERA_SLOTS: usize = 2048;
/// Number of lights in the reserved buffer.
pub const LIGHT_SLOTS: usize = 4096;
/// Number of materials in the reserved buffer.
pub const MATERIAL_SLOTS: usize = 4096;
/// Number of particles in the reserved buffer.
pub const PARTICLE_SLOTS: usize = 16384;
/// Number of transformations in the reserved buffer.
pub const TRANSFORMATION_SLOTS: usize = 8162;
/// Number of joint transforms in the reserved buffer.
pub const JOINT_SLOTS: usize = 8192;
/// Number of skeleton headers in the reserved buffer.
pub const SKELETON_SLOTS: usize = 2048;
/// Number of animation clips in the reserved buffer.
pub const ANIMATION_CLIP_SLOTS: usize = 512;
/// Number of animation tracks in the reserved buffer.
pub const ANIMATION_TRACK_SLOTS: usize = 4096;
/// Number of animation keyframes in the reserved buffer.
pub const ANIMATION_KEYFRAME_SLOTS: usize = 16384;
/// Number of animation states in the reserved buffer.
pub const SKINNING_SLOTS: usize = 4096;

/// Reserved buffer of cameras.
pub struct ReservedBindlessCamera<T> {
    pub slots: SlotReservation<T>,
}

impl<T: Copy> ReservedBindlessCamera<T> {
    /// The slots are usable (see `SlotReservation::wf`) and the exhausted
    /// handle, when valid, names an element.
    pub open spec fn wf(&self) -> bool {
        &&& self.slots.wf()
        &&& self.slots.exhausted_handle().is_valid() ==> self.slots.exhausted_handle().slot < self.slots.contents().len()
    }

    /// `CAMERA_SLOTS` cameras holding `initial`, all free; freed slots are taken back anywhere in the buffer,
    /// an exhausted table hands out slot 0, and writes are tracked for partial uploads.
    pub fn new(initial: T) -> (r: Self)
        requires
            CAMERA_SLOTS * vstd::layout::size_of::<T>() <= u32::MAX,
        ensures
            r.wf(),
            r.slots.contents() == Seq::new(CAMERA_SLOTS as nat, |_i: int| initial),
            r.slots.free_slots() == slot_range(CAMERA_SLOTS as nat),
            !r.slots.pending().dirty,
            r.slots.limit() == CAMERA_SLOTS,
            r.slots.exhausted_handle() == (Handle { slot: 0, generation: 0 }),
            r.slots.writes_tracked() == true,
    {
        ReservedBindlessCamera { slots: SlotReservation::new(filled(initial, CAMERA_SLOTS), CAMERA_SLOTS, Handle::new(0, 0), true) }
    }

    /// Takes a free camera slot (see `added`).
    pub fn add_camera(&mut self) -> (h: Handle)
        requires
            old(self).wf(),
        ensures
            final(self).wf(),
            added(old(self).slots, final(self).slots, h),
    {
        self.slots.add()
    }

    /// Takes a free camera slot and stores `camera` there (see `pushed`).
    pub fn push_camera(&mut self, camera: T) -> (h: Handle)
        requires
            old(self).wf(),
        ensures
            final(self).wf(),
            pushed(old(self).slots, final(self).slots, h, camera),
    {
        self.slots.push(camera)
    }

    /// Gives the slot of `camera` back (see `removed`).
    pub fn remove_camera(&mut self, camera: Handle)
        requires
            old(self).wf(),
        ensures
            final(self).wf(),
            removed(old(self).slots, final(self).slots, camera),
    {
        self.slots.remove(camera)
    }

    /// The camera in the slot of `handle`.
    pub fn camera(&self, handle: Handle) -> (r: &T)
        requires
            handle.slot < self.slots.contents().len(),
        ensures
            *r == self.slots.contents()[handle.slot as int],
    {
        self.slots.get(handle)
    }

    /// The camera in the slot of `handle`, to change in place; its bytes
    /// become pending when writes are tracked.
    pub fn camera_mut(&mut self, handle: Handle) -> (r: &mut T)
        requires
            old(self).wf(),
            handle.slot < old(self).slots.contents().len(),
        ensures
            *r == old(self).slots.contents()[handle.slot as int],
            final(self).wf(),
            final(self).slots.contents() == old(self).slots.contents().update(handle.slot as int, *final(r)),
            final(self).slots.free_slots() == old(self).slots.free_slots(),
            final(self).slots.pending() == pending_after_write(old(self).slots, handle.slot),
            same_config(old(self).slots, final(self).slots),
    {
        self.slots.get_mut(handle)
    }

    /// The upload the device buffer needs (see `synced`).
    pub fn update(&mut self) -> (r: SyncRequest)
        requires
            old(self).wf(),
        ensures
            final(self).wf(),
            synced(old(self).slots, final(self).slots, r),
    {
        self.slots.sync_request()
    }
}

/// Reserved buffer of lights.
pub struct ReservedBindlessLights<T> {
    pub slots: SlotReservation<T>,
}

impl<T: Copy> ReservedBindlessLights<T> {
    /// The slots are usable (see `SlotReservation::wf`) and the exhausted
    /// handle, when valid, names an element.
    pub open spec fn wf(&self) -> bool {
        &&& self.slots.wf()
        &&& self.slots.exhausted_handle().is_valid() ==> self.slots.exhausted_handle().slot < self.slots.contents().len()
    }

    /// `LIGHT_SLOTS` lights holding `initial`, all free; freed slots are taken back below the shared low limit,
    /// an exhausted table hands out slot 0, and writes are tracked for partial uploads.
    pub fn new(initial: T) -> (r: Self)
        requires
            LIGHT_SLOTS * vstd::layout::size_of::<T>() <= u32::MAX,
        ensures
            r.wf(),
            r.slots.contents() == Seq::new(LIGHT_SLOTS as nat, |_i: int| initial),
            r.slots.free_slots() == slot_range(LIGHT_SLOTS as nat),
            !r.slots.pending().dirty,
            r.slots.limit() == LOW_SLOT_REMOVE_LIMIT,
            r.slots.exhausted_handle() == (Handle { slot: 0, generation: 0 }),
            r.slots.writes_tracked() == true,
    {
        ReservedBindlessLights { slots: SlotReservation::new(filled(initial, LIGHT_SLOTS), LOW_SLOT_REMOVE_LIMIT, Handle::new(0, 0), true) }
    }

    /// Takes a free light slot (see `added`).
    pub fn add_light(&mut self) -> (h: Handle)
        requires
            old(self).wf(),
        ensures
            final(self).wf(),
            added(old(self).slots, final(self).slots, h),
    {
        self.slots.add()
    }

    /// Takes a free light slot and stores `light` there (see `pushed`).
    pub fn push_light(&mut self, light: T) -> (h: Handle)
        requires
            old(self).wf(),
        ensures
            final(self).wf(),
            pushed(old(self).slots, final(self).slots, h, light),
    {
        self.slots.push(light)
    }

    /// Gives the slot of `light` back (see `removed`).
    pub fn remove_light(&mut self, light: Handle)
        requires
            old(self).wf(),
        ensures
            final(self).wf(),
            removed(old(self).slots, final(self).slots, light),
    {
        self.slots.remove(light)
    }

    /// The light in the slot of `handle`.
    pub fn light(&self, handle: Handle) -> (r: &T)
        requires
            handle.slot < self.slots.contents().len(),
        ensures
            *r == self.slots.contents()[handle.slot as int],
    {
        self.slots.get(handle)
    }

    /// The light in the slot of `handle`, to change in place; its bytes
    /// become pending when writes are tracked.
    pub fn light_mut(&mut self, handle: Handle) -> (r: &mut T)
        requires
            old(self).wf(),
            handle.slot < old(self).slots.contents().len(),
        ensures
            *r == old(self).slots.contents()[handle.slot as int],
            final(self).wf(),
            final(self).slots.contents() == old(self).slots.contents().update(handle.slot as int, *final(r)),
            final(self).slots.free_slots() == old(self).slots.free_slots(),
            final(self).slots.pending() == pending_after_write(old(self).slots, handle.slot),
            same_config(old(self).slots, final(self).slots),
    {
        self.slots.get_mut(handle)
    }

    /// The upload the device buffer needs (see `synced`).
    pub fn update(&mut self) -> (r: SyncRequest)
        requires
            old(self).wf(),
        ensures
            final(self).wf(),
            synced(old(self).slots, final(self).slots, r),
    {
        self.slots.sync_request()
    }
}

/// Reserved buffer of materials.
pub struct ReservedBindlessMaterials<T> {
    pub slots: SlotReservation<T>,
}

impl<T: Copy> ReservedBindlessMaterials<T> {
    /// The slots are usable (see `SlotReservation::wf`) and the exhausted
    /// handle, when valid, names an element.
    pub open spec fn wf(&self) -> bool {
        &&& self.slots.wf()
        &&& self.slots.exhausted_handle().is_valid() ==> self.slots.exhausted_handle().slot < self.slots.contents().len()
    }

    /// `MATERIAL_SLOTS` materials holding `initial`, all free; freed slots are taken back below the shared low limit,
    /// an exhausted table hands out slot 0, and writes are tracked for partial uploads.
    pub fn new(initial: T) -> (r: Self)
        requires
            MATERIAL_SLOTS * vstd::layout::size_of::<T>() <= u32::MAX,
        ensures
            r.wf(),
            r.slots.contents() == Seq::new(MATERIAL_SLOTS as nat, |_i: int| initial),
            r.slots.free_slots() == slot_range(MATERIAL_SLOTS as nat),
            !r.slots.pending().dirty,
            r.slots.limit() == LOW_SLOT_REMOVE_LIMIT,
            r.slots.exhausted_handle() == (Handle { slot: 0, generation: 0 }),
            r.slots.writes_tracked() == true,
    {
        ReservedBindlessMaterials { slots: SlotReservation::new(filled(initial, MATERIAL_SLOTS), LOW_SLOT_REMOVE_LIMIT, Handle::new(0, 0), true) }
    }

    /// Takes a free material slot (see `added`).
    pub fn add_material(&mut self) -> (h: Handle)
        requires
            old(self).wf(),
        ensures
            final(self).wf(),
            added(old(self).slots, final(self).slots, h),
    {
        self.slots.add()
    }

    /// Takes a free material slot and stores `material` there (see `pushed`).
    pub fn push_material(&mut self, material: T) -> (h: Handle)
        requires
            old(self).wf(),
        ensures
            final(self).wf(),
            pushed(old(self).slots, final(self).slots, h, material),
    {
        self.slots.push(material)
    }

    /// Gives the slot of `material` back (see `removed`).
    pub fn remove_material(&mut self, material: Handle)
        requires
            old(self).wf(),
        ensures
            final(self).wf(),
            removed(old(self).slots, final(self).slots, material),
    {
        self.slots.remove(material)
    }

    /// The material in the slot of `handle`.
    pub fn material(&self, handle: Handle) -> (r: &T)
        requires
            handle.slot < self.slots.contents().len(),
        ensures
            *r == self.slots.contents()[handle.slot as int],
    {
        self.slots.get(handle)
    }

    /// The material in the slot of `handle`, to change in place; its bytes
    /// become pending when writes are tracked.
    pub fn material_mut(&mut self, handle: Handle) -> (r: &mut T)
        requires
            old(self).wf(),
            handle.slot < old(self).slots.contents().len(),
        ensures
            *r == old(self).slots.contents()[handle.slot as int],
            final(self).wf(),
            final(self).slots.contents() == old(self).slots.contents().update(handle.slot as int, *final(r)),
            final(self).slots.free_slots() == old(self).slots.free_slots(),
            final(self).slots.pending() == pending_after_write(old(self).slots, handle.slot),
            same_config(old(self).slots, final(self).slots),
    {
        self.slots.get_mut(handle)
    }

    /// The upload the device buffer needs (see `synced`).
    pub fn update(&mut self) -> (r: SyncRequest)
        requires
            old(self).wf(),
        ensures
            final(self).wf(),
            synced(old(self).slots, final(self).slots, r),
    {
        self.slots.sync_request()
    }
}

/// Reserved buffer of particles.
pub struct ReservedParticles<T> {
    pub slots: SlotReservation<T>,
}

impl<T: Copy> ReservedParticles<T> {
    /// The slots are usable (see `SlotReservation::wf`) and the exhausted
    /// handle, when valid, names an element.
    pub open spec fn wf(&self) -> bool {
        &&& self.slots.wf()
        &&& self.slots.exhausted_handle().is_valid() ==> self.slots.exhausted_handle().slot < self.slots.contents().len()
    }

    /// `PARTICLE_SLOTS` particles holding `initial`, all free; freed slots are taken back anywhere in the buffer,
    /// an exhausted table hands out slot 0, and writes are tracked for partial uploads.
    pub fn new(initial: T) -> (r: Self)
        requires
            PARTICLE_SLOTS * vstd::layout::size_of::<T>() <= u32::MAX,
        ensures
            r.wf(),
            r.slots.contents() == Seq::new(PARTICLE_SLOTS as nat, |_i: int| initial),
            r.slots.free_slots() == slot_range(PARTICLE_SLOTS as nat),
            !r.slots.pending().dirty,
            r.slots.limit() == PARTICLE_SLOTS,
            r.slots.exhausted_handle() == (Handle { slot: 0, generation: 0 }),
            r.slots.writes_tracked() == true,
    {
        ReservedParticles { slots: SlotReservation::new(filled(initial, PARTICLE_SLOTS), PARTICLE_SLOTS, Handle::new(0, 0), true) }
    }

    /// Takes a free particle slot (see `added`).
    pub fn add_particle(&mut self) -> (h: Handle)
        requires
            old(self).wf(),
        ensures
            final(self).wf(),
            added(old(self).slots, final(self).slots, h),
    {
        self.slots.add()
    }

    /// Takes a free particle slot and stores `particle` there (see `pushed`).
    pub fn push_particle(&mut self, particle: T) -> (h: Handle)
        requires
            old(self).wf(),
        ensures
            final(self).wf(),
            pushed(old(self).slots, final(self).slots, h, particle),
    {
        self.slots.push(particle)
    }

    /// Gives the slot of `particle` back (see `removed`).
    pub fn remove_particle(&mut self, particle: Handle)
        requires
            old(self).wf(),
        ensures
            final(self).wf(),
            removed(old(self).slots, final(self).slots, particle),
    {
        self.slots.remove(particle)
    }

    /// The particle in the slot of `handle`.
    pub fn particle(&self, handle: Handle) -> (r: &T)
        requires
            handle.slot < self.slots.contents().len(),
        ensures
            *r == self.slots.contents()[handle.slot as int],
    {
        self.slots.get(handle)
    }

    /// The particle in the slot of `handle`, to change in place; its bytes
    /// become pending when writes are tracked.
    pub fn particle_mut(&mut self, handle: Handle) -> (r: &mut T)
        requires
            old(self).wf(),
            handle.slot < old(self).slots.contents().len(),
        ensures
            *r == old(self).slots.contents()[handle.slot as int],
            final(self).wf(),
            final(self).slots.contents() == old(self).slots.contents().update(handle.slot as int, *final(r)),
            final(self).slots.free_slots() == old(self).slots.free_slots(),
            final(self).slots.pending() == pending_after_write(old(self).slots, handle.slot),
            same_config(old(self).slots, final(self).slots),
    {
        self.slots.get_mut(handle)
    }

    /// The upload the device buffer needs (see `synced`).
    pub fn update(&mut self) -> (r: SyncRequest)
        requires
            old(self).wf(),
        ensures
            final(self).wf(),
            synced(old(self).slots, final(self).slots, r),
    {
        self.slots.sync_request()
    }
}

/// Reserved buffer of transformations.
pub struct ReservedBindlessTransformations<T> {
    pub slots: SlotReservation<T>,
}

impl<T: Copy> ReservedBindlessTransformations<T> {
    /// The slots are usable (see `SlotReservation::wf`) and the exhausted
    /// handle, when valid, names an element.
    pub open spec fn wf(&self) -> bool {
        &&& self.slots.wf()
        &&& self.slots.exhausted_handle().is_valid() ==> self.slots.exhausted_handle().slot < self.slots.contents().len()
    }

    /// `TRANSFORMATION_SLOTS` transformations holding `initial`, all free; freed slots are taken back below the shared low limit,
    /// an exhausted table hands out the invalid handle, and the whole buffer is uploaded on every update.
    pub fn new(initial: T) -> (r: Self)
        requires
            TRANSFORMATION_SLOTS * vstd::layout::size_of::<T>() <= u32::MAX,
        ensures
            r.wf(),
            r.slots.contents() == Seq::new(TRANSFORMATION_SLOTS as nat, |_i: int| initial),
            r.slots.free_slots() == slot_range(TRANSFORMATION_SLOTS as nat),
            !r.slots.pending().dirty,
            r.slots.limit() == LOW_SLOT_REMOVE_LIMIT,
            r.slots.exhausted_handle() == (Handle { slot: u16::MAX, generation: u16::MAX }),
            r.slots.writes_tracked() == false,
    {
        ReservedBindlessTransformations { slots: SlotReservation::new(filled(initial, TRANSFORMATION_SLOTS), LOW_SLOT_REMOVE_LIMIT, Handle::invalid(), false) }
    }

    /// Takes a free transform slot (see `added`).
    pub fn add_transform(&mut self) -> (h: Handle)
        requires
            old(self).wf(),
        ensures
            final(self).wf(),
            added(old(self).slots, final(self).slots, h),
    {
        self.slots.add()
    }

    /// Gives the slot of `transform` back (see `removed`).
    pub fn remove_transform(&mut self, transform: Handle)
        requires
            old(self).wf(),
        ensures
            final(self).wf(),
            removed(old(self).slots, final(self).slots, transform),
    {
        self.slots.remove(transform)
    }

    /// The transform in the slot of `handle`.
    pub fn transform(&self, handle: Handle) -> (r: &T)
        requires
            handle.slot < self.slots.contents().len(),
        ensures
            *r == self.slots.contents()[handle.slot as int],
    {
        self.slots.get(handle)
    }

    /// The transform in the slot of `handle`, to change in place; its bytes
    /// become pending when writes are tracked.
    pub fn transform_mut(&mut self, handle: Handle) -> (r: &mut T)
        requires
            old(self).wf(),
            handle.slot < old(self).slots.contents().len(),
        ensures
            *r == old(self).slots.contents()[handle.slot as int],
            final(self).wf(),
            final(self).slots.contents() == old(self).slots.contents().update(handle.slot as int, *final(r)),
            final(self).slots.free_slots() == old(self).slots.free_slots(),
            final(self).slots.pending() == pending_after_write(old(self).slots, handle.slot),
            same_config(old(self).slots, final(self).slots),
    {
        self.slots.get_mut(handle)
    }

    /// The upload the device buffer needs (see `synced`).
    pub fn update(&mut self) -> (r: SyncRequest)
        requires
            old(self).wf(),
        ensures
            final(self).wf(),
            synced(old(self).slots, final(self).slots, r),
    {
        self.slots.sync_request()
    }
}

/// Reserved buffer of joint transforms.
pub struct ReservedBindlessJoints<T> {
    pub slots: SlotReservation<T>,
}

impl<T: Copy> ReservedBindlessJoints<T> {
    /// The slots are usable (see `SlotReservation::wf`) and the exhausted
    /// handle, when valid, names an element.
    pub open spec fn wf(&self) -> bool {
        &&& self.slots.wf()
        &&& self.slots.exhausted_handle().is_valid() ==> self.slots.exhausted_handle().slot < self.slots.contents().len()
    }

    /// `JOINT_SLOTS` joint transforms holding `initial`, all free; freed slots are taken back anywhere in the buffer,
    /// an exhausted table hands out the invalid handle, and the whole buffer is uploaded on every update.
    pub fn new(initial: T) -> (r: Self)
        requires
            JOINT_SLOTS * vstd::layout::size_of::<T>() <= u32::MAX,
        ensures
            r.wf(),
            r.slots.contents() == Seq::new(JOINT_SLOTS as nat, |_i: int| initial),
            r.slots.free_slots() == slot_range(JOINT_SLOTS as nat),
            !r.slots.pending().dirty,
            r.slots.limit() == JOINT_SLOTS,
            r.slots.exhausted_handle() == (Handle { slot: u16::MAX, generation: u16::MAX }),
            r.slots.writes_tracked() == false,
    {
        ReservedBindlessJoints { slots: SlotReservation::new(filled(initial, JOINT_SLOTS), JOINT_SLOTS, Handle::invalid(), false) }
    }

    /// Takes a free joint slot (see `added`).
    pub fn add_joint(&mut self) -> (h: Handle)
        requires
            old(self).wf(),
        ensures
            final(self).wf(),
            added(old(self).slots, final(self).slots, h),
    {
        self.slots.add()
    }

    /// Takes a free joint slot and stores `joint` there (see `pushed`).
    pub fn push_joint(&mut self, joint: T) -> (h: Handle)
        requires
            old(self).wf(),
        ensures
            final(self).wf(),
            pushed(old(self).slots, final(self).slots, h, joint),
    {
        self.slots.push(joint)
    }

    /// Gives the slot of `joint` back (see `removed`).
    pub fn remove_joint(&mut self, joint: Handle)
        requires
            old(self).wf(),
        ensures
            final(self).wf(),
            removed(old(self).slots, final(self).slots, joint),
    {
        self.slots.remove(joint)
    }

    /// The joint in the slot of `handle`.
    pub fn joint(&self, handle: Handle) -> (r: &T)
        requires
            handle.slot < self.slots.contents().len(),
        ensures
            *r == self.slots.contents()[handle.slot as int],
    {
        self.slots.get(handle)
    }

    /// The joint in the slot of `handle`, to change in place; its bytes
    /// become pending when writes are tracked.
    pub fn joint_mut(&mut self, handle: Handle) -> (r: &mut T)
        requires
            old(self).wf(),
            handle.slot < old(self).slots.contents().len(),
        ensures
            *r == old(self).slots.contents()[handle.slot as int],
            final(self).wf(),
            final(self).slots.contents() == old(self).slots.contents().update(handle.slot as int, *final(r)),
            final(self).slots.free_slots() == old(self).slots.free_slots(),
            final(self).slots.pending() == pending_after_write(old(self).slots, handle.slot),
            same_config(old(self).slots, final(self).slots),
    {
        self.slots.get_mut(handle)
    }

    /// The upload the device buffer needs (see `synced`).
    pub fn update(&mut self) -> (r: SyncRequest)
        requires
            old(self).wf(),
        ensures
            final(self).wf(),
            synced(old(self).slots, final(self).slots, r),
    {
        self.slots.sync_request()
    }
}

/// Reserved buffer of skeleton headers.
pub struct ReservedBindlessSkeletons<T> {
    pub slots: SlotReservation<T>,
}

impl<T: Copy> ReservedBindlessSkeletons<T> {
    /// The slots are usable (see `SlotReservation::wf`) and the exhausted
    /// handle, when valid, names an element.
    pub open spec fn wf(&self) -> bool {
        &&& self.slots.wf()
        &&& self.slots.exhausted_handle().is_valid() ==> self.slots.exhausted_handle().slot < self.slots.contents().len()
    }

    /// `SKELETON_SLOTS` skeleton headers holding `initial`, all free; freed slots are taken back anywhere in the buffer,
    /// an exhausted table hands out the invalid handle, and writes are tracked for partial uploads.
    pub fn new(initial: T) -> (r: Self)
        requires
            SKELETON_SLOTS * vstd::layout::size_of::<T>() <= u32::MAX,
        ensures
            r.wf(),
            r.slots.contents() == Seq::new(SKELETON_SLOTS as nat, |_i: int| initial),
            r.slots.free_slots() == slot_range(SKELETON_SLOTS as nat),
            !r.slots.pending().dirty,
            r.slots.limit() == SKELETON_SLOTS,
            r.slots.exhausted_handle() == (Handle { slot: u16::MAX, generation: u16::MAX }),
            r.slots.writes_tracked() == true,
    {
        ReservedBindlessSkeletons { slots: SlotReservation::new(filled(initial, SKELETON_SLOTS), SKELETON_SLOTS, Handle::invalid(), true) }
    }

    /// Takes a free skeleton slot (see `added`).
    pub fn add_skeleton(&mut self) -> (h: Handle)
        requires
            old(self).wf(),
        ensures
            final(self).wf(),
            added(old(self).slots, final(self).slots, h),
    {
        self.slots.add()
    }

    /// Takes a free skeleton slot and stores `skeleton` there (see `pushed`).
    pub fn push_skeleton(&mut self, skeleton: T) -> (h: Handle)
        requires
            old(self).wf(),
        ensures
            final(self).wf(),
            pushed(old(self).slots, final(self).slots, h, skeleton),
    {
        self.slots.push(skeleton)
    }

    /// Gives the slot of `skeleton` back (see `removed`).
    pub fn remove_skeleton(&mut self, skeleton: Handle)
        requires
            old(self).wf(),
        ensures
            final(self).wf(),
            removed(old(self).slots, final(self).slots, skeleton),
    {
        self.slots.remove(skeleton)
    }

    /// The skeleton in the slot of `handle`.
    pub fn skeleton(&self, handle: Handle) -> (r: &T)
        requires
            handle.slot < self.slots.contents().len(),
        ensures
            *r == self.slots.contents()[handle.slot as int],
    {
        self.slots.get(handle)
    }

    /// The skeleton in the slot of `handle`, to change in place; its bytes
    /// become pending when writes are tracked.
    pub fn skeleton_mut(&mut self, handle: Handle) -> (r: &mut T)
        requires
            old(self).wf(),
            handle.slot < old(self).slots.contents().len(),
        ensures
            *r == old(self).slots.contents()[handle.slot as int],
            final(self).wf(),
            final(self).slots.contents() == old(self).slots.contents().update(handle.slot as int, *final(r)),
            final(self).slots.free_slots() == old(self).slots.free_slots(),
            final(self).slots.pending() == pending_after_write(old(self).slots, handle.slot),
            same_config(old(self).slots, final(self).slots),
    {
        self.slots.get_mut(handle)
    }

    /// The upload the device buffer needs (see `synced`).
    pub fn update(&mut self) -> (r: SyncRequest)
        requires
            old(self).wf(),
        ensures
            final(self).wf(),
            synced(old(self).slots, final(self).slots, r),
    {
        self.slots.sync_request()
    }
}

/// Reserved buffer of animation clips.
pub struct ReservedBindlessAnimations<T> {
    pub slots: SlotReservation<T>,
}

impl<T: Copy> ReservedBindlessAnimations<T> {
    /// The slots are usable (see `SlotReservation::wf`) and the exhausted
    /// handle, when valid, names an element.
    pub open spec fn wf(&self) -> bool {
        &&& self.slots.wf()
        &&& self.slots.exhausted_handle().is_valid() ==> self.slots.exhausted_handle().slot < self.slots.contents().len()
    }

    /// `ANIMATION_CLIP_SLOTS` animation clips holding `initial`, all free; freed slots are taken back anywhere in the buffer,
    /// an exhausted table hands out the invalid handle, and writes are tracked for partial uploads.
    pub fn new(initial: T) -> (r: Self)
        requires
            ANIMATION_CLIP_SLOTS * vstd::layout::size_of::<T>() <= u32::MAX,
        ensures
            r.wf(),
            r.slots.contents() == Seq::new(ANIMATION_CLIP_SLOTS as nat, |_i: int| initial),
            r.slots.free_slots() == slot_range(ANIMATION_CLIP_SLOTS as nat),
            !r.slots.pending().dirty,
            r.slots.limit() == ANIMATION_CLIP_SLOTS,
            r.slots.exhausted_handle() == (Handle { slot: u16::MAX, generation: u16::MAX }),
            r.slots.writes_tracked() == true,
    {
        ReservedBindlessAnimations { slots: SlotReservation::new(filled(initial, ANIMATION_CLIP_SLOTS), ANIMATION_CLIP_SLOTS, Handle::invalid(), true) }
    }

    /// Takes a free clip slot (see `added`).
    pub fn add_clip(&mut self) -> (h: Handle)
        requires
            old(self).wf(),
        ensures
            final(self).wf(),
            added(old(self).slots, final(self).slots, h),
    {
        self.slots.add()
    }

    /// Takes a free clip slot and stores `clip` there (see `pushed`).
    pub fn push_clip(&mut self, clip: T) -> (h: Handle)
        requires
            old(self).wf(),
        ensures
            final(self).wf(),
            pushed(old(self).slots, final(self).slots, h, clip),
    {
        self.slots.push(clip)
    }

    /// Gives the slot of `clip` back (see `removed`).
    pub fn remove_clip(&mut self, clip: Handle)
        requires
            old(self).wf(),
        ensures
            final(self).wf(),
            removed(old(self).slots, final(self).slots, clip),
    {
        self.slots.remove(clip)
    }

    /// The clip in the slot of `handle`.
    pub fn clip(&self, handle: Handle) -> (r: &T)
        requires
            handle.slot < self.slots.contents().len(),
        ensures
            *r == self.slots.contents()[handle.slot as int],
    {
        self.slots.get(handle)
    }

    /// The clip in the slot of `handle`, to change in place; its bytes
    /// become pending when writes are tracked.
    pub fn clip_mut(&mut self, handle: Handle) -> (r: &mut T)
        requires
            old(self).wf(),
            handle.slot < old(self).slots.contents().len(),
        ensures
            *r == old(self).slots.contents()[handle.slot as int],
            final(self).wf(),
            final(self).slots.contents() == old(self).slots.contents().update(handle.slot as int, *final(r)),
            final(self).slots.free_slots() == old(self).slots.free_slots(),
            final(self).slots.pending() == pending_after_write(old(self).slots, handle.slot),
            same_config(old(self).slots, final(self).slots),
    {
        self.slots.get_mut(handle)
    }

    /// The upload the device buffer needs (see `synced`).
    pub fn update(&mut self) -> (r: SyncRequest)
        requires
            old(self).wf(),
        ensures
            final(self).wf(),
            synced(old(self).slots, final(self).slots, r),
    {
        self.slots.sync_request()
    }
}

/// Reserved buffer of animation tracks.
pub struct ReservedBindlessAnimationTracks<T> {
    pub slots: SlotReservation<T>,
}

impl<T: Copy> ReservedBindlessAnimationTracks<T> {
    /// The slots are usable (see `SlotReservation::wf`) and the exhausted
    /// handle, when valid, names an element.
    pub open spec fn wf(&self) -> bool {
        &&& self.slots.wf()
        &&& self.slots.exhausted_handle().is_valid() ==> self.slots.exhausted_handle().slot < self.slots.contents().len()
    }

    /// `ANIMATION_TRACK_SLOTS` animation tracks holding `initial`, all free; freed slots are taken back anywhere in the buffer,
    /// an exhausted table hands out the invalid handle, and writes are tracked for partial uploads.
    pub fn new(initial: T) -> (r: Self)
        requires
            ANIMATION_TRACK_SLOTS * vstd::layout::size_of::<T>() <= u32::MAX,
        ensures
            r.wf(),
            r.slots.contents() == Seq::new(ANIMATION_TRACK_SLOTS as nat, |_i: int| initial),
            r.slots.free_slots() == slot_range(ANIMATION_TRACK_SLOTS as nat),
            !r.slots.pending().dirty,
            r.slots.limit() == ANIMATION_TRACK_SLOTS,
            r.slots.exhausted_handle() == (Handle { slot: u16::MAX, generation: u16::MAX }),
            r.slots.writes_tracked() == true,
    {
        ReservedBindlessAnimationTracks { slots: SlotReservation::new(filled(initial, ANIMATION_TRACK_SLOTS), ANIMATION_TRACK_SLOTS, Handle::invalid(), true) }
    }

    /// Takes a free track slot (see `added`).
    pub fn add_track(&mut self) -> (h: Handle)
        requires
            old(self).wf(),
        ensures
            final(self).wf(),
            added(old(self).slots, final(self).slots, h),
    {
        self.slots.add()
    }

    /// Takes a free track slot and stores `track` there (see `pushed`).
    pub fn push_track(&mut self, track: T) -> (h: Handle)
        requires
            old(self).wf(),
        ensures
            final(self).wf(),
            pushed(old(self).slots, final(self).slots, h, track),
    {
        self.slots.push(track)
    }

    /// Gives the slot of `track` back (see `removed`).
    pub fn remove_track(&mut self, track: Handle)
        requires
            old(self).wf(),
        ensures
            final(self).wf(),
            removed(old(self).slots, final(self).slots, track),
    {
        self.slots.remove(track)
    }

    /// The track in the slot of `handle`.
    pub fn track(&self, handle: Handle) -> (r: &T)
        requires
            handle.slot < self.slots.contents().len(),
        ensures
            *r == self.slots.contents()[handle.slot as int],
    {
        self.slots.get(handle)
    }

    /// The track in the slot of `handle`, to change in place; its bytes
    /// become pending when writes are tracked.
    pub fn track_mut(&mut self, handle: Handle) -> (r: &mut T)
        requires
            old(self).wf(),
            handle.slot < old(self).slots.contents().len(),
        ensures
            *r == old(self).slots.contents()[handle.slot as int],
            final(self).wf(),
            final(self).slots.contents() == old(self).slots.contents().update(handle.slot as int, *final(r)),
            final(self).slots.free_slots() == old(self).slots.free_slots(),
            final(self).slots.pending() == pending_after_write(old(self).slots, handle.slot),
            same_config(old(self).slots, final(self).slots),
    {
        self.slots.get_mut(handle)
    }

    /// The upload the device buffer needs (see `synced`).
    pub fn update(&mut self) -> (r: SyncRequest)
        requires
            old(self).wf(),
        ensures
            final(self).wf(),
            synced(old(self).slots, final(self).slots, r),
    {
        self.slots.sync_request()
    }
}

/// Reserved buffer of animation keyframes.
pub struct ReservedBindlessAnimationKeyframes<T> {
    pub slots: SlotReservation<T>,
}

impl<T: Copy> ReservedBindlessAnimationKeyframes<T> {
    /// The slots are usable (see `SlotReservation::wf`) and the exhausted
    /// handle, when valid, names an element.
    pub open spec fn wf(&self) -> bool {
        &&& self.slots.wf()
        &&& self.slots.exhausted_handle().is_valid() ==> self.slots.exhausted_handle().slot < self.slots.contents().len()
    }

    /// `ANIMATION_KEYFRAME_SLOTS` animation keyframes holding `initial`, all free; freed slots are taken back anywhere in the buffer,
    /// an exhausted table hands out the invalid handle, and the whole buffer is uploaded on every update.
    pub fn new(initial: T) -> (r: Self)
        requires
            ANIMATION_KEYFRAME_SLOTS * vstd::layout::size_of::<T>() <= u32::MAX,
        ensures
            r.wf(),
            r.slots.contents() == Seq::new(ANIMATION_KEYFRAME_SLOTS as nat, |_i: int| initial),
            r.slots.free_slots() == slot_range(ANIMATION_KEYFRAME_SLOTS as nat),
            !r.slots.pending().dirty,
            r.slots.limit() == ANIMATION_KEYFRAME_SLOTS,
            r.slots.exhausted_handle() == (Handle { slot: u16::MAX, generation: u16::MAX }),
            r.slots.writes_tracked() == false,
    {
        ReservedBindlessAnimationKeyframes { slots: SlotReservation::new(filled(initial, ANIMATION_KEYFRAME_SLOTS), ANIMATION_KEYFRAME_SLOTS, Handle::invalid(), false) }
    }

    /// Takes a free keyframe slot (see `added`).
    pub fn add_keyframe(&mut self) -> (h: Handle)
        requires
            old(self).wf(),
        ensures
            final(self).wf(),
            added(old(self).slots, final(self).slots, h),
    {
        self.slots.add()
    }

    /// Takes a free keyframe slot and stores `keyframe` there (see `pushed`).
    pub fn push_keyframe(&mut self, keyframe: T) -> (h: Handle)
        requires
            old(self).wf(),
        ensures
            final(self).wf(),
            pushed(old(self).slots, final(self).slots, h, keyframe),
    {
        self.slots.push(keyframe)
    }

    /// Gives the slot of `keyframe` back (see `removed`).
    pub fn remove_keyframe(&mut self, keyframe: Handle)
        requires
            old(self).wf(),
        ensures
            final(self).wf(),
            removed(old(self).slots, final(self).slots, keyframe),
    {
        self.slots.remove(keyframe)
    }

    /// The keyframe in the slot of `handle`.
    pub fn keyframe(&self, handle: Handle) -> (r: &T)
        requires
            handle.slot < self.slots.contents().len(),
        ensures
            *r == self.slots.contents()[handle.slot as int],
    {
        self.slots.get(handle)
    }

    /// The keyframe in the slot of `handle`, to change in place; its bytes
    /// become pending when writes are tracked.
    pub fn keyframe_mut(&mut self, handle: Handle) -> (r: &mut T)
        requires
            old(self).wf(),
            handle.slot < old(self).slots.contents().len(),
        ensures
            *r == old(self).slots.contents()[handle.slot as int],
            final(self).wf(),
            final(self).slots.contents() == old(self).slots.contents().update(handle.slot as int, *final(r)),
            final(self).slots.free_slots() == old(self).slots.free_slots(),
            final(self).slots.pending() == pending_after_write(old(self).slots, handle.slot),
            same_config(old(self).slots, final(self).slots),
    {
        self.slots.get_mut(handle)
    }

    /// The upload the device buffer needs (see `synced`).
    pub fn update(&mut self) -> (r: SyncRequest)
        requires
            old(self).wf(),
        ensures
            final(self).wf(),
            synced(old(self).slots, final(self).slots, r),
    {
        self.slots.sync_request()
    }
}

/// Reserved buffer of animation states.
pub struct ReservedBindlessSkinning<T> {
    pub slots: SlotReservation<T>,
}

impl<T: Copy> ReservedBindlessSkinning<T> {
    /// The slots are usable (see `SlotReservation::wf`) and the exhausted
    /// handle, when valid, names an element.
    pub open spec fn wf(&self) -> bool {
        &&& self.slots.wf()
        &&& self.slots.exhausted_handle().is_valid() ==> self.slots.exhausted_handle().slot < self.slots.contents().len()
    }

    /// `SKINNING_SLOTS` animation states holding `initial`, all free; freed slots are taken back anywhere in the buffer,
    /// an exhausted table hands out the invalid handle, and writes are tracked for partial uploads.
    pub fn new(initial: T) -> (r: Self)
        requires
            SKINNING_SLOTS * vstd::layout::size_of::<T>() <= u32::MAX,
        ensures
            r.wf(),
            r.slots.contents() == Seq::new(SKINNING_SLOTS as nat, |_i: int| initial),
            r.slots.free_slots() == slot_range(SKINNING_SLOTS as nat),
            !r.slots.pending().dirty,
            r.slots.limit() == SKINNING_SLOTS,
            r.slots.exhausted_handle() == (Handle { slot: u16::MAX, generation: u16::MAX }),
            r.slots.writes_tracked() == true,
    {
        ReservedBindlessSkinning { slots: SlotReservation::new(filled(initial, SKINNING_SLOTS), SKINNING_SLOTS, Handle::invalid(), true) }
    }

    /// Takes a free state slot (see `added`).
    pub fn add_state(&mut self) -> (h: Handle)
        requires
            old(self).wf(),
        ensures
            final(self).wf(),
            added(old(self).slots, final(self).slots, h),
    {
        self.slots.add()
    }

    /// Takes a free state slot and stores `state` there (see `pushed`).
    pub fn push_state(&mut self, state: T) -> (h: Handle)
        requires
            old(self).wf(),
        ensures
            final(self).wf(),
            pushed(old(self).slots, final(self).slots, h, state),
    {
        self.slots.push(state)
    }

    /// Gives the slot of `state` back (see `removed`).
    pub fn remove_state(&mut self, state: Handle)
        requires
            old(self).wf(),
        ensures
            final(self).wf(),
            removed(old(self).slots, final(self).slots, state),
    {
        self.slots.remove(state)
    }

    /// The state in the slot of `handle`.
    pub fn state(&self, handle: Handle) -> (r: &T)
        requires
            handle.slot < self.slots.contents().len(),
        ensures
            *r == self.slots.contents()[handle.slot as int],
    {
        self.slots.get(handle)
    }

    /// The state in the slot of `handle`, to change in place; its bytes
    /// become pending when writes are tracked.
    pub fn state_mut(&mut self, handle: Handle) -> (r: &mut T)
        requires
            old(self).wf(),
            handle.slot < old(self).slots.contents().len(),
        ensures
            *r == old(self).slots.contents()[handle.slot as int],
            final(self).wf(),
            final(self).slots.contents() == old(self).slots.contents().update(handle.slot as int, *final(r)),
            final(self).slots.free_slots() == old(self).slots.free_slots(),
            final(self).slots.pending() == pending_after_write(old(self).slots, handle.slot),
            same_config(old(self).slots, final(self).slots),
    {
        self.slots.get_mut(handle)
    }

    /// The upload the device buffer needs (see `synced`).
    pub fn update(&mut self) -> (r: SyncRequest)
        requires
            old(self).wf(),
        ensures
            final(self).wf(),
            synced(old(self).slots, final(self).slots, r),
    {
        self.slots.sync_request()
    }
}

} // verus!
