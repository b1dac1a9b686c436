use vstd::prelude::*;

use super::dirty::{marked, DirtyRange};
use super::handle::Handle;

verus! {

/// What an `update` has to copy from the host mirror to the device buffer.
#[derive(Clone, Copy, Debug, PartialEq, Eq)]
pub enum SyncRequest {
    /// Nothing changed since the last update.
    Nothing,
    /// Copy the byte range `[start, end)`.
    Range { start: u32, end: u32 },
    /// Copy the whole buffer.
    Whole,
}

/// A fixed-size reserved buffer of `T` together with the stack of free slots
/// that hands them out.  Slots are handed out last-freed-first; a freed slot
/// is only taken back when it is valid and below `remove_limit`.
pub struct SlotReservation<T> {
    data: Vec<T>,
    available: Vec<u16>,
    dirty: DirtyRange,
    remove_limit: usize,
    exhausted: Handle,
    tracks_writes: bool,
}

/// The sequence `0, 1, .., n - 1` of slots.
pub open spec fn slot_range(n: nat) -> Seq<u16> {
    Seq::new(n, |i: int| i as u16)
}

/// `after` keeps the removal limit, exhausted handle and write tracking of
/// `before`.
pub open spec fn same_config<T>(before: SlotReservation<T>, after: SlotReservation<T>) -> bool {
    &&& after.limit() == before.limit()
    &&& after.exhausted_handle() == before.exhausted_handle()
    &&& after.writes_tracked() == before.writes_tracked()
}

/// `h` is the slot taken: the most recently freed one, or the exhausted
/// handle when none was free.
pub open spec fn took_slot<T>(before: SlotReservation<T>, after: SlotReservation<T>, h: Handle) -> bool {
    &&& before.free_slots().len() > 0 ==> {
        &&& h == Handle { slot: before.free_slots().last(), generation: 0 }
        &&& after.free_slots() == before.free_slots().drop_last()
    }
    &&& before.free_slots().len() == 0 ==> {
        &&& h == before.exhausted_handle()
        &&& after.free_slots() == before.free_slots()
    }
}

/// What taking a slot does (see `SlotReservation::add`).
pub open spec fn added<T>(before: SlotReservation<T>, after: SlotReservation<T>, h: Handle) -> bool {
    &&& took_slot(before, after, h)
    &&& h.is_valid() ==> h.slot < after.contents().len()
    &&& after.contents() == before.contents()
    &&& after.pending() == before.pending()
    &&& same_config(before, after)
}

/// What returning the slot of `h` does (see `SlotReservation::remove`).
pub open spec fn removed<T>(before: SlotReservation<T>, after: SlotReservation<T>, h: Handle) -> bool {
    &&& after.contents() == before.contents()
    &&& after.pending() == before.pending()
    &&& same_config(before, after)
    &&& after.free_slots() == (if h.is_valid() && h.slot < before.limit() {
        before.free_slots().push(h.slot)
    } else {
        before.free_slots()
    })
}

/// A slot given back is the next one handed out: removing a valid handle
/// below the removal limit and then taking a slot returns that slot.
pub proof fn law_remove_then_add_reuses<T>(
    a: SlotReservation<T>,
    b: SlotReservation<T>,
    c: SlotReservation<T>,
    h: Handle,
    taken: Handle,
)
    requires
        removed(a, b, h),
        added(b, c, taken),
        h.is_valid(),
        h.slot < a.limit(),
    ensures
        taken == (Handle { slot: h.slot, generation: 0 }),
        c.free_slots() == a.free_slots(),
{
    assert(b.free_slots().drop_last() =~= a.free_slots());
}

/// The pending range after writing the element in `slot`.
pub open spec fn pending_after_write<T>(before: SlotReservation<T>, slot: u16) -> DirtyRange {
    if before.writes_tracked() {
        marked(before.pending(), (slot * vstd::layout::size_of::<T>()) as u32, vstd::layout::size_of::<T>() as u32)
    } else {
        before.pending()
    }
}

/// What taking a slot and storing `value` there does (see
/// `SlotReservation::push`).
pub open spec fn pushed<T>(before: SlotReservation<T>, after: SlotReservation<T>, h: Handle, value: T) -> bool {
    &&& took_slot(before, after, h)
    &&& h.is_valid() ==> h.slot < after.contents().len()
    &&& after.contents().len() == before.contents().len()
    &&& h.is_valid() ==> after.contents() == before.contents().update(h.slot as int, value)
    &&& !h.is_valid() ==> after.contents() == before.contents()
    &&& same_config(before, after)
}

/// What asking for the next device update does (see
/// `SlotReservation::sync_request`).
pub open spec fn synced<T>(before: SlotReservation<T>, after: SlotReservation<T>, r: SyncRequest) -> bool {
    &&& after.contents() == before.contents()
    &&& after.free_slots() == before.free_slots()
    &&& same_config(before, after)
    &&& !before.writes_tracked() ==> r == SyncRequest::Whole && after.pending() == before.pending()
    &&& before.writes_tracked() ==> !after.pending().dirty
    &&& before.writes_tracked() && before.pending().dirty ==> r == (SyncRequest::Range {
        start: before.pending().start,
        end: before.pending().end,
    })
    &&& before.writes_tracked() && !before.pending().dirty ==> r == SyncRequest::Nothing
}

impl<T> SlotReservation<T> {
    pub closed spec fn contents(&self) -> Seq<T> {
        self.data@
    }

    pub closed spec fn free_slots(&self) -> Seq<u16> {
        self.available@
    }

    pub closed spec fn pending(&self) -> DirtyRange {
        self.dirty
    }

    pub closed spec fn limit(&self) -> nat {
        self.remove_limit as nat
    }

    pub closed spec fn exhausted_handle(&self) -> Handle {
        self.exhausted
    }

    pub closed spec fn writes_tracked(&self) -> bool {
        self.tracks_writes
    }

    /// Every free slot names an element, and marking any element as written
    /// stays within 32-bit byte offsets.
    pub closed spec fn wf(&self) -> bool {
        &&& self.data@.len() < u16::MAX
        &&& self.remove_limit <= self.data@.len()
        &&& self.data@.len() * vstd::layout::size_of::<T>() <= u32::MAX
        &&& self.exhausted.is_valid() ==> self.exhausted.slot < self.data@.len()
        &&& forall|i: int| 0 <= i < self.available@.len() ==> (#[trigger] self.available@[i]) < self.data@.len()
    }

    /// A reservation over `data` whose slots are all free, handed out from
    /// the highest slot down.
    pub fn new(data: Vec<T>, remove_limit: usize, exhausted: Handle, tracks_writes: bool) -> (r: Self)
        requires
            data@.len() < u16::MAX,
            remove_limit <= data@.len(),
            data@.len() * vstd::layout::size_of::<T>() <= u32::MAX,
            exhausted.is_valid() ==> exhausted.slot < data@.len(),
        ensures
            r.wf(),
            r.contents() == data@,
            r.free_slots() == slot_range(data@.len()),
            !r.pending().dirty,
            r.limit() == remove_limit,
            r.exhausted_handle() == exhausted,
            r.writes_tracked() == tracks_writes,
    {
        let n = data.len();
        let mut available: Vec<u16> = Vec::new();
        let mut i: usize = 0;
        while i < n
            invariant
                n == data@.len(),
                n < u16::MAX,
                i <= n,
                available@ == slot_range(i as nat),
            decreases n - i,
        {
            available.push(i as u16);
            i = i + 1;
            assert(available@ =~= slot_range(i as nat));
        }
        SlotReservation {
            data,
            available,
            dirty: DirtyRange::new(),
            remove_limit,
            exhausted,
            tracks_writes,
        }
    }

    /// Number of elements in the reserved buffer.
    pub fn len(&self) -> (n: usize)
        ensures
            n == self.contents().len(),
    {
        self.data.len()
    }

    /// Takes the most recently freed slot, or the exhausted handle when none
    /// is left.
    pub fn add(&mut self) -> (h: Handle)
        requires
            old(self).wf(),
        ensures
            final(self).wf(),
            added(*old(self), *final(self), h),
    {
        match self.available.pop() {
            Some(slot) => Handle::new(slot, 0),
            None => self.exhausted,
        }
    }

    /// Returns the slot of `h` to the free stack when it is valid and below
    /// the removal limit; otherwise nothing changes.
    pub fn remove(&mut self, h: Handle)
        requires
            old(self).wf(),
        ensures
            final(self).wf(),
            removed(*old(self), *final(self), h),
    {
        if h.valid() && (h.slot as usize) < self.remove_limit {
            self.available.push(h.slot);
        }
    }

    /// The element named by `h`.
    pub fn get(&self, h: Handle) -> (r: &T)
        requires
            h.slot < self.contents().len(),
        ensures
            *r == self.contents()[h.slot as int],
    {
        &self.data[h.slot as usize]
    }

    /// Writes `value` into the element named by `h`, marking its bytes as
    /// pending when writes are tracked.
    pub fn set(&mut self, h: Handle, value: T)
        requires
            old(self).wf(),
            h.slot < old(self).contents().len(),
        ensures
            final(self).wf(),
            final(self).contents() == old(self).contents().update(h.slot as int, value),
            final(self).free_slots() == old(self).free_slots(),
            final(self).pending() == pending_after_write(*old(self), h.slot),
            same_config(*old(self), *final(self)),
    {
        if self.tracks_writes {
            proof {
                let n = self.data@.len() as int;
                let s = vstd::layout::size_of::<T>() as int;
                vstd::arithmetic::mul::lemma_mul_inequality(h.slot as int, n, s);
                vstd::arithmetic::mul::lemma_mul_inequality(1, n, s);
            }
            self.dirty.mark_elements::<T>(h.slot as usize, 1);
        }
        self.data.set(h.slot as usize, value);
    }

    /// The element named by `h`, to change in place; its bytes are marked
    /// as pending when writes are tracked.
    pub fn get_mut(&mut self, h: Handle) -> (r: &mut T)
        requires
            old(self).wf(),
            h.slot < old(self).contents().len(),
        ensures
            *r == old(self).contents()[h.slot as int],
            final(self).wf(),
            final(self).contents() == old(self).contents().update(h.slot as int, *final(r)),
            final(self).free_slots() == old(self).free_slots(),
            final(self).pending() == pending_after_write(*old(self), h.slot),
            same_config(*old(self), *final(self)),
    {
        if self.tracks_writes {
            proof {
                let n = self.data@.len() as int;
                let s = vstd::layout::size_of::<T>() as int;
                vstd::arithmetic::mul::lemma_mul_inequality(h.slot as int, n, s);
                vstd::arithmetic::mul::lemma_mul_inequality(1, n, s);
            }
            self.dirty.mark_elements::<T>(h.slot as usize, 1);
        }
        &mut self.data[h.slot as usize]
    }

    /// Takes a slot and, when the handle is valid, stores `value` there.
    pub fn push(&mut self, value: T) -> (h: Handle)
        requires
            old(self).wf(),
            old(self).exhausted_handle().is_valid() ==> old(self).exhausted_handle().slot < old(self).contents().len(),
        ensures
            final(self).wf(),
            pushed(*old(self), *final(self), h, value),
    {
        let h = self.add();
        if h.valid() {
            self.set(h, value);
        }
        h
    }

    /// The copy that the next device update has to perform; clears the
    /// pending range when writes are tracked.
    pub fn sync_request(&mut self) -> (r: SyncRequest)
        requires
            old(self).wf(),
        ensures
            final(self).wf(),
            synced(*old(self), *final(self), r),
    {
        if !self.tracks_writes {
            return SyncRequest::Whole;
        }
        match self.dirty.take() {
            Some((start, end)) => SyncRequest::Range { start, end },
            None => SyncRequest::Nothing,
        }
    }
}

} // verus!
