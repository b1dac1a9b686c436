use vstd::prelude::*;

verus! {

/// A byte range `[start, end)` of a host buffer that still has to be copied
/// to the device.  Marking grows the range to the smallest interval that
/// covers everything marked since the last `take`.
#[derive(Clone, Copy, Debug, Default)]
pub struct DirtyRange {
    pub start: u32,
    pub end: u32,
    pub dirty: bool,
}

/// The exclusive end of a marked region, saturating at `u32::MAX` as the
/// buffer offsets are 32-bit.
pub open spec fn saturating_end(offset: u32, len: u32) -> u32 {
    if offset + len > u32::MAX { u32::MAX } else { (offset + len) as u32 }
}

pub open spec fn min_u32(a: u32, b: u32) -> u32 {
    if a <= b { a } else { b }
}

pub open spec fn max_u32(a: u32, b: u32) -> u32 {
    if a >= b { a } else { b }
}

/// The state after marking `len` bytes at `offset`.
pub open spec fn marked(r: DirtyRange, offset: u32, len: u32) -> DirtyRange {
    if len == 0 {
        r
    } else if !r.dirty {
        DirtyRange { start: offset, end: saturating_end(offset, len), dirty: true }
    } else {
        DirtyRange {
            start: min_u32(r.start, offset),
            end: max_u32(r.end, saturating_end(offset, len)),
            dirty: true,
        }
    }
}

/// Marking covers what is marked and what was pending: after marking `len`
/// bytes at `offset`, the range is pending and contains those bytes (up to
/// the 32-bit end) and the range pending before.
pub proof fn law_marked_covers(r: DirtyRange, offset: u32, len: u32)
    requires
        len > 0,
    ensures
        marked(r, offset, len).dirty,
        marked(r, offset, len).start <= offset,
        marked(r, offset, len).end >= saturating_end(offset, len),
        r.dirty ==> marked(r, offset, len).start <= r.start && marked(r, offset, len).end >= r.end,
{
}

impl DirtyRange {
    /// An empty range: nothing is pending.
    pub fn new() -> (r: Self)
        ensures
            !r.dirty,
            r.start == 0,
            r.end == 0,
    {
        DirtyRange { start: 0, end: 0, dirty: false }
    }

    /// Records that `len` bytes starting at `offset` were written.
    pub fn mark_bytes(&mut self, offset: u32, len: u32)
        ensures
            *final(self) == marked(*old(self), offset, len),
    {
        if len == 0 {
            return;
        }
        let end = offset.saturating_add(len);
        if !self.dirty {
            self.start = offset;
            self.end = end;
            self.dirty = true;
            return;
        }
        if offset < self.start {
            self.start = offset;
        }
        if end > self.end {
            self.end = end;
        }
    }

    /// Records that `count` elements of type `T` starting at element `start`
    /// were written.
    pub fn mark_elements<T>(&mut self, start: usize, count: usize)
        requires
            vstd::layout::size_of::<T>() <= u32::MAX,
            start * vstd::layout::size_of::<T>() <= u32::MAX,
            count * vstd::layout::size_of::<T>() <= u32::MAX,
        ensures
            *final(self) == marked(
                *old(self),
                (start * vstd::layout::size_of::<T>()) as u32,
                (count * vstd::layout::size_of::<T>()) as u32,
            ),
    {
        let size = core::mem::size_of::<T>() as u32;
        let s: u32 = if size == 0 { 0 } else { #[verifier::truncate] (start as u32) };
        let c: u32 = if size == 0 { 0 } else { #[verifier::truncate] (count as u32) };
        proof {
            if size > 0 {
                assert(start <= start * size) by (nonlinear_arith)
                    requires size > 0;
                assert(count <= count * size) by (nonlinear_arith)
                    requires size > 0;
            }
            assert(s * size == start * size) by (nonlinear_arith)
                requires size == 0 || s == start;
            assert(c * size == count * size) by (nonlinear_arith)
                requires size == 0 || c == count;
        }
        let offset = s * size;
        let len = c * size;
        self.mark_bytes(offset, len);
    }

    /// Hands out the pending range `(start, end)` and clears it; `None` when
    /// nothing was marked since the last call.
    pub fn take(&mut self) -> (r: Option<(u32, u32)>)
        ensures
            r == (if old(self).dirty {
                Some((old(self).start, old(self).end))
            } else {
                None::<(u32, u32)>
            }),
            !final(self).dirty,
            final(self).start == old(self).start,
            final(self).end == old(self).end,
    {
        if !self.dirty {
            return None;
        }
        self.dirty = false;
        Some((self.start, self.end))
    }
}

} // verus!
