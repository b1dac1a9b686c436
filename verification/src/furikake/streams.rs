use vstd::prelude::*;

use super::types::{slot_index, VertexBufferSlot, VERTEX_BUFFER_SLOT_COUNT};

verus! {

/// Byte size of each bindless vertex buffer.
pub const VERTEX_BUFFER_BYTES: u32 = 16 * 1024 * 1024;
/// Byte size of the bindless index buffer.
pub const INDEX_BUFFER_BYTES: u32 = 8 * 1024 * 1024;
/// Number of `u32` indices the index buffer holds.
pub const INDEX_BUFFER_LEN: u32 = INDEX_BUFFER_BYTES / 4;

/// Copies `src` into `dst` starting at `offset`.
fn copy_into<T: Copy>(dst: &mut Vec<T>, offset: usize, src: &[T])
    requires
        offset + src@.len() <= old(dst)@.len(),
    ensures
        final(dst)@ == old(dst)@.take(offset as int) + src@ + old(dst)@.skip(offset + src@.len()),
{
    let n = src.len();
    let total = dst.len();
    let mut i: usize = 0;
    while i < n
        invariant
            n == src@.len(),
            total == old(dst)@.len(),
            i <= n,
            offset + n <= old(dst)@.len(),
            dst@.len() == old(dst)@.len(),
            dst@ == old(dst)@.take(offset as int) + src@.take(i as int) + old(dst)@.skip(offset + i),
        decreases n - i,
    {
        dst.set(offset + i, src[i]);
        i = i + 1;
        assert(dst@ =~= old(dst)@.take(offset as int) + src@.take(i as int) + old(dst)@.skip(offset + i));
    }
    assert(src@.take(n as int) =~= src@);
}

/// The bindless vertex buffers: one append-only byte stream per
/// `VertexBufferSlot`.
pub struct ReservedBindlessVertices {
    buffers: Vec<Vec<u8>>,
    write_offsets: Vec<u32>,
}

impl ReservedBindlessVertices {
    pub closed spec fn bytes(&self, slot: VertexBufferSlot) -> Seq<u8> {
        self.buffers@[slot_index(slot) as int]@
    }

    pub closed spec fn write_offset(&self, slot: VertexBufferSlot) -> nat {
        self.write_offsets@[slot_index(slot) as int] as nat
    }

    pub closed spec fn wf(&self) -> bool {
        &&& self.buffers@.len() == VERTEX_BUFFER_SLOT_COUNT
        &&& self.write_offsets@.len() == VERTEX_BUFFER_SLOT_COUNT
        &&& forall|i: int| 0 <= i < VERTEX_BUFFER_SLOT_COUNT ==> (#[trigger] self.buffers@[i])@.len() == VERTEX_BUFFER_BYTES
        &&& forall|i: int| 0 <= i < VERTEX_BUFFER_SLOT_COUNT ==> #[trigger] self.write_offsets@[i] <= VERTEX_BUFFER_BYTES
    }

    /// Zeroed buffers with nothing written.
    pub fn new() -> (r: Self)
        ensures
            r.wf(),
            forall|slot: VertexBufferSlot| #[trigger] r.write_offset(slot) == 0,
            forall|slot: VertexBufferSlot| #[trigger] r.bytes(slot) == Seq::new(VERTEX_BUFFER_BYTES as nat, |_i: int| 0u8),
    {
        let mut buffers: Vec<Vec<u8>> = Vec::new();
        buffers.push(super::joints::filled(0u8, VERTEX_BUFFER_BYTES as usize));
        buffers.push(super::joints::filled(0u8, VERTEX_BUFFER_BYTES as usize));
        let mut write_offsets: Vec<u32> = Vec::new();
        write_offsets.push(0);
        write_offsets.push(0);
        let r = ReservedBindlessVertices { buffers, write_offsets };
        assert forall|slot: VertexBufferSlot| #[trigger] r.bytes(slot) == Seq::new(VERTEX_BUFFER_BYTES as nat, |_i: int| 0u8) by {}
        r
    }

    /// The bytes of the buffer for `slot`.
    pub fn vertices(&self, slot: VertexBufferSlot) -> (r: &[u8])
        requires
            self.wf(),
        ensures
            r@ == self.bytes(slot),
    {
        self.buffers[slot.as_index()].as_slice()
    }

    /// Appends `bytes` to the buffer for `slot` and returns the byte offset
    /// they were written at; `None` (and no change) when they do not fit.
    pub fn push_vertex_bytes(&mut self, slot: VertexBufferSlot, bytes: &[u8]) -> (r: Option<u32>)
        requires
            old(self).wf(),
        ensures
            final(self).wf(),
            forall|s: VertexBufferSlot| #[trigger] final(self).bytes(s).len() == VERTEX_BUFFER_BYTES,
            forall|s: VertexBufferSlot| #[trigger] final(self).write_offset(s) <= VERTEX_BUFFER_BYTES,
            old(self).write_offset(slot) + bytes@.len() > VERTEX_BUFFER_BYTES ==> {
                &&& r is None
                &&& forall|s: VertexBufferSlot| #[trigger] final(self).bytes(s) == old(self).bytes(s)
                &&& forall|s: VertexBufferSlot| #[trigger] final(self).write_offset(s) == old(self).write_offset(s)
            },
            old(self).write_offset(slot) + bytes@.len() <= VERTEX_BUFFER_BYTES ==> {
                let o = old(self).write_offset(slot);
                &&& r == Some(o as u32)
                &&& final(self).bytes(slot) == old(self).bytes(slot).take(o as int) + bytes@
                    + old(self).bytes(slot).skip((o + bytes@.len()) as int)
                &&& final(self).write_offset(slot) == o + bytes@.len()
                &&& forall|s: VertexBufferSlot| s != slot ==> #[trigger] final(self).bytes(s) == old(self).bytes(s)
                &&& forall|s: VertexBufferSlot| s != slot ==> #[trigger] final(self).write_offset(s) == old(self).write_offset(s)
            },
    {
        let idx = slot.as_index();
        let offset = self.write_offsets[idx] as usize;
        let len = self.buffers[idx].len();
        if bytes.len() > len - offset {
            return None;
        }
        let end = offset + bytes.len();
        let mut buffers = Vec::new();
        std::mem::swap(&mut buffers, &mut self.buffers);
        let mut current = buffers.remove(idx);
        copy_into(&mut current, offset, bytes);
        buffers.insert(idx, current);
        std::mem::swap(&mut buffers, &mut self.buffers);
        self.write_offsets.set(idx, end as u32);
        proof {
            assert forall|i: int| 0 <= i < VERTEX_BUFFER_SLOT_COUNT implies (#[trigger] self.buffers@[i])@.len() == VERTEX_BUFFER_BYTES by {
                if i != idx {
                    assert(self.buffers@[i] == old(self).buffers@[i]);
                }
            }
            assert forall|s: VertexBufferSlot| s != slot implies #[trigger] final(self).bytes(s) == old(self).bytes(s) by {
                assert(slot_index(s) != idx);
            }
            assert forall|s: VertexBufferSlot| s != slot implies #[trigger] final(self).write_offset(s) == old(self).write_offset(s) by {
                assert(slot_index(s) != idx);
            }
        }
        Some(offset as u32)
    }
}

/// The bindless index buffer: an append-only stream of `u32` indices.
pub struct ReservedBindlessIndices {
    indices: Vec<u32>,
    next_index: u32,
}

impl ReservedBindlessIndices {
    pub closed spec fn contents(&self) -> Seq<u32> {
        self.indices@
    }

    pub closed spec fn next(&self) -> nat {
        self.next_index as nat
    }

    pub closed spec fn wf(&self) -> bool {
        &&& self.indices@.len() == INDEX_BUFFER_LEN
        &&& self.next_index <= INDEX_BUFFER_LEN
    }

    /// A zeroed buffer with nothing written.
    pub fn new() -> (r: Self)
        ensures
            r.wf(),
            r.next() == 0,
            r.contents() == Seq::new(INDEX_BUFFER_LEN as nat, |_i: int| 0u32),
            r.contents().len() == INDEX_BUFFER_LEN,
    {
        ReservedBindlessIndices { indices: super::joints::filled(0u32, INDEX_BUFFER_LEN as usize), next_index: 0 }
    }

    /// All indices of the buffer.
    pub fn indices(&self) -> (r: &[u32])
        ensures
            r@ == self.contents(),
    {
        self.indices.as_slice()
    }

    /// Appends `data` and returns the index it starts at; `None` (and no
    /// change) when it does not fit.
    pub fn push_indices(&mut self, data: &[u32]) -> (r: Option<u32>)
        requires
            old(self).wf(),
        ensures
            final(self).wf(),
            final(self).contents().len() == INDEX_BUFFER_LEN,
            final(self).next() <= INDEX_BUFFER_LEN,
            old(self).next() + data@.len() > INDEX_BUFFER_LEN ==> r is None && *final(self) == *old(self),
            old(self).next() + data@.len() <= INDEX_BUFFER_LEN ==> {
                let o = old(self).next();
                &&& r == Some(o as u32)
                &&& final(self).contents() == old(self).contents().take(o as int) + data@
                    + old(self).contents().skip((o + data@.len()) as int)
                &&& final(self).next() == o + data@.len()
            },
    {
        let offset = self.next_index as usize;
        let len = self.indices.len();
        if data.len() > len - offset {
            return None;
        }
        let end = offset + data.len();
        copy_into(&mut self.indices, offset, data);
        self.next_index = end as u32;
        Some(offset as u32)
    }
}

} // verus!
