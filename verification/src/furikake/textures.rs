use vstd::prelude::*;

verus! {

/// The host copy of one bindless texture slot: an image and its sampler.
#[derive(Clone, Copy, Debug, PartialEq, Eq)]
pub struct Texture<I, S> {
    pub img: I,
    pub sampler: Option<S>,
}

/// The device-side binding of one bindless texture slot.
#[derive(Clone, Copy, Debug, PartialEq, Eq)]
pub struct TextureBinding<I, S> {
    pub img: I,
    pub sampler: S,
    pub slot: u32,
}

/// Number of texture slots the reservation starts with.
pub const TEXTURE_START_SIZE: usize = 512;
/// Number of slots added each time the free slots run out.
pub const TEXTURE_EXTENSION_SIZE: usize = 128;

/// Bindless texture table: slots hold a default image and sampler until a
/// texture is added; freed slots are reused last-freed-first and the table
/// grows by `TEXTURE_EXTENSION_SIZE` slots when none is free.
pub struct ReservedBindlessTextures<I, S> {
    device_texture_data: Vec<TextureBinding<I, S>>,
    host_texture_data: Vec<Texture<I, S>>,
    available: Vec<u16>,
    default_img: I,
    default_sampler: S,
}

/// The slot entries `[start, end)` filled with the defaults.
pub open spec fn default_hosts<I, S>(img: I, sampler: S, n: nat) -> Seq<Texture<I, S>> {
    Seq::new(n, |_i: int| Texture { img, sampler: Some(sampler) })
}

pub open spec fn default_bindings<I, S>(img: I, sampler: S, start: nat, end: nat) -> Seq<TextureBinding<I, S>> {
    Seq::new((end - start) as nat, |i: int| TextureBinding { img, sampler, slot: (start + i) as u32 })
}

/// The free slots `start, .., end - 1`, each as a 16-bit slot number.
pub open spec fn slot_numbers(start: nat, end: nat) -> Seq<u16> {
    Seq::new((end - start) as nat, |i: int| (start + i) as u16)
}

impl<I, S> ReservedBindlessTextures<I, S> {
    pub closed spec fn hosts(&self) -> Seq<Texture<I, S>> {
        self.host_texture_data@
    }

    pub closed spec fn bindings(&self) -> Seq<TextureBinding<I, S>> {
        self.device_texture_data@
    }

    pub closed spec fn free_slots(&self) -> Seq<u16> {
        self.available@
    }

    pub closed spec fn default_image(&self) -> I {
        self.default_img
    }

    pub closed spec fn default_sampler_handle(&self) -> S {
        self.default_sampler
    }

    /// Host and device tables have one entry per slot, each device entry
    /// names its own slot, and every free slot names an entry.
    pub closed spec fn wf(&self) -> bool {
        &&& self.host_texture_data@.len() == self.device_texture_data@.len()
        &&& self.host_texture_data@.len() + TEXTURE_EXTENSION_SIZE <= u32::MAX
        &&& forall|i: int| 0 <= i < self.device_texture_data@.len() ==> (#[trigger] self.device_texture_data@[i]).slot == i
        &&& forall|i: int| 0 <= i < self.available@.len() ==> (#[trigger] self.available@[i]) < self.host_texture_data@.len()
    }
}

impl<I: Copy, S: Copy> ReservedBindlessTextures<I, S> {

    /// `TEXTURE_START_SIZE` slots, all free and holding the defaults.
    pub fn new(default_img: I, default_sampler: S) -> (r: Self)
        ensures
            r.wf(),
            r.hosts() == default_hosts(default_img, default_sampler, TEXTURE_START_SIZE as nat),
            r.bindings() == default_bindings(default_img, default_sampler, 0, TEXTURE_START_SIZE as nat),
            r.free_slots() == slot_numbers(0, TEXTURE_START_SIZE as nat),
            r.default_image() == default_img,
            r.default_sampler_handle() == default_sampler,
    {
        let mut r = ReservedBindlessTextures {
            device_texture_data: Vec::new(),
            host_texture_data: Vec::new(),
            available: Vec::new(),
            default_img,
            default_sampler,
        };
        r.grow(TEXTURE_START_SIZE);
        assert(r.host_texture_data@ =~= default_hosts(default_img, default_sampler, TEXTURE_START_SIZE as nat));
        assert(r.device_texture_data@ =~= default_bindings(default_img, default_sampler, 0, TEXTURE_START_SIZE as nat));
        assert(r.available@ =~= slot_numbers(0, TEXTURE_START_SIZE as nat));
        r
    }

    /// Appends `count` default slots and makes them free, lowest first.
    fn grow(&mut self, count: usize)
        requires
            old(self).wf(),
            old(self).hosts().len() + count + TEXTURE_EXTENSION_SIZE <= u32::MAX,
        ensures
            final(self).wf(),
            final(self).hosts() == old(self).hosts() + default_hosts(
                old(self).default_image(),
                old(self).default_sampler_handle(),
                count as nat,
            ),
            final(self).bindings() == old(self).bindings() + default_bindings(
                old(self).default_image(),
                old(self).default_sampler_handle(),
                old(self).hosts().len(),
                (old(self).hosts().len() + count) as nat,
            ),
            final(self).free_slots() == old(self).free_slots() + slot_numbers(
                old(self).hosts().len(),
                (old(self).hosts().len() + count) as nat,
            ),
            final(self).default_image() == old(self).default_image(),
            final(self).default_sampler_handle() == old(self).default_sampler_handle(),
    {
        let start = self.host_texture_data.len();
        let end = start + count;
        let ghost h0 = self.host_texture_data@;
        let ghost d0 = self.device_texture_data@;
        let ghost a0 = self.available@;
        let img = self.default_img;
        let sampler = self.default_sampler;
        let mut i = start;
        while i < end
            invariant
                start <= i <= end,
                end + TEXTURE_EXTENSION_SIZE <= u32::MAX,
                img == self.default_img,
                sampler == self.default_sampler,
                start == h0.len(),
                h0.len() == d0.len(),
                forall|k: int| 0 <= k < d0.len() ==> (#[trigger] d0[k]).slot == k,
                forall|k: int| 0 <= k < a0.len() ==> (#[trigger] a0[k]) < h0.len(),
                self.host_texture_data@ == h0 + default_hosts(img, sampler, (i - start) as nat),
                self.device_texture_data@ == d0 + default_bindings(img, sampler, start as nat, i as nat),
                self.available@ == a0 + slot_numbers(start as nat, i as nat),
            decreases end - i,
        {
            self.host_texture_data.push(Texture { img, sampler: Some(sampler) });
            self.device_texture_data.push(TextureBinding { img, sampler, slot: i as u32 });
            self.available.push(#[verifier::truncate] (i as u16));
            i = i + 1;
            assert(self.host_texture_data@ =~= h0 + default_hosts(img, sampler, (i - start) as nat));
            assert(self.device_texture_data@ =~= d0 + default_bindings(img, sampler, start as nat, i as nat));
            assert(self.available@ =~= a0 + slot_numbers(start as nat, i as nat));
        }
        proof {
            assert forall|k: int| 0 <= k < self.device_texture_data@.len() implies (#[trigger] self.device_texture_data@[k]).slot == k by {
                if k >= d0.len() {
                    assert(self.device_texture_data@[k] == default_bindings(img, sampler, start as nat, end as nat)[k - d0.len()]);
                }
            }
            assert forall|k: int| 0 <= k < self.available@.len() implies (#[trigger] self.available@[k]) < self.host_texture_data@.len() by {
                if k >= a0.len() {
                    let v = (start + (k - a0.len())) as int;
                    assert(self.available@[k] == v as u16);
                    assert(v < end);
                    if v < 0x10000 {
                        assert((v as u16) == v);
                    }
                }
            }
        }
    }

    /// Adds `TEXTURE_EXTENSION_SIZE` default slots when no slot is free.
    pub fn extend(&mut self)
        requires
            old(self).wf(),
            old(self).hosts().len() + 2 * TEXTURE_EXTENSION_SIZE <= u32::MAX,
        ensures
            final(self).wf(),
            final(self).default_image() == old(self).default_image(),
            final(self).default_sampler_handle() == old(self).default_sampler_handle(),
            old(self).free_slots().len() > 0 ==> {
                &&& final(self).hosts() == old(self).hosts()
                &&& final(self).bindings() == old(self).bindings()
                &&& final(self).free_slots() == old(self).free_slots()
            },
            old(self).free_slots().len() == 0 ==> {
                &&& final(self).hosts() == old(self).hosts() + default_hosts(
                    old(self).default_image(),
                    old(self).default_sampler_handle(),
                    TEXTURE_EXTENSION_SIZE as nat,
                )
                &&& final(self).bindings() == old(self).bindings() + default_bindings(
                    old(self).default_image(),
                    old(self).default_sampler_handle(),
                    old(self).hosts().len(),
                    (old(self).hosts().len() + TEXTURE_EXTENSION_SIZE) as nat,
                )
                &&& final(self).free_slots() == slot_numbers(
                    old(self).hosts().len(),
                    (old(self).hosts().len() + TEXTURE_EXTENSION_SIZE) as nat,
                )
            },
    {
        if self.available.len() == 0 {
            self.grow(TEXTURE_EXTENSION_SIZE);
            assert(old(self).free_slots() + slot_numbers(old(self).hosts().len(), (old(self).hosts().len() + TEXTURE_EXTENSION_SIZE) as nat)
                =~= slot_numbers(old(self).hosts().len(), (old(self).hosts().len() + TEXTURE_EXTENSION_SIZE) as nat));
        }
    }

    /// Puts slot `texture` back to the defaults and frees it; slots outside
    /// the table are ignored.
    pub fn remove_texture(&mut self, texture: u16)
        requires
            old(self).wf(),
        ensures
            final(self).wf(),
            final(self).default_image() == old(self).default_image(),
            final(self).default_sampler_handle() == old(self).default_sampler_handle(),
            texture >= old(self).hosts().len() ==> {
                &&& final(self).hosts() == old(self).hosts()
                &&& final(self).bindings() == old(self).bindings()
                &&& final(self).free_slots() == old(self).free_slots()
            },
            texture < old(self).hosts().len() ==> {
                &&& final(self).hosts() == old(self).hosts().update(
                    texture as int,
                    Texture { img: old(self).default_image(), sampler: Some(old(self).default_sampler_handle()) },
                )
                &&& final(self).bindings() == old(self).bindings().update(
                    texture as int,
                    TextureBinding {
                        img: old(self).default_image(),
                        sampler: old(self).default_sampler_handle(),
                        slot: texture as u32,
                    },
                )
                &&& final(self).free_slots() == old(self).free_slots().push(texture)
            },
    {
        if (texture as usize) < self.host_texture_data.len() {
            let img = self.default_img;
            let sampler = self.default_sampler;
            self.host_texture_data.set(texture as usize, Texture { img, sampler: Some(sampler) });
            let slot = self.device_texture_data[texture as usize].slot;
            self.device_texture_data.set(texture as usize, TextureBinding { img, sampler, slot });
            self.available.push(texture);
        }
    }

    /// Adds `img` with the default sampler; returns its slot.
    pub fn add_texture(&mut self, img: I) -> (id: u16)
        requires
            old(self).wf(),
            old(self).hosts().len() + 2 * TEXTURE_EXTENSION_SIZE <= u32::MAX,
        ensures
            final(self).wf(),
            added(*old(self), *final(self), img, None, id),
            id < final(self).hosts().len() == final(self).bindings().len(),
    {
        self.add_texture_with_sampler(img, None)
    }

    /// Takes the most recently freed slot (growing the table first when none
    /// is free), stores `img` with `sampler` or the default sampler there and
    /// returns the slot.
    pub fn add_texture_with_sampler(&mut self, img: I, sampler: Option<S>) -> (id: u16)
        requires
            old(self).wf(),
            old(self).hosts().len() + 2 * TEXTURE_EXTENSION_SIZE <= u32::MAX,
        ensures
            final(self).wf(),
            added(*old(self), *final(self), img, sampler, id),
            id < final(self).hosts().len() == final(self).bindings().len(),
    {
        self.extend();
        let ghost grown = *self;
        let id = self.available.pop().unwrap();
        let sampler = match sampler {
            Some(s) => s,
            None => self.default_sampler,
        };
        let slot = self.device_texture_data[id as usize].slot;
        self.host_texture_data.set(id as usize, Texture { img, sampler: Some(sampler) });
        self.device_texture_data.set(id as usize, TextureBinding { img, sampler, slot });
        proof {
            assert forall|i: int| 0 <= i < self.available@.len() implies (#[trigger] self.available@[i]) < self.host_texture_data@.len() by {
                assert(self.available@[i] == grown.available@[i]);
            }
        }
        id
    }

    /// Replaces the sampler of slot `texture`; slots outside the table are
    /// ignored.
    pub fn update_sampler(&mut self, texture: u16, sampler: S)
        requires
            old(self).wf(),
        ensures
            final(self).wf(),
            final(self).free_slots() == old(self).free_slots(),
            final(self).default_image() == old(self).default_image(),
            final(self).default_sampler_handle() == old(self).default_sampler_handle(),
            texture >= old(self).hosts().len() ==> final(self).hosts() == old(self).hosts()
                && final(self).bindings() == old(self).bindings(),
            texture < old(self).hosts().len() ==> {
                &&& final(self).hosts() == old(self).hosts().update(
                    texture as int,
                    Texture { img: old(self).hosts()[texture as int].img, sampler: Some(sampler) },
                )
                &&& final(self).bindings() == old(self).bindings().update(
                    texture as int,
                    TextureBinding { img: old(self).hosts()[texture as int].img, sampler, slot: texture as u32 },
                )
            },
    {
        if (texture as usize) < self.host_texture_data.len() {
            let img = self.host_texture_data[texture as usize].img;
            self.host_texture_data.set(texture as usize, Texture { img, sampler: Some(sampler) });
            let slot = self.device_texture_data[texture as usize].slot;
            self.device_texture_data.set(texture as usize, TextureBinding { img, sampler, slot });
        }
    }

    /// The host entry of slot `texture`.
    pub fn texture(&self, texture: u16) -> (r: Option<Texture<I, S>>)
        ensures
            r == (if texture < self.hosts().len() { Some(self.hosts()[texture as int]) } else { None }),
    {
        if (texture as usize) < self.host_texture_data.len() {
            Some(self.host_texture_data[texture as usize])
        } else {
            None
        }
    }

    /// The device binding of every slot, in slot order.
    pub fn binding(&self) -> (r: &Vec<TextureBinding<I, S>>)
        ensures
            r@ == self.bindings(),
    {
        &self.device_texture_data
    }

    /// Number of free slots.
    pub fn available_len(&self) -> (n: usize)
        ensures
            n == self.free_slots().len(),
    {
        self.available.len()
    }

    /// Number of slots in the table.
    pub fn len(&self) -> (n: usize)
        ensures
            n == self.hosts().len(),
    {
        self.host_texture_data.len()
    }
}

/// What adding `img` with `sampler` did: the table grew first when no slot
/// was free, then the last free slot `id` was taken and filled.
pub open spec fn added<I, S>(
    before: ReservedBindlessTextures<I, S>,
    after: ReservedBindlessTextures<I, S>,
    img: I,
    sampler: Option<S>,
    id: u16,
) -> bool {
    let grown_hosts = if before.free_slots().len() == 0 {
        before.hosts() + default_hosts(before.default_image(), before.default_sampler_handle(), TEXTURE_EXTENSION_SIZE as nat)
    } else {
        before.hosts()
    };
    let grown_bindings = if before.free_slots().len() == 0 {
        before.bindings() + default_bindings(
            before.default_image(),
            before.default_sampler_handle(),
            before.hosts().len(),
            (before.hosts().len() + TEXTURE_EXTENSION_SIZE) as nat,
        )
    } else {
        before.bindings()
    };
    let grown_free = if before.free_slots().len() == 0 {
        slot_numbers(before.hosts().len(), (before.hosts().len() + TEXTURE_EXTENSION_SIZE) as nat)
    } else {
        before.free_slots()
    };
    let s = match sampler {
        Some(s) => s,
        None => before.default_sampler_handle(),
    };
    &&& grown_free.len() > 0
    &&& id == grown_free.last()
    &&& after.free_slots() == grown_free.drop_last()
    &&& after.hosts() == grown_hosts.update(id as int, Texture { img, sampler: Some(s) })
    &&& after.bindings() == grown_bindings.update(id as int, TextureBinding { img, sampler: s, slot: id as u32 })
    &&& after.default_image() == before.default_image()
    &&& after.default_sampler_handle() == before.default_sampler_handle()
}

} // verus!
