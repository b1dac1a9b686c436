use vstd::prelude::*;

use super::ring::Ring;

verus! {

/// Frames in flight: a resource used in a frame is released for reuse when
/// its frame slot comes round again.
pub const MAX_FRAMES: usize = 3;

/// Advances a released resource may wait unused before it is retired.
pub const UNUSED_RETIRE_THRESHOLD: usize = 9;

/// Keys that resources are matched by.
pub trait PoolKey: Copy {
    fn same_key(&self, other: &Self) -> (r: bool)
        ensures
            r == (*self == *other),
    ;
}

impl PoolKey for u64 {
    fn same_key(&self, other: &Self) -> (r: bool) {
        *self == *other
    }
}

/// What a transient image is matched by: extent, layers, format, mip
/// levels and sample count.
#[derive(Clone, Copy, Debug, PartialEq, Eq, Structural)]
pub struct ImageKey {
    pub width: u32,
    pub height: u32,
    pub depth: u32,
    pub layers: u32,
    pub format: u32,
    pub mip_levels: u32,
    pub samples: u32,
}

impl PoolKey for ImageKey {
    fn same_key(&self, other: &Self) -> (r: bool) {
        self.width == other.width && self.height == other.height && self.depth == other.depth && self.layers
            == other.layers && self.format == other.format && self.mip_levels == other.mip_levels
            && self.samples == other.samples
    }
}

/// What a transient buffer is matched by: size, visibility and usage.
#[derive(Clone, Copy, Debug, PartialEq, Eq, Structural)]
pub struct BufferKey {
    pub byte_size: u32,
    pub visibility: u32,
    pub usage: u32,
}

impl PoolKey for BufferKey {
    fn same_key(&self, other: &Self) -> (r: bool) {
        self.byte_size == other.byte_size && self.visibility == other.visibility && self.usage == other.usage
    }
}

/// A released resource and how many advances it has waited.
#[derive(Clone, Copy)]
pub struct ReuseEntry<H> {
    pub handle: H,
    pub age: usize,
}

pub type Released<K, H> = Seq<(K, Seq<ReuseEntry<H>>)>;

/// Index of the list of `key`.
pub open spec fn key_index<K, H>(av: Released<K, H>, key: K) -> Option<int>
    decreases av.len(),
{
    if av.len() == 0 {
        None
    } else if av.last().0 == key {
        Some(av.len() - 1)
    } else {
        key_index(av.drop_last(), key)
    }
}

pub proof fn lemma_key_index<K, H>(av: Released<K, H>, key: K)
    ensures
        key_index(av, key) matches Some(i) ==> 0 <= i < av.len() && av[i].0 == key,
        key_index(av, key) is None ==> forall|j: int| 0 <= j < av.len() ==> #[trigger] av[j].0 != key,
    decreases av.len(),
{
    if av.len() > 0 && av.last().0 != key {
        lemma_key_index(av.drop_last(), key);
        if let Some(i) = key_index(av, key) {
            assert(av.drop_last()[i] == av[i]);
        } else {
            assert forall|j: int| 0 <= j < av.len() implies #[trigger] av[j].0 != key by {
                if j < av.len() - 1 {
                    assert(av.drop_last()[j] == av[j]);
                }
            }
        }
    }
}

/// `av` with `h` released under `key`, at age 0.
pub open spec fn release<K, H>(av: Released<K, H>, key: K, h: H) -> Released<K, H> {
    match key_index(av, key) {
        Some(i) => av.update(i, (key, av[i].1.push(ReuseEntry { handle: h, age: 0 }))),
        None => av.push((key, seq![ReuseEntry { handle: h, age: 0 }])),
    }
}

/// `av` with every resource of `frame` released, in order.
pub open spec fn release_all<K, H>(av: Released<K, H>, frame: Seq<(K, H)>) -> Released<K, H>
    decreases frame.len(),
{
    if frame.len() == 0 {
        av
    } else {
        release(release_all(av, frame.drop_last()), frame.last().0, frame.last().1)
    }
}

/// `av` with a released resource of `key` taken out (the most recently
/// released), and the resource; a key without one is left alone.
pub open spec fn acquired<K, H>(av: Released<K, H>, key: K) -> (Option<H>, Released<K, H>) {
    match key_index(av, key) {
        Some(i) => if av[i].1.len() > 0 {
            (Some(av[i].1.last().handle), av.update(i, (key, av[i].1.drop_last())))
        } else {
            (None, av)
        },
        None => (None, av),
    }
}

/// One more advance waited: the entries still below the threshold.
pub open spec fn aged<H>(list: Seq<ReuseEntry<H>>) -> Seq<ReuseEntry<H>>
    decreases list.len(),
{
    if list.len() == 0 {
        Seq::empty()
    } else {
        let before = aged(list.drop_last());
        let e = list.last();
        if e.age + 1 >= UNUSED_RETIRE_THRESHOLD {
            before
        } else {
            before.push(ReuseEntry { handle: e.handle, age: (e.age + 1) as usize })
        }
    }
}

/// The resources that one more advance retires.
pub open spec fn retiring<H>(list: Seq<ReuseEntry<H>>) -> Seq<H>
    decreases list.len(),
{
    if list.len() == 0 {
        Seq::empty()
    } else {
        let before = retiring(list.drop_last());
        let e = list.last();
        if e.age + 1 >= UNUSED_RETIRE_THRESHOLD {
            before.push(e.handle)
        } else {
            before
        }
    }
}

/// The released lists after an advance, lists left empty dropped.
pub open spec fn pruned<K, H>(av: Released<K, H>) -> Released<K, H>
    decreases av.len(),
{
    if av.len() == 0 {
        Seq::empty()
    } else {
        let before = pruned(av.drop_last());
        let kept = aged(av.last().1);
        if kept.len() == 0 {
            before
        } else {
            before.push((av.last().0, kept))
        }
    }
}

/// The resources an advance retires, list by list.
pub open spec fn retired<K, H>(av: Released<K, H>) -> Seq<H>
    decreases av.len(),
{
    if av.len() == 0 {
        Seq::empty()
    } else {
        retired(av.drop_last()) + retiring(av.last().1)
    }
}

proof fn lemma_key_index_update<K, H>(av: Released<K, H>, i: int, key: K, l: Seq<ReuseEntry<H>>)
    requires
        key_index(av, key) == Some(i),
    ensures
        key_index(av.update(i, (key, l)), key) == Some(i),
    decreases av.len(),
{
    lemma_key_index(av, key);
    if i < av.len() - 1 {
        assert(av.update(i, (key, l)).drop_last() =~= av.drop_last().update(i, (key, l)));
        assert(av.update(i, (key, l)).last() == av.last());
        lemma_key_index_update(av.drop_last(), i, key, l);
    }
}

proof fn lemma_key_index_push<K, H>(av: Released<K, H>, key: K, l: Seq<ReuseEntry<H>>)
    ensures
        key_index(av.push((key, l)), key) == Some(av.len() as int),
{
    assert(av.push((key, l)).last() == (key, l));
}

/// The resource released last under a key is the one that key hands out
/// next.
pub proof fn law_release_then_acquire<K, H>(av: Released<K, H>, key: K, h: H)
    ensures
        acquired(release(av, key, h), key).0 == Some(h),
{
    lemma_key_index(av, key);
    match key_index(av, key) {
        Some(i) => {
            lemma_key_index_update(av, i, key, av[i].1.push(ReuseEntry { handle: h, age: 0 }));
        },
        None => {
            lemma_key_index_push(av, key, seq![ReuseEntry { handle: h, age: 0 }]);
        },
    }
}

proof fn lemma_absent<K, H>(av: Released<K, H>, key: K)
    requires
        forall|j: int| 0 <= j < av.len() ==> #[trigger] av[j].0 != key,
    ensures
        key_index(av, key) is None,
{
    lemma_key_index(av, key);
}

/// Releasing under another key leaves a key without a list without one.
proof fn lemma_release_other<K, H>(av: Released<K, H>, k: K, h: H, key: K)
    requires
        key_index(av, key) is None,
        k != key,
    ensures
        key_index(release(av, k, h), key) is None,
{
    lemma_key_index(av, key);
    lemma_key_index(av, k);
    let r = release(av, k, h);
    assert forall|j: int| 0 <= j < r.len() implies #[trigger] r[j].0 != key by {
        match key_index(av, k) {
            Some(i) => {
                if j != i {
                    assert(r[j] == av[j]);
                }
            },
            None => {
                if j < av.len() {
                    assert(r[j] == av[j]);
                }
            },
        }
    }
    lemma_absent(r, key);
}

proof fn lemma_release_all_other<K, H>(av: Released<K, H>, frame: Seq<(K, H)>, key: K)
    requires
        key_index(av, key) is None,
        forall|j: int| 0 <= j < frame.len() ==> (#[trigger] frame[j]).0 != key,
    ensures
        key_index(release_all(av, frame), key) is None,
    decreases frame.len(),
{
    if frame.len() > 0 {
        let d = frame.drop_last();
        assert forall|j: int| 0 <= j < d.len() implies (#[trigger] d[j]).0 != key by {
            assert(d[j] == frame[j]);
        }
        lemma_release_all_other(av, d, key);
        assert(frame.last() == frame[frame.len() - 1]);
        lemma_release_other(release_all(av, d), frame.last().0, frame.last().1, key);
    }
}

proof fn lemma_pruned_absent<K, H>(av: Released<K, H>, key: K)
    requires
        key_index(av, key) is None,
    ensures
        key_index(pruned(av), key) is None,
    decreases av.len(),
{
    if av.len() > 0 {
        lemma_key_index(av, key);
        assert(av.last() == av[av.len() - 1]);
        let d = av.drop_last();
        assert forall|j: int| 0 <= j < d.len() implies #[trigger] d[j].0 != key by {
            assert(d[j] == av[j]);
        }
        lemma_absent(d, key);
        lemma_pruned_absent(d, key);
        let p = pruned(d);
        let kept = aged(av.last().1);
        if kept.len() > 0 {
            assert(p.push((av.last().0, kept)).drop_last() =~= p);
        }
    }
}

/// Releasing `h` under `key` makes it the last of the key's list.
proof fn lemma_release_last<K, H>(av: Released<K, H>, key: K, h: H)
    ensures
        key_index(release(av, key, h), key) matches Some(i) && release(av, key, h)[i].1.len() > 0
            && release(av, key, h)[i].1.last() == (ReuseEntry { handle: h, age: 0 }),
{
    lemma_key_index(av, key);
    match key_index(av, key) {
        Some(i) => {
            lemma_key_index_update(av, i, key, av[i].1.push(ReuseEntry { handle: h, age: 0 }));
        },
        None => {
            lemma_key_index_push(av, key, seq![ReuseEntry { handle: h, age: 0 }]);
        },
    }
}

/// Ageing a list whose last entry is fresh keeps that entry last.
proof fn lemma_aged_fresh_last<H>(l: Seq<ReuseEntry<H>>)
    requires
        l.len() > 0,
        l.last().age == 0,
    ensures
        aged(l).len() > 0,
        aged(l).last().handle == l.last().handle,
{
}

proof fn lemma_pruned_keeps<K, H>(av: Released<K, H>, key: K, i: int)
    requires
        key_index(av, key) == Some(i),
        aged(av[i].1).len() > 0,
    ensures
        key_index(pruned(av), key) matches Some(j) && pruned(av)[j].1 == aged(av[i].1),
    decreases av.len(),
{
    lemma_key_index(av, key);
    if av.last().0 == key {
        assert(i == av.len() - 1);
        assert(av.last() == av[i]);
        lemma_key_index_push(pruned(av.drop_last()), key, aged(av[i].1));
    } else {
        let d = av.drop_last();
        assert(d[i] == av[i]);
        lemma_pruned_keeps(d, key, i);
        let kept = aged(av.last().1);
        if kept.len() > 0 {
            let p = pruned(d);
            let j = key_index(p, key)->0;
            lemma_key_index(p, key);
            assert(p.push((av.last().0, kept)).drop_last() =~= p);
            assert(p.push((av.last().0, kept))[j] == p[j]);
        }
    }
}

/// A resource recorded in a frame is handed back for reuse exactly on the
/// third advance after it: following the frame slots and released lists
/// that `record`, `advance` and `acquire` state, for a key that nothing
/// released or recorded in the other frame slots holds, `acquire` finds
/// nothing for it in the frame of the record nor after the first two
/// advances, and finds the recorded resource after the third.
pub proof fn law_recorded_reused_on_third_advance<K, H>(
    av: Released<K, H>,
    frames: Seq<Seq<(K, H)>>,
    f: nat,
    key: K,
    h: H,
)
    requires
        frames.len() == 3,
        f < 3,
        key_index(av, key) is None,
        forall|j: int| 0 <= j < frames[((f + 1) % 3) as int].len() ==> (#[trigger] frames[((f + 1) % 3) as int][j]).0 != key,
        forall|j: int| 0 <= j < frames[((f + 2) % 3) as int].len() ==> (#[trigger] frames[((f + 2) % 3) as int][j]).0 != key,
    ensures
        ({
            let recorded = frames.update(f as int, frames[f as int].push((key, h)));
            let f1 = (f + 1) % 3;
            let r1 = pruned(release_all(av, recorded[f1 as int]));
            let after1 = recorded.update(f1 as int, Seq::empty());
            let f2 = (f1 + 1) % 3;
            let r2 = pruned(release_all(r1, after1[f2 as int]));
            let after2 = after1.update(f2 as int, Seq::empty());
            let f3 = (f2 + 1) % 3;
            let r3 = pruned(release_all(r2, after2[f3 as int]));
            &&& acquired(av, key).0 is None
            &&& acquired(r1, key).0 is None
            &&& acquired(r2, key).0 is None
            &&& acquired(r3, key).0 == Some(h)
        }),
{
    let recorded = frames.update(f as int, frames[f as int].push((key, h)));
    let f1 = (f + 1) % 3;
    let f2 = (f1 + 1) % 3;
    assert(f2 == (f + 2) % 3);
    assert(recorded[f1 as int] == frames[f1 as int]);
    lemma_release_all_other(av, recorded[f1 as int], key);
    lemma_pruned_absent(release_all(av, recorded[f1 as int]), key);
    let r1 = pruned(release_all(av, recorded[f1 as int]));
    let after1 = recorded.update(f1 as int, Seq::empty());
    assert(after1[f2 as int] == frames[f2 as int]);
    lemma_release_all_other(r1, after1[f2 as int], key);
    lemma_pruned_absent(release_all(r1, after1[f2 as int]), key);
    let r2 = pruned(release_all(r1, after1[f2 as int]));
    let after2 = after1.update(f2 as int, Seq::empty());
    let f3 = (f2 + 1) % 3;
    assert(f3 == f);
    let last_frame = after2[f3 as int];
    assert(last_frame == frames[f as int].push((key, h)));
    assert(last_frame.drop_last() =~= frames[f as int]);
    assert(last_frame.last() == (key, h));
    let x = release_all(r2, frames[f as int]);
    assert(release_all(r2, last_frame) == release(x, key, h));
    lemma_release_last(x, key, h);
    let rel = release(x, key, h);
    let i = key_index(rel, key)->0;
    lemma_aged_fresh_last(rel[i].1);
    lemma_pruned_keeps(rel, key, i);
}

/// Resources used in the last frames, and those released for reuse.
pub struct ReusePool<K, H> {
    frames: Ring<Vec<(K, H)>, 3>,
    available: Vec<(K, Vec<ReuseEntry<H>>)>,
}

pub open spec fn released_view<K, H>(v: Seq<(K, Vec<ReuseEntry<H>>)>) -> Released<K, H> {
    v.map_values(|e: (K, Vec<ReuseEntry<H>>)| (e.0, e.1@))
}

impl<K: PoolKey, H: Copy> ReusePool<K, H> {
    /// The resources of each frame slot.
    pub closed spec fn frames(&self) -> Seq<Seq<(K, H)>> {
        self.frames.slots().map_values(|f: Vec<(K, H)>| f@)
    }

    /// The current frame slot.
    pub closed spec fn frame(&self) -> nat {
        self.frames.position()
    }

    /// The released resources, by key.
    pub closed spec fn released(&self) -> Released<K, H> {
        released_view(self.available@)
    }

    pub closed spec fn wf(&self) -> bool {
        self.frames.wf()
    }

    pub fn new() -> (r: Self)
        ensures
            r.wf(),
            r.frame() == 0,
            r.frames() == seq![Seq::<(K, H)>::empty(), Seq::<(K, H)>::empty(), Seq::<(K, H)>::empty()],
            r.released() == Seq::<(K, Seq<ReuseEntry<H>>)>::empty(),
    {
        let frames: Ring<Vec<(K, H)>, 3> = Ring::new();
        let r = ReusePool { frames, available: Vec::new() };
        assert(r.frames.slots()[0]@ == Seq::<(K, H)>::empty());
        assert(r.frames.slots()[1]@ == Seq::<(K, H)>::empty());
        assert(r.frames.slots()[2]@ == Seq::<(K, H)>::empty());
        assert(r.frames() =~= seq![Seq::<(K, H)>::empty(), Seq::<(K, H)>::empty(), Seq::<(K, H)>::empty()]);
        assert(r.released() =~= Seq::<(K, Seq<ReuseEntry<H>>)>::empty());
        r
    }

    fn find(&self, key: &K) -> (r: Option<usize>)
        ensures
            r matches Some(i) ==> key_index(self.released(), *key) == Some(i as int),
            r is None ==> key_index(self.released(), *key) is None,
    {
        let ghost av = self.released();
        let mut i = self.available.len();
        proof {
            assert(av.take(i as int) =~= av);
        }
        while i > 0
            invariant
                i <= self.available@.len(),
                av == self.released(),
                key_index(av, *key) == key_index(av.take(i as int), *key),
            decreases i,
        {
            assert(av.take(i as int).drop_last() =~= av.take(i - 1));
            assert(av.take(i as int).last() == av[i - 1]);
            if self.available[i - 1].0.same_key(key) {
                return Some(i - 1);
            }
            i = i - 1;
        }
        None
    }

    /// Takes a released resource of `key` for reuse, if there is one.
    pub fn acquire(&mut self, key: K) -> (r: Option<H>)
        requires
            old(self).wf(),
        ensures
            final(self).wf(),
            (r, final(self).released()) == acquired(old(self).released(), key),
            final(self).frames() == old(self).frames(),
            final(self).frame() == old(self).frame(),
    {
        let ghost av = self.released();
        proof {
            lemma_key_index(av, key);
        }
        match self.find(&key) {
            None => None,
            Some(i) => {
                assert(av[i as int] == (self.available@[i as int].0, self.available@[i as int].1@));
                if self.available[i].1.len() == 0 {
                    return None;
                }
                let (k, mut list) = self.available.remove(i);
                let e = list.pop().unwrap();
                self.available.insert(i, (k, list));
                assert(self.released() =~= av.update(i as int, (key, av[i as int].1.drop_last())));
                Some(e.handle)
            },
        }
    }

    /// Records that the current frame uses `handle` as a resource of `key`.
    pub fn record(&mut self, key: K, handle: H)
        requires
            old(self).wf(),
        ensures
            final(self).wf(),
            final(self).frame() == old(self).frame(),
            final(self).frames() == old(self).frames().update(
                old(self).frame() as int,
                old(self).frames()[old(self).frame() as int].push((key, handle)),
            ),
            final(self).released() == old(self).released(),
    {
        let ghost before = self.frames.slots();
        let current = self.frames.data_mut();
        current.push((key, handle));
        assert(self.frames() =~= old(self).frames().update(
            old(self).frame() as int,
            old(self).frames()[old(self).frame() as int].push((key, handle)),
        ));
    }

    fn release_one(&mut self, key: K, handle: H)
        requires
            old(self).wf(),
        ensures
            final(self).wf(),
            final(self).released() == release(old(self).released(), key, handle),
            final(self).frames() == old(self).frames(),
            final(self).frame() == old(self).frame(),
    {
        let ghost av = self.released();
        proof {
            lemma_key_index(av, key);
        }
        let entry = ReuseEntry { handle, age: 0 };
        match self.find(&key) {
            Some(i) => {
                assert(av[i as int] == (self.available@[i as int].0, self.available@[i as int].1@));
                let (k, mut list) = self.available.remove(i);
                list.push(entry);
                self.available.insert(i, (k, list));
                assert(self.released() =~= av.update(i as int, (key, av[i as int].1.push(entry))));
            },
            None => {
                let mut list: Vec<ReuseEntry<H>> = Vec::new();
                list.push(entry);
                self.available.push((key, list));
                assert(self.released() =~= av.push((key, seq![entry])));
            },
        }
    }

    /// Releases the resources of the frame slot that comes round next: the
    /// oldest frame's resources may be reused from now on.
    pub fn check_for_stale(&mut self)
        requires
            old(self).wf(),
        ensures
            final(self).wf(),
            final(self).frame() == old(self).frame(),
            final(self).released() == release_all(
                old(self).released(),
                old(self).frames()[((old(self).frame() + 1) % 3) as int],
            ),
            final(self).frames() == old(self).frames().update(((old(self).frame() + 1) % 3) as int, Seq::empty()),
    {
        let stale = (self.frames.current() + 1) % MAX_FRAMES;
        let ghost frames0 = self.frames();
        let slot = self.frames.get_mut(stale);
        let mut taken: Vec<(K, H)> = Vec::new();
        std::mem::swap(slot, &mut taken);
        assert(self.frames() =~= frames0.update(stale as int, Seq::empty()));
        assert(taken@ == frames0[stale as int]);
        let ghost av0 = self.released();
        let ghost fr = self.frames();
        let n = taken.len();
        let mut i: usize = 0;
        assert(taken@.take(0) =~= Seq::<(K, H)>::empty());
        while i < n
            invariant
                i <= n == taken@.len(),
                self.wf(),
                self.frame() == old(self).frame(),
                self.frames() == fr,
                self.released() == release_all(av0, taken@.take(i as int)),
            decreases n - i,
        {
            assert(taken@.take(i + 1).drop_last() =~= taken@.take(i as int));
            let (k, h) = taken[i];
            self.release_one(k, h);
            i = i + 1;
        }
        assert(taken@.take(n as int) =~= taken@);
    }

    fn age_list(list: &Vec<ReuseEntry<H>>, retired_out: &mut Vec<H>) -> (r: Vec<ReuseEntry<H>>)
        ensures
            r@ == aged(list@),
            final(retired_out)@ == old(retired_out)@ + retiring(list@),
    {
        let mut kept: Vec<ReuseEntry<H>> = Vec::new();
        let ghost start = retired_out@;
        let n = list.len();
        let mut i: usize = 0;
        assert(list@.take(0) =~= Seq::<ReuseEntry<H>>::empty());
        assert(start + Seq::<H>::empty() =~= start);
        while i < n
            invariant
                i <= n == list@.len(),
                kept@ == aged(list@.take(i as int)),
                retired_out@ == start + retiring(list@.take(i as int)),
            decreases n - i,
        {
            assert(list@.take(i + 1).drop_last() =~= list@.take(i as int));
            let e = list[i];
            if e.age >= UNUSED_RETIRE_THRESHOLD - 1 {
                let ghost before = retired_out@;
                retired_out.push(e.handle);
                assert(retired_out@ =~= start + retiring(list@.take(i + 1)));
            } else {
                kept.push(ReuseEntry { handle: e.handle, age: e.age + 1 });
            }
            i = i + 1;
        }
        assert(list@.take(n as int) =~= list@);
        kept
    }

    /// Ages every released resource and retires those that waited too long;
    /// they are returned for destruction.
    pub fn prune_unused(&mut self) -> (r: Vec<H>)
        requires
            old(self).wf(),
        ensures
            final(self).wf(),
            final(self).released() == pruned(old(self).released()),
            r@ == retired(old(self).released()),
            final(self).frames() == old(self).frames(),
            final(self).frame() == old(self).frame(),
    {
        let ghost av = self.released();
        let mut old_available: Vec<(K, Vec<ReuseEntry<H>>)> = Vec::new();
        std::mem::swap(&mut self.available, &mut old_available);
        assert(released_view(old_available@) == av);
        let mut out: Vec<H> = Vec::new();
        let n = old_available.len();
        let mut i: usize = 0;
        assert(av.take(0) =~= Released::<K, H>::empty());
        assert(self.released() =~= pruned(av.take(0)));
        while i < n
            invariant
                i <= n == old_available@.len(),
                self.wf(),
                self.frames() == old(self).frames(),
                self.frame() == old(self).frame(),
                av == released_view(old_available@),
                self.released() == pruned(av.take(i as int)),
                out@ == retired(av.take(i as int)),
            decreases n - i,
        {
            assert(av.take(i + 1).drop_last() =~= av.take(i as int));
            assert(av.take(i + 1).last() == av[i as int]);
            let kept = Self::age_list(&old_available[i].1, &mut out);
            let ghost before = self.released();
            if kept.len() > 0 {
                let k = old_available[i].0;
                let ghost kv = kept@;
                self.available.push((k, kept));
                assert(self.released() =~= before.push((k, kv)));
            }
            i = i + 1;
        }
        assert(av.take(n as int) =~= av);
        out
    }

    /// Moves to the next frame: the oldest frame's resources are released,
    /// released resources age, and the retired ones are returned.
    pub fn advance(&mut self) -> (r: Vec<H>)
        requires
            old(self).wf(),
        ensures
            final(self).wf(),
            final(self).frame() == (old(self).frame() + 1) % 3,
            final(self).frames() == old(self).frames().update(((old(self).frame() + 1) % 3) as int, Seq::empty()),
            final(self).released() == pruned(
                release_all(old(self).released(), old(self).frames()[((old(self).frame() + 1) % 3) as int]),
            ),
            r@ == retired(release_all(old(self).released(), old(self).frames()[((old(self).frame() + 1) % 3) as int])),
    {
        self.check_for_stale();
        let retired_now = self.prune_unused();
        self.frames.advance();
        retired_now
    }
}

} // verus!
