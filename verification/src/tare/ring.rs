use vstd::prelude::*;

verus! {

/// `N` slots used in turn, one of them current.
pub struct Ring<T, const N: usize> {
    current: usize,
    data: Vec<T>,
}

impl<T, const N: usize> Ring<T, N> {
    /// The slots, in order.
    pub closed spec fn slots(&self) -> Seq<T> {
        self.data@
    }

    /// The index of the current slot.
    pub closed spec fn position(&self) -> nat {
        self.current as nat
    }

    pub open spec fn wf(&self) -> bool {
        &&& self.slots().len() == N
        &&& (N > 0 ==> self.position() < N)
        &&& (N == 0 ==> self.position() == 0)
    }

    /// A ring of default values, the first one current.
    pub fn new() -> (r: Self)
        where T: Default,
        ensures
            r.wf(),
            r.position() == 0,
            forall|i: int| 0 <= i < N ==> call_ensures(T::default, (), #[trigger] r.slots()[i]),
    {
        let mut data: Vec<T> = Vec::new();
        let mut i: usize = 0;
        while i < N
            invariant
                i <= N,
                data@.len() == i,
                forall|j: int| 0 <= j < i ==> call_ensures(T::default, (), #[trigger] data@[j]),
            decreases N - i,
        {
            data.push(T::default());
            i = i + 1;
        }
        Ring { current: 0, data }
    }

    /// A ring holding clones of the first `N` values of `data`.
    pub fn new_with(data: &[T]) -> (r: Self)
        where T: Clone,
        requires
            data@.len() >= N,
        ensures
            r.wf(),
            r.position() == 0,
            forall|i: int| 0 <= i < N ==> cloned::<T>(data@[i], #[trigger] r.slots()[i]),
    {
        let mut out: Vec<T> = Vec::new();
        let mut i: usize = 0;
        while i < N
            invariant
                i <= N <= data@.len(),
                out@.len() == i,
                forall|j: int| 0 <= j < i ==> cloned::<T>(data@[j], #[trigger] out@[j]),
            decreases N - i,
        {
            out.push(data[i].clone());
            i = i + 1;
        }
        Ring { current: 0, data: out }
    }

    /// Puts `value` in slot `idx`, counted around the ring.
    pub fn set(&mut self, value: T, idx: usize)
        requires
            old(self).wf(),
            N > 0,
        ensures
            final(self).wf(),
            final(self).position() == old(self).position(),
            final(self).slots() == old(self).slots().update((idx % N) as int, value),
    {
        let i = idx % N;
        self.data.set(i, value);
    }

    /// Makes the next slot current.
    pub fn advance(&mut self)
        requires
            old(self).wf(),
            N > 0,
        ensures
            final(self).wf(),
            final(self).position() == (old(self).position() + 1) % (N as nat),
            final(self).slots() == old(self).slots(),
    {
        self.current = (self.current + 1) % N;
    }

    pub fn current(&self) -> (r: usize)
        requires
            self.wf(),
        ensures
            r == self.position(),
    {
        self.current
    }

    /// The current slot's value.
    pub fn data(&self) -> (r: &T)
        requires
            self.wf(),
            N > 0,
        ensures
            *r == self.slots()[self.position() as int],
    {
        &self.data[self.current]
    }

    /// The current slot's value, to change in place.
    pub fn data_mut(&mut self) -> (r: &mut T)
        requires
            old(self).wf(),
            N > 0,
        ensures
            *r == old(self).slots()[old(self).position() as int],
            final(self).wf(),
            final(self).position() == old(self).position(),
            final(self).slots() == old(self).slots().update(old(self).position() as int, *final(r)),
    {
        let i = self.current;
        &mut self.data[i]
    }

    /// Slot `idx`, counted around the ring, to change in place.
    pub fn get_mut(&mut self, idx: usize) -> (r: &mut T)
        requires
            old(self).wf(),
            N > 0,
        ensures
            *r == old(self).slots()[(idx % N) as int],
            final(self).wf(),
            final(self).position() == old(self).position(),
            final(self).slots() == old(self).slots().update((idx % N) as int, *final(r)),
    {
        let i = idx % N;
        &mut self.data[i]
    }
}

} // verus!
