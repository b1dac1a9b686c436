use vstd::prelude::*;

verus! {

/// What solving the graph's render passes comes to: the cached passes are
/// still good, there is nothing to solve, or the passes must be built.
#[derive(Clone, Copy, Debug, PartialEq, Eq, Structural)]
pub enum SolveStep {
    UseCache,
    Nothing,
    Solve,
}

/// The cache holds passes only when both of its lists are non-empty; an
/// empty graph has nothing to solve.
pub fn solve_step(cached_passes: usize, cached_begins: usize, passes: usize) -> (r: SolveStep)
    ensures
        cached_passes > 0 && cached_begins > 0 ==> r == SolveStep::UseCache,
        !(cached_passes > 0 && cached_begins > 0) && passes == 0 ==> r == SolveStep::Nothing,
        !(cached_passes > 0 && cached_begins > 0) && passes > 0 ==> r == SolveStep::Solve,
{
    if !(cached_passes == 0 || cached_begins == 0) {
        SolveStep::UseCache
    } else if passes == 0 {
        SolveStep::Nothing
    } else {
        SolveStep::Solve
    }
}

/// How an attachment's contents begin a pass.
#[derive(Clone, Copy, Debug, PartialEq, Eq, Structural)]
pub enum LoadOp {
    Clear,
    Load,
}

/// The color attachments of a pass from slot `i` on, `count` of them taken
/// already: the first four present attachment slots, in order; the
/// `count`-th of them is cleared when clear value `count` is set (the clear
/// values are counted by attachment used, not by slot).
pub open spec fn color_loads_from<A, C>(atts: Seq<Option<A>>, clears: Seq<Option<C>>, i: int, count: int) -> Seq<(int, LoadOp)>
    decreases atts.len() - i,
{
    if i < 0 || i >= atts.len() || count >= 4 {
        Seq::empty()
    } else if atts[i] is Some {
        seq![(i, if clears[count] is Some { LoadOp::Clear } else { LoadOp::Load })] + color_loads_from(atts, clears, i + 1, count + 1)
    } else {
        color_loads_from(atts, clears, i + 1, count)
    }
}

pub open spec fn loads_view(v: Seq<(usize, LoadOp)>) -> Seq<(int, LoadOp)> {
    v.map_values(|e: (usize, LoadOp)| (e.0 as int, e.1))
}

/// The color attachment slots of a pass and how each begins (see
/// `color_loads_from`).
pub fn plan_color_loads<A, C>(atts: &[Option<A>; 8], clears: &[Option<C>; 8]) -> (r: Vec<(usize, LoadOp)>)
    ensures
        loads_view(r@) == color_loads_from(atts@, clears@, 0, 0),
{
    let mut out: Vec<(usize, LoadOp)> = Vec::new();
    let mut i: usize = 0;
    assert(loads_view(out@) + color_loads_from(atts@, clears@, 0, 0) =~= color_loads_from(atts@, clears@, 0, 0));
    while i < 8 && out.len() < 4
        invariant
            i <= 8,
            atts@.len() == 8,
            clears@.len() == 8,
            out@.len() <= 4,
            loads_view(out@) + color_loads_from(atts@, clears@, i as int, out@.len() as int) == color_loads_from(atts@, clears@, 0, 0),
        decreases 8 - i,
    {
        if atts[i].is_some() {
            let k = out.len();
            let op = if clears[k].is_some() {
                LoadOp::Clear
            } else {
                LoadOp::Load
            };
            let ghost before = loads_view(out@);
            out.push((i, op));
            assert(loads_view(out@) =~= before.push((i as int, op)));
            assert(before + (seq![(i as int, op)] + color_loads_from(atts@, clears@, i + 1, k + 1)) =~= before.push((i as int, op))
                + color_loads_from(atts@, clears@, i + 1, k + 1));
        }
        i = i + 1;
    }
    assert(color_loads_from(atts@, clears@, i as int, out@.len() as int) =~= Seq::<(int, LoadOp)>::empty());
    assert(loads_view(out@) + Seq::<(int, LoadOp)>::empty() =~= loads_view(out@));
    out
}

/// How a pass's depth attachment begins: cleared when a depth clear value
/// is set.
pub fn depth_load<C>(depth_clear: &Option<C>) -> (r: LoadOp)
    ensures
        r == (if depth_clear is Some {
            LoadOp::Clear
        } else {
            LoadOp::Load
        }),
{
    if depth_clear.is_some() {
        LoadOp::Clear
    } else {
        LoadOp::Load
    }
}

/// What solving comes to for a cache of `cached` passes and `begins`
/// begin records, with `passes` passes in the graph.
pub open spec fn step_of(cached: nat, begins: nat, passes: nat) -> SolveStep {
    if cached > 0 && begins > 0 {
        SolveStep::UseCache
    } else if passes == 0 {
        SolveStep::Nothing
    } else {
        SolveStep::Solve
    }
}

/// The render passes a graph built last, with how each begins; emptied
/// whenever a pass is added.
pub struct RenderPassCache<H, B> {
    passes: Vec<H>,
    begins: Vec<B>,
}

impl<H: Copy, B> RenderPassCache<H, B> {
    pub closed spec fn view(&self) -> (Seq<H>, Seq<B>) {
        (self.passes@, self.begins@)
    }

    /// An empty cache.
    pub fn new() -> (r: Self)
        ensures
            r@ == (Seq::<H>::empty(), Seq::<B>::empty()),
    {
        RenderPassCache { passes: Vec::new(), begins: Vec::new() }
    }

    /// Forgets the cached passes (a pass was added to the graph).
    pub fn clear(&mut self)
        ensures
            final(self)@ == (Seq::<H>::empty(), Seq::<B>::empty()),
    {
        self.passes = Vec::new();
        self.begins = Vec::new();
    }

    /// What a request for the passes of a graph of `passes` passes
    /// comes to (see `solve_step`).
    pub fn step(&self, passes: usize) -> (r: SolveStep)
        ensures
            r == step_of(self@.0.len(), self@.1.len(), passes as nat),
    {
        solve_step(self.passes.len(), self.begins.len(), passes)
    }

    /// Keeps the passes just built and how each begins.
    pub fn store(&mut self, passes: Vec<H>, begins: Vec<B>)
        ensures
            final(self)@ == (passes@, begins@),
    {
        self.passes = passes;
        self.begins = begins;
    }

    /// The first cached render pass, when the cache is in use.
    pub fn first_pass(&self) -> (r: Option<H>)
        ensures
            r == (if self@.0.len() > 0 && self@.1.len() > 0 {
                Some(self@.0[0])
            } else {
                None
            }),
    {
        if self.passes.len() > 0 && self.begins.len() > 0 {
            Some(self.passes[0])
        } else {
            None
        }
    }
}

/// Once passes are built and stored, asking again (with no pass added in
/// between) uses the cache and yields the same first render pass, whatever
/// the graph holds; an emptied cache of an empty graph has nothing to solve,
/// and of a graph with passes must solve again.
pub proof fn law_second_request_reuses_pass<H>(built: Seq<H>, begins: nat, passes: nat)
    requires
        built.len() > 0,
        begins > 0,
    ensures
        step_of(built.len(), begins, passes) == SolveStep::UseCache,
        step_of(0, 0, 0) == SolveStep::Nothing,
        passes > 0 ==> step_of(0, 0, passes) == SolveStep::Solve,
{
}

} // verus!
