use vstd::prelude::*;

use super::types::{BentoError, CompilationResult, PipelineKind, ShaderType};

verus! {

/// A graphics pipeline: a vertex and a fragment stage.
#[derive(Clone, Debug, PartialEq, Eq)]
pub struct GraphicsPipeline {
    pub vertex: CompilationResult,
    pub fragment: CompilationResult,
}

/// A compute pipeline: a single compute stage.
#[derive(Clone, Debug, PartialEq, Eq)]
pub struct ComputePipeline {
    pub compute: CompilationResult,
}

/// Compatible shader stages grouped into a pipeline.
#[derive(Clone, Debug, PartialEq, Eq)]
pub enum Pipeline {
    Graphics(GraphicsPipeline),
    Compute(ComputePipeline),
}

/// The reasons `from_stages` rejects a list of stages.
pub open spec fn duplicate_vertex_msg() -> Seq<char> { "Graphics pipelines can only contain one vertex stage"@ }
pub open spec fn duplicate_fragment_msg() -> Seq<char> { "Graphics pipelines can only contain one fragment stage"@ }
pub open spec fn duplicate_compute_msg() -> Seq<char> { "Compute pipelines can only contain one compute stage"@ }
pub open spec fn all_stage_msg() -> Seq<char> { "ShaderType::All cannot be used to build a pipeline"@ }
pub open spec fn mixed_compute_msg() -> Seq<char> { "Compute pipelines cannot include graphics stages"@ }
pub open spec fn missing_vertex_msg() -> Seq<char> { "Graphics pipelines require a vertex stage"@ }
pub open spec fn missing_fragment_msg() -> Seq<char> { "Graphics pipelines require a fragment stage"@ }

/// The stages collected so far, by kind, or the message of the first
/// rejected stage.
pub open spec fn collect_stages(s: Seq<CompilationResult>) -> Result<
    (Option<CompilationResult>, Option<CompilationResult>, Option<CompilationResult>),
    Seq<char>,
>
    decreases s.len(),
{
    if s.len() == 0 {
        Ok((None, None, None))
    } else {
        match collect_stages(s.drop_last()) {
            Err(m) => Err(m),
            Ok((v, f, c)) => {
                let x = s.last();
                match x.stage {
                    ShaderType::Vertex => if v is Some { Err(duplicate_vertex_msg()) } else { Ok((Some(x), f, c)) },
                    ShaderType::Fragment => if f is Some { Err(duplicate_fragment_msg()) } else { Ok((v, Some(x), c)) },
                    ShaderType::Compute => if c is Some { Err(duplicate_compute_msg()) } else { Ok((v, f, Some(x))) },
                    ShaderType::All => Err(all_stage_msg()),
                }
            },
        }
    }
}

/// Once a prefix is rejected, so is every extension of it.
proof fn lemma_collect_err_prefix(s: Seq<CompilationResult>, j: int)
    requires
        0 <= j <= s.len(),
        collect_stages(s.take(j)) is Err,
    ensures
        collect_stages(s) == collect_stages(s.take(j)),
        pipeline_from(s) == (match collect_stages(s.take(j)) {
            Err(m) => Err::<Pipeline, Seq<char>>(m),
            Ok(_) => Err::<Pipeline, Seq<char>>(Seq::empty()),
        }),
    decreases s.len() - j,
{
    if j < s.len() {
        let t = s.take(j + 1);
        assert(t.drop_last() =~= s.take(j));
        lemma_collect_err_prefix(s, j + 1);
    } else {
        assert(s.take(j) =~= s);
    }
}

proof fn lemma_rejected(s: Seq<CompilationResult>, j: int, m: Seq<char>, e: BentoError)
    requires
        0 <= j <= s.len(),
        collect_stages(s.take(j)) == Err::<(Option<CompilationResult>, Option<CompilationResult>, Option<CompilationResult>), Seq<char>>(m),
        e matches BentoError::InvalidInput(msg) && msg@ == m,
    ensures
        pipeline_result_matches(Err(e), pipeline_from(s)),
{
    lemma_collect_err_prefix(s, j);
}

/// What `from_stages` makes of `s`: the pipeline, or the message of the
/// `InvalidInput` error it reports.
pub open spec fn pipeline_from(s: Seq<CompilationResult>) -> Result<Pipeline, Seq<char>> {
    match collect_stages(s) {
        Err(m) => Err(m),
        Ok((v, f, c)) => match c {
            Some(c) => if v is Some || f is Some {
                Err(mixed_compute_msg())
            } else {
                Ok(Pipeline::Compute(ComputePipeline { compute: c }))
            },
            None => match (v, f) {
                (None, _) => Err(missing_vertex_msg()),
                (Some(_), None) => Err(missing_fragment_msg()),
                (Some(v), Some(f)) => Ok(Pipeline::Graphics(GraphicsPipeline { vertex: v, fragment: f })),
            },
        },
    }
}

/// `r` is the outcome that `pipeline_from` describes.
pub open spec fn pipeline_result_matches(r: Result<Pipeline, BentoError>, expected: Result<Pipeline, Seq<char>>) -> bool {
    match expected {
        Ok(p) => r == Ok::<Pipeline, BentoError>(p),
        Err(m) => r matches Err(BentoError::InvalidInput(msg)) && msg@ == m,
    }
}

fn duplicate_vertex_error() -> (e: BentoError)
    ensures
        e matches BentoError::InvalidInput(m) && m@ == duplicate_vertex_msg(),
{
    let m = "Graphics pipelines can only contain one vertex stage";
    proof {
        reveal_strlit("Graphics pipelines can only contain one vertex stage");
    }
    BentoError::InvalidInput(m.to_owned())
}

fn duplicate_fragment_error() -> (e: BentoError)
    ensures
        e matches BentoError::InvalidInput(m) && m@ == duplicate_fragment_msg(),
{
    let m = "Graphics pipelines can only contain one fragment stage";
    proof {
        reveal_strlit("Graphics pipelines can only contain one fragment stage");
    }
    BentoError::InvalidInput(m.to_owned())
}

fn duplicate_compute_error() -> (e: BentoError)
    ensures
        e matches BentoError::InvalidInput(m) && m@ == duplicate_compute_msg(),
{
    let m = "Compute pipelines can only contain one compute stage";
    proof {
        reveal_strlit("Compute pipelines can only contain one compute stage");
    }
    BentoError::InvalidInput(m.to_owned())
}

fn all_stage_error() -> (e: BentoError)
    ensures
        e matches BentoError::InvalidInput(m) && m@ == all_stage_msg(),
{
    let m = "ShaderType::All cannot be used to build a pipeline";
    proof {
        reveal_strlit("ShaderType::All cannot be used to build a pipeline");
    }
    BentoError::InvalidInput(m.to_owned())
}

fn mixed_compute_error() -> (e: BentoError)
    ensures
        e matches BentoError::InvalidInput(m) && m@ == mixed_compute_msg(),
{
    let m = "Compute pipelines cannot include graphics stages";
    proof {
        reveal_strlit("Compute pipelines cannot include graphics stages");
    }
    BentoError::InvalidInput(m.to_owned())
}

fn missing_vertex_error() -> (e: BentoError)
    ensures
        e matches BentoError::InvalidInput(m) && m@ == missing_vertex_msg(),
{
    let m = "Graphics pipelines require a vertex stage";
    proof {
        reveal_strlit("Graphics pipelines require a vertex stage");
    }
    BentoError::InvalidInput(m.to_owned())
}

fn missing_fragment_error() -> (e: BentoError)
    ensures
        e matches BentoError::InvalidInput(m) && m@ == missing_fragment_msg(),
{
    let m = "Graphics pipelines require a fragment stage";
    proof {
        reveal_strlit("Graphics pipelines require a fragment stage");
    }
    BentoError::InvalidInput(m.to_owned())
}

impl Pipeline {
    /// Builds a pipeline from stage compilation results.  A graphics
    /// pipeline takes exactly one vertex and one fragment stage; a compute
    /// pipeline exactly one compute stage and no graphics stage.  The first
    /// duplicate or `All` stage, in order, is reported.
    pub fn from_stages(stages: Vec<CompilationResult>) -> (r: Result<Pipeline, BentoError>)
        ensures
            pipeline_result_matches(r, pipeline_from(stages@)),
    {
        let mut vertex: Option<CompilationResult> = None;
        let mut fragment: Option<CompilationResult> = None;
        let mut compute: Option<CompilationResult> = None;
        let ghost all = stages@;
        let mut rest = stages;
        let ghost mut k: int = 0;
        assert(all.take(0) =~= Seq::<CompilationResult>::empty());
        while rest.len() > 0
            invariant
                0 <= k <= all.len(),
                rest@ == all.skip(k),
                all == stages@,
                collect_stages(all.take(k)) == Ok::<_, Seq<char>>((vertex, fragment, compute)),
            decreases rest@.len(),
        {
            let stage = rest.remove(0);
            proof {
                assert(all.take(k + 1).drop_last() =~= all.take(k));
                assert(all.take(k + 1).last() == stage);
            }
            match stage.stage {
                ShaderType::Vertex => {
                    if vertex.is_some() {
                        let e = duplicate_vertex_error();
                        proof {
                            lemma_rejected(all, k + 1, duplicate_vertex_msg(), e);
                        }
                        return Err(e);
                    }
                    vertex = Some(stage);
                },
                ShaderType::Fragment => {
                    if fragment.is_some() {
                        let e = duplicate_fragment_error();
                        proof {
                            lemma_rejected(all, k + 1, duplicate_fragment_msg(), e);
                        }
                        return Err(e);
                    }
                    fragment = Some(stage);
                },
                ShaderType::Compute => {
                    if compute.is_some() {
                        let e = duplicate_compute_error();
                        proof {
                            lemma_rejected(all, k + 1, duplicate_compute_msg(), e);
                        }
                        return Err(e);
                    }
                    compute = Some(stage);
                },
                ShaderType::All => {
                    let e = all_stage_error();
                    proof {
                        lemma_rejected(all, k + 1, all_stage_msg(), e);
                    }
                    return Err(e);
                },
            }
            proof {
                k = k + 1;
                assert(rest@ =~= all.skip(k));
            }
        }
        proof {
            assert(all.take(k) =~= all);
        }
        if let Some(compute) = compute {
            if vertex.is_some() || fragment.is_some() {
                return Err(mixed_compute_error());
            }
            return Ok(Pipeline::Compute(ComputePipeline { compute }));
        }
        let vertex = match vertex {
            Some(v) => v,
            None => return Err(missing_vertex_error()),
        };
        let fragment = match fragment {
            Some(f) => f,
            None => return Err(missing_fragment_error()),
        };
        Ok(Pipeline::Graphics(GraphicsPipeline { vertex, fragment }))
    }

    /// The kind of pipeline.
    pub fn kind(&self) -> (k: PipelineKind)
        ensures
            k == (match self {
                Pipeline::Graphics(_) => PipelineKind::Graphics,
                Pipeline::Compute(_) => PipelineKind::Compute,
            }),
    {
        match self {
            Pipeline::Graphics(_) => PipelineKind::Graphics,
            Pipeline::Compute(_) => PipelineKind::Compute,
        }
    }

    /// The vertex stage of a graphics pipeline.
    pub fn vertex(&self) -> (r: Option<&CompilationResult>)
        ensures
            r == (match self {
                Pipeline::Graphics(g) => Some(&g.vertex),
                Pipeline::Compute(_) => None,
            }),
    {
        match self {
            Pipeline::Graphics(graphics) => Some(&graphics.vertex),
            Pipeline::Compute(_) => None,
        }
    }

    /// The fragment stage of a graphics pipeline.
    pub fn fragment(&self) -> (r: Option<&CompilationResult>)
        ensures
            r == (match self {
                Pipeline::Graphics(g) => Some(&g.fragment),
                Pipeline::Compute(_) => None,
            }),
    {
        match self {
            Pipeline::Graphics(graphics) => Some(&graphics.fragment),
            Pipeline::Compute(_) => None,
        }
    }

    /// The compute stage of a compute pipeline.
    pub fn compute(&self) -> (r: Option<&CompilationResult>)
        ensures
            r == (match self {
                Pipeline::Graphics(_) => None,
                Pipeline::Compute(c) => Some(&c.compute),
            }),
    {
        match self {
            Pipeline::Graphics(_) => None,
            Pipeline::Compute(compute) => Some(&compute.compute),
        }
    }
}

// ------------------------------------------------------------------ laws

/// How many of the stages `s` are of type `t`.
pub open spec fn stage_count(s: Seq<CompilationResult>, t: ShaderType) -> nat
    decreases s.len(),
{
    if s.len() == 0 {
        0
    } else {
        stage_count(s.drop_last(), t) + if s.last().stage == t {
            1nat
        } else {
            0nat
        }
    }
}

/// The last of the stages `s` of type `t`.
pub open spec fn stage_of(s: Seq<CompilationResult>, t: ShaderType) -> Option<CompilationResult>
    decreases s.len(),
{
    if s.len() == 0 {
        None
    } else if s.last().stage == t {
        Some(s.last())
    } else {
        stage_of(s.drop_last(), t)
    }
}

proof fn lemma_stage_of_some(s: Seq<CompilationResult>, t: ShaderType)
    ensures
        (stage_of(s, t) is Some) == (stage_count(s, t) > 0),
        stage_of(s, t) matches Some(x) ==> x.stage == t && s.contains(x),
    decreases s.len(),
{
    if s.len() > 0 {
        lemma_stage_of_some(s.drop_last(), t);
        if s.last().stage != t {
            if let Some(x) = stage_of(s.drop_last(), t) {
                let i = choose|i: int| 0 <= i < s.drop_last().len() && s.drop_last()[i] == x;
                assert(s[i] == x);
            }
        } else {
            assert(s[s.len() - 1] == s.last());
        }
    }
}

/// Stages are collected exactly when there is at most one of each kind
/// and no `All` stage; then each kind holds its one stage.
proof fn lemma_collect_counts(s: Seq<CompilationResult>)
    ensures
        (collect_stages(s) is Ok) == (stage_count(s, ShaderType::Vertex) <= 1 && stage_count(s, ShaderType::Fragment) <= 1
            && stage_count(s, ShaderType::Compute) <= 1 && stage_count(s, ShaderType::All) == 0),
        collect_stages(s) is Ok ==> collect_stages(s) == Ok::<_, Seq<char>>(
            (stage_of(s, ShaderType::Vertex), stage_of(s, ShaderType::Fragment), stage_of(s, ShaderType::Compute)),
        ),
    decreases s.len(),
{
    if s.len() > 0 {
        let d = s.drop_last();
        lemma_collect_counts(d);
        lemma_stage_of_some(d, ShaderType::Vertex);
        lemma_stage_of_some(d, ShaderType::Fragment);
        lemma_stage_of_some(d, ShaderType::Compute);
    }
}

/// Whether `from_stages` builds a pipeline depends only on how many stages
/// of each type it is given: a compute pipeline for exactly one compute
/// stage and nothing else, a graphics pipeline for exactly one vertex and
/// one fragment stage and nothing else; the pipeline holds those stages.
pub proof fn law_from_stages_counts(s: Seq<CompilationResult>)
    ensures
        ({
            let nv = stage_count(s, ShaderType::Vertex);
            let nf = stage_count(s, ShaderType::Fragment);
            let nc = stage_count(s, ShaderType::Compute);
            let na = stage_count(s, ShaderType::All);
            &&& (pipeline_from(s) is Ok) == ((nc == 1 && nv == 0 && nf == 0 && na == 0) || (nv == 1 && nf == 1 && nc == 0
                && na == 0))
            &&& (nc == 1 && nv == 0 && nf == 0 && na == 0) ==> pipeline_from(s) == Ok::<Pipeline, Seq<char>>(
                Pipeline::Compute(ComputePipeline { compute: stage_of(s, ShaderType::Compute)->0 }),
            )
            &&& (nv == 1 && nf == 1 && nc == 0 && na == 0) ==> pipeline_from(s) == Ok::<Pipeline, Seq<char>>(
                Pipeline::Graphics(
                    GraphicsPipeline {
                        vertex: stage_of(s, ShaderType::Vertex)->0,
                        fragment: stage_of(s, ShaderType::Fragment)->0,
                    },
                ),
            )
        }),
        stage_of(s, ShaderType::Vertex) matches Some(x) ==> x.stage == ShaderType::Vertex && s.contains(x),
        stage_of(s, ShaderType::Fragment) matches Some(x) ==> x.stage == ShaderType::Fragment && s.contains(x),
        stage_of(s, ShaderType::Compute) matches Some(x) ==> x.stage == ShaderType::Compute && s.contains(x),
{
    lemma_collect_counts(s);
    lemma_stage_of_some(s, ShaderType::Vertex);
    lemma_stage_of_some(s, ShaderType::Fragment);
    lemma_stage_of_some(s, ShaderType::Compute);
}

proof fn lemma_count_concat(a: Seq<CompilationResult>, b: Seq<CompilationResult>, t: ShaderType)
    ensures
        stage_count(a + b, t) == stage_count(a, t) + stage_count(b, t),
        stage_of(a + b, t) == if stage_count(b, t) > 0 {
            stage_of(b, t)
        } else {
            stage_of(a, t)
        },
    decreases b.len(),
{
    lemma_stage_of_some(b, t);
    if b.len() == 0 {
        assert(a + b =~= a);
    } else {
        assert((a + b).drop_last() =~= a + b.drop_last());
        assert((a + b).last() == b.last());
        lemma_count_concat(a, b.drop_last(), t);
        lemma_stage_of_some(b.drop_last(), t);
    }
}

/// Swapping two neighbouring stages changes neither whether `from_stages`
/// builds a pipeline nor the pipeline it builds; since every reordering is
/// a series of such swaps, the order of the stages does not matter.
pub proof fn law_from_stages_order_free(s: Seq<CompilationResult>, i: int)
    requires
        0 <= i < s.len() - 1,
    ensures
        ({
            let swapped = s.update(i, s[i + 1]).update(i + 1, s[i]);
            &&& (pipeline_from(swapped) is Ok) == (pipeline_from(s) is Ok)
            &&& pipeline_from(s) is Ok ==> pipeline_from(swapped) == pipeline_from(s)
        }),
{
    let swapped = s.update(i, s[i + 1]).update(i + 1, s[i]);
    let a = s.take(i);
    let b = s.skip(i + 2);
    let xy = seq![s[i], s[i + 1]];
    let yx = seq![s[i + 1], s[i]];
    assert(s =~= a + xy + b);
    assert(swapped =~= a + yx + b);
    assert(xy.drop_last() =~= seq![s[i]]);
    assert(yx.drop_last() =~= seq![s[i + 1]]);
    assert(seq![s[i]].drop_last() =~= Seq::<CompilationResult>::empty());
    assert(seq![s[i + 1]].drop_last() =~= Seq::<CompilationResult>::empty());
    assert forall|t: ShaderType| #[trigger] stage_count(swapped, t) == stage_count(s, t) && (stage_count(s, t) <= 1
        ==> stage_of(swapped, t) == stage_of(s, t)) by {
        assert(xy =~= seq![s[i]] + seq![s[i + 1]]);
        assert(yx =~= seq![s[i + 1]] + seq![s[i]]);
        lemma_count_concat(seq![s[i]], seq![s[i + 1]], t);
        lemma_count_concat(seq![s[i + 1]], seq![s[i]], t);
        lemma_count_concat(a, xy, t);
        lemma_count_concat(a + xy, b, t);
        lemma_count_concat(a, yx, t);
        lemma_count_concat(a + yx, b, t);
    }
    law_from_stages_counts(s);
    law_from_stages_counts(swapped);
    assert(stage_count(swapped, ShaderType::Vertex) == stage_count(s, ShaderType::Vertex));
    assert(stage_count(swapped, ShaderType::Fragment) == stage_count(s, ShaderType::Fragment));
    assert(stage_count(swapped, ShaderType::Compute) == stage_count(s, ShaderType::Compute));
    assert(stage_count(swapped, ShaderType::All) == stage_count(s, ShaderType::All));
}

} // verus!
