//! The cache of compiled programs: shader modules and the pipelines made from them.
use vstd::prelude::*;
use crate::kernels::Shaders;
use crate::queue::PipelineId;
use crate::queue::PipelineType;

verus! {

/// A compiled pipeline: its identity, and the shader module it was made from.
#[derive(Clone, Copy, Debug, PartialEq, Eq, Hash, Structural)]
pub struct CachedPipeline {
    pub pipeline: PipelineType,
    /// The number of the shader module.
    pub module: usize,
}

/// Whether the pipeline at place `i` has the identity `pipeline`.
pub open spec fn holds_pipeline(pipelines: Seq<CachedPipeline>, i: int,
    pipeline: PipelineType) -> bool {
    0 <= i < pipelines.len() && pipelines[i].pipeline == pipeline
}

/// Whether the shader module at place `i` is `shader`.
pub open spec fn holds_shader(shaders: Seq<Shaders>, i: int, shader: Shaders) -> bool {
    0 <= i < shaders.len() && shaders[i] == shader
}

/// Whether the pipeline at place `i` is the first with the identity `pipeline`.
pub open spec fn is_first_pipeline(
    pipelines: Seq<CachedPipeline>,
    i: int,
    pipeline: PipelineType,
) -> bool {
    holds_pipeline(pipelines, i, pipeline) && forall|j: int|
        0 <= j < i ==> !holds_pipeline(pipelines, j, pipeline)
}

/// Whether the shader module at place `i` is the first that is `shader`.
pub open spec fn is_first_shader(shaders: Seq<Shaders>, i: int, shader: Shaders) -> bool {
    holds_shader(shaders, i, shader) && forall|j: int| 0 <= j < i ==> !holds_shader(shaders, j,
        shader)
}

/// The number of the pipeline with the identity `pipeline`: that of the first such
/// pipeline, or where there is none the number that a new one gets.
pub open spec fn found_pipeline(pipelines: Seq<CachedPipeline>, pipeline: PipelineType) -> int {
    if exists|i: int| is_first_pipeline(pipelines, i, pipeline) {
        choose|i: int| is_first_pipeline(pipelines, i, pipeline)
    } else {
        pipelines.len() as int
    }
}

/// The number of the shader module `shader`: that of the first such module, or where
/// there is none the number that a new one gets.
pub open spec fn found_shader(shaders: Seq<Shaders>, shader: Shaders) -> int {
    if exists|i: int| is_first_shader(shaders, i, shader) {
        choose|i: int| is_first_shader(shaders, i, shader)
    } else {
        shaders.len() as int
    }
}

/// The shader modules and the pipelines after the pipeline with the identity `pipeline`
/// was looked up: where it was missing it is added, in the shader module of its kernel,
/// which is added too where it was missing.
pub open spec fn with_pipeline(
    shaders: Seq<Shaders>,
    pipelines: Seq<CachedPipeline>,
    pipeline: PipelineType,
) -> (Seq<Shaders>, Seq<CachedPipeline>) {
    if found_pipeline(pipelines, pipeline) < pipelines.len() {
        (shaders, pipelines)
    } else {
        let module = found_shader(shaders, pipeline.0.shader());
        (
            if module == shaders.len() {
                shaders.push(pipeline.0.shader())
            } else {
                shaders
            },
            pipelines.push(CachedPipeline { pipeline, module: module as usize }),
        )
    }
}

/// What a lookup in the cache of compiled programs found.
#[derive(Clone, Copy, Debug, PartialEq, Eq, Hash, Structural)]
pub struct PipelineLookup {
    /// The number of the pipeline.
    pub id: PipelineId,
    /// Whether the pipeline is new and has yet to be compiled.
    pub created: bool,
    /// Whether its shader module is new as well.
    pub module_created: bool,
}

/// The shader modules of a device with the compute pipelines made from them. Nothing is
/// ever taken out: a module's and a pipeline's number is its place.
#[derive(Debug)]
pub struct ShaderModuleComputePipelines {
    pub shaders: Vec<Shaders>,
    pub pipelines: Vec<CachedPipeline>,
}

impl ShaderModuleComputePipelines {
    /// The invariant of the cache: no identity and no module stands in it twice, and every
    /// pipeline names the module of its kernel.
    pub open spec fn wf(&self) -> bool {
        &&& forall|i: int, j: int|
            0 <= i < j < self.shaders@.len() ==> #[trigger] self.shaders@[i]
                != #[trigger] self.shaders@[j]
        &&& forall|i: int, j: int|
            0 <= i < j < self.pipelines@.len() ==> (#[trigger] self.pipelines@[i]).pipeline != (
            #[trigger] self.pipelines@[j]).pipeline
        &&& forall|i: int|
            0 <= i < self.pipelines@.len() ==> holds_shader(
                self.shaders@,
                (#[trigger] self.pipelines@[i]).module as int,
                self.pipelines@[i].pipeline.0.shader(),
            )
    }

    /// An empty cache.
    pub fn new() -> (r: ShaderModuleComputePipelines)
        ensures
            r.wf(),
            r.shaders@.len() == 0,
            r.pipelines@.len() == 0,
    {
        ShaderModuleComputePipelines { shaders: Vec::new(), pipelines: Vec::new() }
    }

    /// The shader module `shader`: its number, and whether it is new to the cache.
    pub fn get_shader_module(&mut self, shader: Shaders) -> (r: (usize, bool))
        requires
            old(self).wf(),
        ensures
            final(self).wf(),
            holds_shader(final(self).shaders@, r.0 as int, shader),
            !r.1 ==> holds_shader(old(self).shaders@, r.0 as int, shader) && final(self).shaders@
                == old(self).shaders@,
            r.1 ==> (forall|j: int| !holds_shader(old(self).shaders@, j, shader)) && r.0 ==
                old(self).shaders@.len() && final(self).shaders@ == old(self).shaders@.push(shader),
            final(self).pipelines == old(self).pipelines,
            r.0 == found_shader(old(self).shaders@, shader),
            r.1 == (r.0 == old(self).shaders@.len()),
    {
        let n: usize = self.shaders.len();
        let mut i: usize = 0;
        while i < n
            invariant
                n == self.shaders@.len(),
                i <= n,
                self.shaders@ == old(self).shaders@,
                self.pipelines == old(self).pipelines,
                self.wf(),
                forall|j: int| 0 <= j < i ==> !holds_shader(self.shaders@, j, shader),
            decreases n - i,
        {
            if self.shaders[i] == shader {
                proof {
                    assert(is_first_shader(self.shaders@, i as int, shader));
                    let chosen = choose|c: int| is_first_shader(self.shaders@, c, shader);
                    assert(holds_shader(self.shaders@, chosen, shader));
                    assert(holds_shader(self.shaders@, i as int, shader));
                }
                return (i, false);
            }
            i = i + 1;
        }
        proof {
            assert forall|c: int| !is_first_shader(self.shaders@, c, shader) by {
                assert(!holds_shader(self.shaders@, c, shader));
            }
        }
        self.shaders.push(shader);
        assert forall|a: int, b: int| 0 <=
            a < b < self.shaders@.len() implies #[trigger] self.shaders@[a]
            != #[trigger] self.shaders@[b] by {
            if b == n {
                assert(!holds_shader(old(self).shaders@, a, shader));
            }
        }
        assert forall|k: int|
            0 <= k < self.pipelines@.len() implies holds_shader(
            self.shaders@,
            (#[trigger] self.pipelines@[k]).module as int,
            self.pipelines@[k].pipeline.0.shader(),
        ) by {
            assert(holds_shader(
                old(self).shaders@,
                old(self).pipelines@[k].module as int,
                old(self).pipelines@[k].pipeline.0.shader(),
            ));
        }
        (n, true)
    }

    /// The compiled pipeline with the identity `pipeline`. Equal identities give the same
    /// pipeline: one that stands in the cache is found again, and only an identity new to
    /// the cache makes a new pipeline, in the shader module of its kernel.
    pub fn get_pipeline(&mut self, pipeline: &PipelineType) -> (r: PipelineLookup)
        requires
            old(self).wf(),
        ensures
            final(self).wf(),
            holds_pipeline(final(self).pipelines@, r.id as int, *pipeline),
            !r.created ==> holds_pipeline(old(self).pipelines@, r.id as int, *pipeline)
                && !r.module_created && final(self).pipelines@ == old(self).pipelines@ &&
                    final(self).shaders@ == old(self).shaders@,
            r.created ==> (forall|j: int| !holds_pipeline(old(self).pipelines@, j, *pipeline))
                && r.id == old(self).pipelines@.len() && final(self).pipelines@ ==
                    old(self).pipelines@.push(final(self).pipelines@[r.id as int]),
            r.created && r.module_created ==> (forall|j: int|
                !holds_shader(old(self).shaders@, j, pipeline.0.shader())) && final(self).shaders@
                == old(self).shaders@.push(pipeline.0.shader()),
            r.created && !r.module_created ==> final(self).shaders@ == old(self).shaders@,
            r.id == found_pipeline(old(self).pipelines@, *pipeline),
            r.created == (r.id == old(self).pipelines@.len()),
            (final(self).shaders@, final(self).pipelines@) == with_pipeline(
                old(self).shaders@,
                old(self).pipelines@,
                *pipeline,
            ),
    {
        let n: usize = self.pipelines.len();
        let mut i: usize = 0;
        while i < n
            invariant
                n == self.pipelines@.len(),
                i <= n,
                self.shaders@ == old(self).shaders@,
                self.pipelines@ == old(self).pipelines@,
                self.wf(),
                forall|j: int| 0 <= j < i ==> !holds_pipeline(self.pipelines@, j, *pipeline),
            decreases n - i,
        {
            if self.pipelines[i].pipeline == *pipeline {
                proof {
                    assert(is_first_pipeline(self.pipelines@, i as int, *pipeline));
                    let chosen = choose|c: int| is_first_pipeline(self.pipelines@, c, *pipeline);
                    assert(holds_pipeline(self.pipelines@, chosen, *pipeline));
                    assert(holds_pipeline(self.pipelines@, i as int, *pipeline));
                }
                return PipelineLookup { id: i, created: false, module_created: false };
            }
            i = i + 1;
        }
        proof {
            assert forall|c: int| !is_first_pipeline(self.pipelines@, c, *pipeline) by {
                assert(!holds_pipeline(self.pipelines@, c, *pipeline));
            }
        }
        let (module, module_created) = self.get_shader_module(pipeline.0.get_shader());
        self.pipelines.push(CachedPipeline { pipeline: *pipeline, module });
        assert(self.pipelines@ =~= old(self).pipelines@.push(self.pipelines@[n as int]));
        assert forall|a: int, b: int| 0 <= a < b < self.pipelines@.len() implies (
        #[trigger] self.pipelines@[a]).pipeline != (#[trigger] self.pipelines@[b]).pipeline by {
            if b == n {
                assert(!holds_pipeline(old(self).pipelines@, a, *pipeline));
            }
        }
        assert forall|k: int|
            0 <= k < self.pipelines@.len() implies holds_shader(
            self.shaders@,
            (#[trigger] self.pipelines@[k]).module as int,
            self.pipelines@[k].pipeline.0.shader(),
        ) by {
            if k < n {
                assert(holds_shader(
                    old(self).shaders@,
                    old(self).pipelines@[k].module as int,
                    old(self).pipelines@[k].pipeline.0.shader(),
                ));
            }
        }
        PipelineLookup { id: n, created: true, module_created }
    }
}

/// Equal pipeline identities name the same compiled pipeline: the cache holds no identity
/// twice.
pub proof fn lemma_pipeline_unique(
    cache: ShaderModuleComputePipelines,
    pipeline: PipelineType,
    i: int,
    j: int,
)
    requires
        cache.wf(),
        holds_pipeline(cache.pipelines@, i, pipeline),
        holds_pipeline(cache.pipelines@, j, pipeline),
    ensures
        i == j,
{
    if i < j {
        assert(cache.pipelines@[i].pipeline != cache.pipelines@[j].pipeline);
    } else if j < i {
        assert(cache.pipelines@[j].pipeline != cache.pipelines@[i].pipeline);
    }
}

} // verus!

