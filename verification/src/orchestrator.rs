//! From the source set to the pipeline instances of a run: manifests are
//! found, each of their entries gets a context of its own, and the entry's
//! strategy is chosen.

use crate::context::{
    select_failure, selectable, selection, ProcessCtx, ProcessView, SelectError,
};
use crate::location::{directory_of, relative_to, LocationView, SourceLocation};
use crate::out_asset::{script_bundle_asset, script_bundle_view, OutAsset};
use crate::pipeline::{
    kind_of, ConfigView, MaterialsPipeline, ModelsPipeline, Pipeline, PipelineConfig,
    PipelineKind, PipelineView,
};
use crate::select::{lemma_lists_exactly_same, lists_exactly, marked, marked_places};
use crate::text::ends_with;
use vstd::prelude::*;
use vstd::string::*;

verus! {

/// A manifest is a file whose path ends like this.
pub open spec fn manifest_suffix() -> Seq<char> {
    "pipeline.json"@
}

/// The extension of the files that the script bundle strategy takes.
pub open spec fn script_bundle_extension() -> Seq<char> {
    "script_bundle"@
}

/// `path` is that of a manifest.
pub open spec fn is_manifest_path(path: Seq<char>) -> bool {
    ends_with(path, manifest_suffix())
}

/// The condition under which the file at a place of `files` is a manifest.
pub open spec fn manifest_at(files: Seq<SourceLocation>) -> spec_fn(int) -> bool {
    |i: int| is_manifest_path(files[i]@.path)
}

/// Tells whether `location` is a manifest.
pub fn is_manifest(location: &SourceLocation) -> (yes: bool)
    ensures
        yes == is_manifest_path(location@.path),
{
    location.path_ends_with("pipeline.json")
}

/// The places of the manifests among `files`, in the order of the source
/// set.
pub fn find_manifests(files: &Vec<SourceLocation>) -> (places: Vec<usize>)
    ensures
        lists_exactly(places@, files.len() as int, manifest_at(files@)),
{
    let mut marks: Vec<bool> = Vec::new();
    let mut i: usize = 0;
    while i < files.len()
        invariant
            i <= files.len(),
            marks.len() == i,
            forall|j: int| 0 <= j < i ==> marks@[j] == is_manifest_path(files@[j]@.path),
        decreases files.len() - i,
    {
        marks.push(is_manifest(&files[i]));
        i += 1;
    }
    let places = marked_places(&marks);
    proof {
        lemma_lists_exactly_same(
            places@,
            files.len() as int,
            marked(marks@),
            manifest_at(files@),
        );
    }
    places
}

/// What one pipeline instance works with: its pipeline, the location of its
/// manifest under the fragment that is its place there, and the manifest's
/// directory as seen from the input root.
#[derive(Debug)]
pub struct PipelineCtx {
    pub pipeline: Pipeline,
    pub pipeline_file: SourceLocation,
    pub root_path: String,
}

pub struct PipelineCtxView {
    pub pipeline: PipelineView,
    pub pipeline_file: LocationView,
    pub root_path: Seq<char>,
}

impl View for PipelineCtx {
    type V = PipelineCtxView;

    open spec fn view(&self) -> PipelineCtxView {
        PipelineCtxView {
            pipeline: self.pipeline@,
            pipeline_file: self.pipeline_file@,
            root_path: self.root_path@,
        }
    }
}

impl Clone for PipelineCtx {
    fn clone(&self) -> (copy: Self)
        ensures
            copy@ == self@,
    {
        PipelineCtx {
            pipeline: self.pipeline.clone(),
            pipeline_file: self.pipeline_file.clone(),
            root_path: self.root_path.clone(),
        }
    }
}

/// What locates a failed instance: the manifest entry that it was made for,
/// and the strategy that was to run.
#[derive(Debug)]
pub struct FailureContext {
    pub pipeline_file: SourceLocation,
    pub kind: PipelineKind,
}

/// The views of `instances`, in their order.
pub open spec fn ctx_views(instances: Seq<PipelineCtx>) -> Seq<PipelineCtxView> {
    Seq::new(instances.len(), |i: int| instances[i]@)
}

/// The views of `pipelines`, in their order.
pub open spec fn pipeline_views(pipelines: Seq<Pipeline>) -> Seq<PipelineView> {
    Seq::new(pipelines.len(), |i: int| pipelines[i]@)
}

/// The instance of the entry at place `index` of the manifest at `manifest`.
pub open spec fn instance_of(
    in_root: Seq<char>,
    manifest: Seq<char>,
    index: int,
    pipeline: PipelineView,
) -> PipelineCtxView {
    PipelineCtxView {
        pipeline,
        pipeline_file: LocationView { path: manifest, fragment: Some(index as usize) },
        root_path: relative_to(in_root, directory_of(manifest)),
    }
}

/// The instances of a manifest: one for each entry, in the entries' order.
pub open spec fn plan_of(
    in_root: Seq<char>,
    manifest: Seq<char>,
    pipelines: Seq<PipelineView>,
) -> Seq<PipelineCtxView> {
    Seq::new(pipelines.len(), |i: int| instance_of(in_root, manifest, i, pipelines[i]))
}

/// A manifest with N entries gives N instances, and no two of them carry
/// the same fragment: the fragment of each is its place, from 0 to N-1.
pub proof fn lemma_plan_fragments(
    in_root: Seq<char>,
    manifest: Seq<char>,
    pipelines: Seq<PipelineView>,
)
    requires
        pipelines.len() <= usize::MAX,
    ensures
        plan_of(in_root, manifest, pipelines).len() == pipelines.len(),
        forall|i: int|
            0 <= i < pipelines.len() ==> (#[trigger] plan_of(
                in_root,
                manifest,
                pipelines,
            )[i]).pipeline_file.fragment == Some(i as usize),
        forall|i: int, j: int|
            0 <= i < j < pipelines.len() ==> (#[trigger] plan_of(
                in_root,
                manifest,
                pipelines,
            )[i]).pipeline_file != (#[trigger] plan_of(in_root, manifest, pipelines)[j]).pipeline_file,
{
}

/// Builds the instances of the manifest at `manifest`, whose entries are
/// `pipelines`.
pub fn plan_instances(
    process: &ProcessCtx,
    manifest: &SourceLocation,
    pipelines: Vec<Pipeline>,
) -> (instances: Vec<PipelineCtx>)
    ensures
        ctx_views(instances@) == plan_of(
            process@.in_root.path,
            manifest@.path,
            pipeline_views(pipelines@),
        ),
{
    let directory = manifest.directory();
    let ghost entries = pipelines@;
    let ghost plan = plan_of(process@.in_root.path, manifest@.path, pipeline_views(entries));
    let mut instances: Vec<PipelineCtx> = Vec::new();
    for pipeline in it: pipelines
        invariant
            it.seq() == entries,
            directory@ == directory_of(manifest@.path),
            plan == plan_of(process@.in_root.path, manifest@.path, pipeline_views(entries)),
            instances.len() == it.index(),
            forall|j: int| 0 <= j < instances.len() ==> instances@[j]@ == plan[j],
    {
        let index = instances.len();
        instances.push(
            PipelineCtx {
                pipeline,
                pipeline_file: manifest.with_fragment(index),
                root_path: process.in_root.relative_path(directory.as_str()),
            },
        );
    }
    assert(ctx_views(instances@) =~= plan);
    instances
}

/// One file that the script bundle strategy copies: the bytes of `source`
/// go, unchanged, to `output_path` below the output root.
#[derive(Debug)]
pub struct BundleJob {
    /// The place of the file in the source set.
    pub file: usize,
    pub source: SourceLocation,
    /// The path of the file as seen from the input root.
    pub output_path: String,
}

impl BundleJob {
    /// The asset of this file, once its bytes were written to `content`.
    pub fn finish(&self, content: SourceLocation) -> (asset: OutAsset)
        ensures
            asset@ == script_bundle_view(self.source@, content@),
    {
        script_bundle_asset(&self.source, content)
    }
}

/// The places of `jobs`, in their order.
pub open spec fn job_places(jobs: Seq<BundleJob>) -> Seq<usize> {
    Seq::new(jobs.len(), |k: int| jobs[k].file)
}

/// `jobs` are the copies that the script bundle strategy makes for a
/// pipeline with the source patterns `sources`: one for each selected file
/// with the script bundle extension, in the order of the source set.
pub open spec fn are_bundle_jobs(
    jobs: Seq<BundleJob>,
    process: ProcessView,
    sources: Seq<Seq<char>>,
) -> bool {
    &&& lists_exactly(
        job_places(jobs),
        process.files.len() as int,
        selection(process, sources, Some(script_bundle_extension())),
    )
    &&& forall|k: int|
        0 <= k < jobs.len() ==> {
            &&& (#[trigger] jobs[k]).source@ == process.files[jobs[k].file as int]
            &&& jobs[k].output_path@ == relative_to(process.in_root.path, jobs[k].source@.path)
        }
}

/// What is to be run for a pipeline instance.
#[derive(Debug)]
pub enum StrategyCall {
    /// The model conversion, with a copy of the pipeline's parameters.
    Models(ModelsPipeline),
    /// The copies of the script bundle strategy.
    ScriptBundles(Vec<BundleJob>),
    /// The material conversion, with a copy of the pipeline's parameters.
    Materials(MaterialsPipeline),
    /// The audio conversion.
    Audio,
}

impl PipelineCtx {
    /// What an error report says of this instance.
    pub fn failure_context(&self) -> (context: FailureContext)
        ensures
            context.pipeline_file@ == self@.pipeline_file,
            context.kind == kind_of(self@.pipeline.pipeline),
    {
        FailureContext { pipeline_file: self.pipeline_file.clone(), kind: self.pipeline.pipeline.kind() }
    }

    /// The copies that the script bundle strategy makes for this instance.
    pub fn script_bundle_jobs(&self, process: &ProcessCtx) -> (planned: Result<
        Vec<BundleJob>,
        SelectError,
    >)
        ensures
            match planned {
                Ok(jobs) => selectable(self@.pipeline.sources, process@.input_file_filter)
                    && are_bundle_jobs(jobs@, process@, self@.pipeline.sources),
                Err(error) => select_failure(
                    self@.pipeline.sources,
                    process@.input_file_filter,
                    error,
                ),
            },
    {
        let selected = match process.select_files_by_extension(
            &self.pipeline.sources,
            "script_bundle",
        ) {
            Ok(selected) => selected,
            Err(error) => {
                return Err(error);
            },
        };
        let mut jobs: Vec<BundleJob> = Vec::new();
        let mut k: usize = 0;
        while k < selected.len()
            invariant
                k <= selected.len(),
                jobs.len() == k,
                forall|a: int| 0 <= a < selected.len() ==> selected@[a] < process.files.len(),
                forall|j: int|
                    0 <= j < k ==> {
                        &&& (#[trigger] jobs@[j]).file == selected@[j]
                        &&& jobs@[j].source@ == process@.files[jobs@[j].file as int]
                        &&& jobs@[j].output_path@ == relative_to(
                            process@.in_root.path,
                            jobs@[j].source@.path,
                        )
                    },
            decreases selected.len() - k,
        {
            let place = selected[k];
            let file = &process.files[place];
            assert(process@.files[place as int] == file@);
            jobs.push(
                BundleJob {
                    file: place,
                    source: file.clone(),
                    output_path: process.in_root.relative_path(file.path()),
                },
            );
            k += 1;
        }
        assert(job_places(jobs@) =~= selected@);
        Ok(jobs)
    }

    /// Chooses what is to be run for this instance: the strategy of its
    /// pipeline's variant. For script bundles the copies are planned here,
    /// which fails where a pattern cannot be matched with; for the other
    /// strategies nothing is looked at.
    pub fn dispatch(&self, process: &ProcessCtx) -> (call: Result<StrategyCall, SelectError>)
        ensures
            match self@.pipeline.pipeline {
                ConfigView::Models(settings) => call matches Ok(StrategyCall::Models(config))
                    && config.settings@ == settings,
                ConfigView::Materials(settings) => call matches Ok(
                    StrategyCall::Materials(config),
                ) && config.settings@ == settings,
                ConfigView::Audio => call matches Ok(StrategyCall::Audio),
                ConfigView::ScriptBundles => match call {
                    Ok(StrategyCall::ScriptBundles(jobs)) => selectable(
                        self@.pipeline.sources,
                        process@.input_file_filter,
                    ) && are_bundle_jobs(jobs@, process@, self@.pipeline.sources),
                    Ok(_) => false,
                    Err(error) => select_failure(
                        self@.pipeline.sources,
                        process@.input_file_filter,
                        error,
                    ),
                },
            },
    {
        match &self.pipeline.pipeline {
            PipelineConfig::Models(config) => Ok(StrategyCall::Models(config.clone())),
            PipelineConfig::ScriptBundles => match self.script_bundle_jobs(process) {
                Ok(jobs) => Ok(StrategyCall::ScriptBundles(jobs)),
                Err(error) => Err(error),
            },
            PipelineConfig::Materials(config) => Ok(StrategyCall::Materials(config.clone())),
            PipelineConfig::Audio => Ok(StrategyCall::Audio),
        }
    }
}

} // verus!
