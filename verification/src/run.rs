//! One run over all pipeline instances: which may start, which are in
//! flight, and what each put out.
//!
//! The run performs nothing itself. Its caller asks which instance to start
//! next, runs it in whatever way it likes, and reports how it ended. The run
//! sees to it that no more than a fixed number are in flight at once.

use crate::context::ProcessCtx;
use crate::location::{LocationView, SourceLocation};
use crate::orchestrator::{
    ctx_views, pipeline_views, plan_instances, plan_of, PipelineCtx, PipelineCtxView,
};
use crate::out_asset::{asset_views, AssetView, OutAsset};
use crate::pipeline::{Pipeline, PipelineView};
use vstd::prelude::*;

verus! {

/// The number of pipeline instances that may be in flight at once.
pub const MAX_IN_FLIGHT: usize = 30;

/// A manifest that was read: its location and its entries, in their order.
#[derive(Debug)]
pub struct ManifestDocument {
    pub location: SourceLocation,
    pub pipelines: Vec<Pipeline>,
}

pub struct DocumentView {
    pub location: LocationView,
    pub pipelines: Seq<PipelineView>,
}

impl View for ManifestDocument {
    type V = DocumentView;

    open spec fn view(&self) -> DocumentView {
        DocumentView { location: self.location@, pipelines: pipeline_views(self.pipelines@) }
    }
}

/// The views of `documents`, in their order.
pub open spec fn document_views(documents: Seq<ManifestDocument>) -> Seq<DocumentView> {
    Seq::new(documents.len(), |d: int| documents[d]@)
}

/// The instances of each of `documents`.
pub open spec fn plans(in_root: Seq<char>, documents: Seq<DocumentView>) -> Seq<
    Seq<PipelineCtxView>,
> {
    Seq::new(
        documents.len(),
        |d: int| plan_of(in_root, documents[d].location.path, documents[d].pipelines),
    )
}

/// The instances of a run over `documents`: those of the first manifest,
/// then those of the second, and so on.
pub open spec fn planned(in_root: Seq<char>, documents: Seq<DocumentView>) -> Seq<PipelineCtxView> {
    plans(in_root, documents).flatten()
}

/// How many of the first `n` instances have not finished.
pub open spec fn unfinished_below(finished: Seq<bool>, n: int) -> int
    decreases n,
{
    if n <= 0 {
        0
    } else {
        unfinished_below(finished, n - 1) + if finished[n - 1] {
            0int
        } else {
            1int
        }
    }
}

/// The state of a run.
pub struct RunView {
    /// All instances, in the order in which they start.
    pub instances: Seq<PipelineCtxView>,
    /// How many of them were started: the first `started`.
    pub started: nat,
    /// Which of them have finished.
    pub finished: Seq<bool>,
    /// What each put out; nothing while it has not finished, and nothing
    /// where it failed.
    pub outputs: Seq<Seq<AssetView>>,
}

impl RunView {
    /// How many instances were started and have not finished.
    pub open spec fn in_flight(self) -> int {
        unfinished_below(self.finished, self.started as int)
    }

    /// One more instance may start.
    pub open spec fn can_start(self) -> bool {
        self.started < self.instances.len() && self.in_flight() < MAX_IN_FLIGHT
    }

    /// Every instance has finished.
    pub open spec fn done(self) -> bool {
        forall|i: int| 0 <= i < self.instances.len() ==> self.finished[i]
    }

    /// What holds of every state of a run.
    pub open spec fn valid(self) -> bool {
        &&& self.finished.len() == self.instances.len()
        &&& self.outputs.len() == self.instances.len()
        &&& self.started <= self.instances.len()
        &&& forall|i: int| self.started <= i < self.instances.len() ==> !self.finished[i]
        &&& forall|i: int|
            0 <= i < self.instances.len() && !self.finished[i] ==> self.outputs[i].len() == 0
        &&& self.in_flight() <= MAX_IN_FLIGHT
    }

    /// The state before anything has started.
    pub open spec fn initial(instances: Seq<PipelineCtxView>) -> RunView {
        RunView {
            instances,
            started: 0,
            finished: Seq::new(instances.len(), |i: int| false),
            outputs: Seq::new(instances.len(), |i: int| Seq::empty()),
        }
    }

    /// The state after the next instance has started.
    pub open spec fn after_start(self) -> RunView {
        RunView { started: self.started + 1, ..self }
    }

    /// The instance at `index` is in flight.
    pub open spec fn awaits(self, index: int) -> bool {
        0 <= index < self.started && !self.finished[index]
    }

    /// The state after the instance at `index` has finished with `output`.
    pub open spec fn after_completion(self, index: int, output: Seq<AssetView>) -> RunView {
        RunView {
            finished: self.finished.update(index, true),
            outputs: self.outputs.update(index, output),
            ..self
        }
    }
}

/// Among the first `n` instances, between none and all have not finished.
pub proof fn lemma_unfinished_bounds(finished: Seq<bool>, n: int)
    requires
        0 <= n,
    ensures
        0 <= unfinished_below(finished, n) <= n,
    decreases n,
{
    if n > 0 {
        lemma_unfinished_bounds(finished, n - 1);
    }
}

/// Where none of the first `n` is unfinished, each of them has finished, and
/// the other way round.
pub proof fn lemma_unfinished_none(finished: Seq<bool>, n: int)
    requires
        0 <= n,
    ensures
        unfinished_below(finished, n) == 0 <==> forall|i: int| 0 <= i < n ==> finished[i],
    decreases n,
{
    if n > 0 {
        lemma_unfinished_bounds(finished, n - 1);
        lemma_unfinished_none(finished, n - 1);
    }
}

/// When one of the first `n` finishes, one fewer of them is unfinished.
pub proof fn lemma_unfinished_after_completion(finished: Seq<bool>, n: int, index: int)
    requires
        0 <= index < n <= finished.len(),
        !finished[index],
    ensures
        unfinished_below(finished.update(index, true), n) == unfinished_below(finished, n) - 1,
    decreases n,
{
    if index < n - 1 {
        lemma_unfinished_after_completion(finished, n - 1, index);
    } else {
        lemma_unfinished_same(finished, finished.update(index, true), n - 1);
    }
}

/// Two records that agree on the first `n` instances count the same.
proof fn lemma_unfinished_same(a: Seq<bool>, b: Seq<bool>, n: int)
    requires
        0 <= n,
        forall|i: int| 0 <= i < n ==> a[i] == b[i],
    ensures
        unfinished_below(a, n) == unfinished_below(b, n),
    decreases n,
{
    if n > 0 {
        lemma_unfinished_same(a, b, n - 1);
    }
}

/// The ceiling: in no state of a run are more than 30 instances in flight.
pub proof fn lemma_ceiling(run: RunView)
    requires
        run.valid(),
    ensures
        0 <= run.in_flight() <= MAX_IN_FLIGHT,
        MAX_IN_FLIGHT == 30,
{
    lemma_unfinished_bounds(run.finished, run.started as int);
}

/// A run that is not done never stands still: an instance may start, or one
/// is in flight and will report.
pub proof fn lemma_progress(run: RunView)
    requires
        run.valid(),
        !run.done(),
    ensures
        run.can_start() || run.in_flight() > 0,
{
    lemma_unfinished_bounds(run.finished, run.started as int);
    lemma_unfinished_none(run.finished, run.started as int);
}

/// A run is done exactly when every instance was started and none is in
/// flight.
pub proof fn lemma_done(run: RunView)
    requires
        run.valid(),
    ensures
        run.done() <==> run.started == run.instances.len() && run.in_flight() == 0,
{
    lemma_unfinished_none(run.finished, run.started as int);
    if run.done() && run.started < run.instances.len() {
        assert(!run.finished[run.started as int]);
    }
}

/// Starting keeps a state valid where an instance may start, and finishing
/// keeps it valid for an instance in flight.
pub proof fn lemma_steps_keep_valid(run: RunView, index: int, output: Seq<AssetView>)
    requires
        run.valid(),
    ensures
        run.can_start() ==> run.after_start().valid() && run.after_start().in_flight()
            == run.in_flight() + 1,
        run.awaits(index) ==> run.after_completion(index, output).valid() && run.after_completion(
            index,
            output,
        ).in_flight() == run.in_flight() - 1,
{
    if run.can_start() {
        assert(!run.finished[run.started as int]);
    }
    if run.awaits(index) {
        lemma_unfinished_after_completion(run.finished, run.started as int, index);
    }
}

/// A failure is kept apart: an instance that finishes with nothing leaves
/// what the run has put out as it was, and the finished instances as they
/// were.
pub proof fn lemma_failure_adds_nothing(run: RunView, index: int)
    requires
        run.valid(),
        run.awaits(index),
    ensures
        run.after_completion(index, Seq::empty()).outputs == run.outputs,
        forall|i: int|
            0 <= i < run.instances.len() && i != index ==> run.after_completion(
                index,
                Seq::empty(),
            ).finished[i] == run.finished[i],
{
    assert(run.outputs[index] =~= Seq::<AssetView>::empty());
    assert(run.outputs.update(index, Seq::empty()) =~= run.outputs);
}

/// The views of what each instance put out.
pub open spec fn output_views(outputs: Seq<Vec<OutAsset>>) -> Seq<Seq<AssetView>> {
    Seq::new(outputs.len(), |i: int| asset_views(outputs[i]@))
}

/// A run over pipeline instances.
#[derive(Debug)]
pub struct PipelineRun {
    instances: Vec<PipelineCtx>,
    started: usize,
    in_flight: usize,
    finished: Vec<bool>,
    outputs: Vec<Vec<OutAsset>>,
}

impl View for PipelineRun {
    type V = RunView;

    closed spec fn view(&self) -> RunView {
        RunView {
            instances: ctx_views(self.instances@),
            started: self.started as nat,
            finished: self.finished@,
            outputs: output_views(self.outputs@),
        }
    }
}

impl PipelineRun {
    /// The run is in a valid state, and knows how many instances are in
    /// flight.
    pub closed spec fn wf(&self) -> bool {
        self@.valid() && self.in_flight == self@.in_flight()
    }

    /// A well-formed run is in a valid state.
    pub proof fn lemma_valid(&self)
        requires
            self.wf(),
        ensures
            self@.valid(),
    {
    }

    /// A run over `instances`, none of which has started.
    pub fn new(instances: Vec<PipelineCtx>) -> (run: PipelineRun)
        ensures
            run.wf(),
            run@ == RunView::initial(ctx_views(instances@)),
    {
        let mut finished: Vec<bool> = Vec::new();
        let mut outputs: Vec<Vec<OutAsset>> = Vec::new();
        let mut i: usize = 0;
        while i < instances.len()
            invariant
                i <= instances.len(),
                finished.len() == i,
                outputs.len() == i,
                forall|j: int| 0 <= j < i ==> !finished@[j],
                forall|j: int| 0 <= j < i ==> outputs@[j]@.len() == 0,
            decreases instances.len() - i,
        {
            finished.push(false);
            outputs.push(Vec::new());
            i += 1;
        }
        let run = PipelineRun { instances, started: 0, in_flight: 0, finished, outputs };
        assert(run@.finished =~= RunView::initial(ctx_views(instances@)).finished);
        assert(run@.outputs =~= RunView::initial(ctx_views(instances@)).outputs) by {
            assert forall|j: int| 0 <= j < run@.outputs.len() implies run@.outputs[j]
                == Seq::<AssetView>::empty() by {
                assert(run@.outputs[j] =~= Seq::<AssetView>::empty());
            }
        }
        run
    }

    /// All instances, in the order in which they start.
    pub fn instances(&self) -> (instances: &Vec<PipelineCtx>)
        ensures
            ctx_views(instances@) == self@.instances,
    {
        &self.instances
    }

    /// How many instances were started.
    pub fn started(&self) -> (n: usize)
        ensures
            n == self@.started,
    {
        self.started
    }

    /// How many instances are in flight.
    pub fn in_flight(&self) -> (n: usize)
        requires
            self.wf(),
        ensures
            n == self@.in_flight(),
            n <= MAX_IN_FLIGHT,
    {
        self.in_flight
    }

    /// Tells whether every instance has finished.
    pub fn is_done(&self) -> (done: bool)
        requires
            self.wf(),
        ensures
            done == self@.done(),
    {
        proof {
            lemma_done(self@);
        }
        self.started == self.instances.len() && self.in_flight == 0
    }

    /// Starts the next instance, if one may start: there is one left, and
    /// fewer than 30 are in flight. The caller runs the instance at the
    /// place returned.
    pub fn start_next(&mut self) -> (next: Option<usize>)
        requires
            old(self).wf(),
        ensures
            final(self).wf(),
            old(self)@.can_start() ==> next == Some(old(self)@.started as usize) && final(self)@
                == old(self)@.after_start(),
            !old(self)@.can_start() ==> next is None && final(self)@ == old(self)@,
    {
        if self.started < self.instances.len() && self.in_flight < MAX_IN_FLIGHT {
            proof {
                lemma_steps_keep_valid(self@, 0, Seq::empty());
            }
            let next = self.started;
            self.started = self.started + 1;
            self.in_flight = self.in_flight + 1;
            Some(next)
        } else {
            None
        }
    }

    /// Takes what the instance at `index` ended with: what it put out, or
    /// nothing where it failed. A failed instance adds no asset and leaves
    /// the others as they are. A report for an instance that is not in
    /// flight is refused and changes nothing.
    pub fn complete(&mut self, index: usize, outcome: Option<Vec<OutAsset>>) -> (accepted: bool)
        requires
            old(self).wf(),
        ensures
            final(self).wf(),
            accepted == old(self)@.awaits(index as int),
            accepted ==> final(self)@ == old(self)@.after_completion(
                index as int,
                match outcome {
                    Some(assets) => asset_views(assets@),
                    None => Seq::empty(),
                },
            ),
            !accepted ==> final(self)@ == old(self)@,
    {
        if index >= self.started || self.finished[index] {
            return false;
        }
        let output = match outcome {
            Some(assets) => assets,
            None => Vec::new(),
        };
        let ghost before = self@;
        proof {
            lemma_steps_keep_valid(before, index as int, asset_views(output@));
            lemma_unfinished_bounds(before.finished.update(index as int, true), before.started as int);
            assert(self.in_flight >= 1);
        }
        self.finished.set(index, true);
        self.outputs.set(index, output);
        self.in_flight = self.in_flight - 1;
        assert(self@.outputs =~= before.outputs.update(index as int, asset_views(output@)));
        assert(asset_views(output@) =~= match outcome {
            Some(assets) => asset_views(assets@),
            None => Seq::empty(),
        });
        true
    }

    /// Ends the run and hands out everything that was put out: the assets of
    /// the first instance, then those of the second, and so on, each in the
    /// order in which its strategy gave them.
    pub fn into_assets(self) -> (assets: Vec<OutAsset>)
        ensures
            asset_views(assets@) == self@.outputs.flatten(),
    {
        let ghost all = self.outputs@;
        let PipelineRun { outputs, .. } = self;
        let mut assets: Vec<OutAsset> = Vec::new();
        assert(output_views(all.take(0)) =~= Seq::<Seq<AssetView>>::empty());
        assert(asset_views(assets@) =~= Seq::<AssetView>::empty());
        for output in it: outputs
            invariant
                it.seq() == all,
                asset_views(assets@) == output_views(all.take(it.index() as int)).flatten(),
        {
            let ghost before = assets@;
            let ghost index = it.index() as int;
            let mut output = output;
            assets.append(&mut output);
            proof {
                let added = all[index]@;
                assert(asset_views(before + added) =~= asset_views(before) + asset_views(added));
                assert(output_views(all.take(index + 1)) =~= output_views(all.take(index)).push(
                    asset_views(added),
                ));
                output_views(all.take(index)).lemma_flatten_push(asset_views(added));
            }
        }
        assert(all.take(all.len() as int) =~= all);
        assets
    }
}

/// Sets up the run over the manifests that were read: every entry of every
/// manifest becomes one instance, under the fragment that is its place in
/// its manifest, and none has started.
pub fn process_pipelines(process: &ProcessCtx, manifests: Vec<ManifestDocument>) -> (run:
    PipelineRun)
    ensures
        run.wf(),
        run@ == RunView::initial(planned(process@.in_root.path, document_views(manifests@))),
{
    let ghost documents = manifests@;
    let ghost in_root = process@.in_root.path;
    let mut instances: Vec<PipelineCtx> = Vec::new();
    assert(plans(in_root, document_views(documents.take(0))) =~= Seq::<
        Seq<PipelineCtxView>,
    >::empty());
    assert(ctx_views(instances@) =~= Seq::<PipelineCtxView>::empty());
    for document in it: manifests
        invariant
            it.seq() == documents,
            in_root == process@.in_root.path,
            ctx_views(instances@) == planned(
                in_root,
                document_views(documents.take(it.index() as int)),
            ),
    {
        let ghost before = instances@;
        let ghost index = it.index() as int;
        let ManifestDocument { location, pipelines } = document;
        let mut added = plan_instances(process, &location, pipelines);
        let ghost plan = ctx_views(added@);
        instances.append(&mut added);
        proof {
            assert(ctx_views(instances@) =~= ctx_views(before) + plan);
            let earlier = plans(in_root, document_views(documents.take(index)));
            assert(plans(in_root, document_views(documents.take(index + 1))) =~= earlier.push(
                plan,
            ));
            earlier.lemma_flatten_push(plan);
        }
    }
    assert(documents.take(documents.len() as int) =~= documents);
    PipelineRun::new(instances)
}

} // verus!
