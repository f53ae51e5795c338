//! Pipelines as a manifest declares them, and the metadata that each merges
//! into the assets it puts out.

use crate::out_asset::{category_sets, AssetView, OutAsset};
use crate::string_set::{set_of, StringSet};
use crate::text::{clone_strings, texts};
use vstd::prelude::*;
use vstd::string::*;

verus! {

/// The parameters of the model conversion, kept as they were declared. Only
/// that strategy reads them.
#[derive(Debug)]
pub struct ModelsPipeline {
    pub settings: String,
}

/// The parameters of the material conversion, kept as they were declared.
/// Only that strategy reads them.
#[derive(Debug)]
pub struct MaterialsPipeline {
    pub settings: String,
}

impl Clone for ModelsPipeline {
    fn clone(&self) -> (copy: Self)
        ensures
            copy.settings@ == self.settings@,
    {
        ModelsPipeline { settings: self.settings.clone() }
    }
}

impl Clone for MaterialsPipeline {
    fn clone(&self) -> (copy: Self)
        ensures
            copy.settings@ == self.settings@,
    {
        MaterialsPipeline { settings: self.settings.clone() }
    }
}

/// The conversion strategies, each with the parameters that it needs.
#[derive(Debug)]
pub enum PipelineConfig {
    Models(ModelsPipeline),
    ScriptBundles,
    Materials(MaterialsPipeline),
    Audio,
}

pub enum ConfigView {
    Models(Seq<char>),
    ScriptBundles,
    Materials(Seq<char>),
    Audio,
}

impl View for PipelineConfig {
    type V = ConfigView;

    open spec fn view(&self) -> ConfigView {
        match self {
            PipelineConfig::Models(config) => ConfigView::Models(config.settings@),
            PipelineConfig::ScriptBundles => ConfigView::ScriptBundles,
            PipelineConfig::Materials(config) => ConfigView::Materials(config.settings@),
            PipelineConfig::Audio => ConfigView::Audio,
        }
    }
}

/// The conversion strategies by name.
#[derive(Debug, Clone, Copy, PartialEq, Eq, Structural)]
pub enum PipelineKind {
    Models,
    ScriptBundles,
    Materials,
    Audio,
}

/// The strategy that a configuration is for.
pub open spec fn kind_of(config: ConfigView) -> PipelineKind {
    match config {
        ConfigView::Models(_) => PipelineKind::Models,
        ConfigView::ScriptBundles => PipelineKind::ScriptBundles,
        ConfigView::Materials(_) => PipelineKind::Materials,
        ConfigView::Audio => PipelineKind::Audio,
    }
}

impl PipelineConfig {
    /// The strategy that this configuration is for.
    pub fn kind(&self) -> (kind: PipelineKind)
        ensures
            kind == kind_of(self@),
    {
        match self {
            PipelineConfig::Models(_) => PipelineKind::Models,
            PipelineConfig::ScriptBundles => PipelineKind::ScriptBundles,
            PipelineConfig::Materials(_) => PipelineKind::Materials,
            PipelineConfig::Audio => PipelineKind::Audio,
        }
    }
}

impl Clone for PipelineConfig {
    fn clone(&self) -> (copy: Self)
        ensures
            copy@ == self@,
    {
        match self {
            PipelineConfig::Models(config) => PipelineConfig::Models(config.clone()),
            PipelineConfig::ScriptBundles => PipelineConfig::ScriptBundles,
            PipelineConfig::Materials(config) => PipelineConfig::Materials(config.clone()),
            PipelineConfig::Audio => PipelineConfig::Audio,
        }
    }
}

/// One entry of a manifest.
#[derive(Debug)]
pub struct Pipeline {
    pub pipeline: PipelineConfig,
    /// Glob patterns for the accepted source files; all files are accepted
    /// where this is empty.
    pub sources: Vec<String>,
    /// Tags to append to those of each asset put out.
    pub tags: Vec<String>,
    /// Categories to add to those of each asset put out, place by place.
    pub categories: Vec<Vec<String>>,
}

pub struct PipelineView {
    pub pipeline: ConfigView,
    pub sources: Seq<Seq<char>>,
    pub tags: Seq<Seq<char>>,
    pub categories: Seq<Set<Seq<char>>>,
}

/// The sets of the lists of `categories`, in their order.
pub open spec fn declared_sets(categories: Seq<Vec<String>>) -> Seq<Set<Seq<char>>> {
    Seq::new(categories.len(), |i: int| set_of(categories[i]@))
}

impl View for Pipeline {
    type V = PipelineView;

    open spec fn view(&self) -> PipelineView {
        PipelineView {
            pipeline: self.pipeline@,
            sources: texts(self.sources@),
            tags: texts(self.tags@),
            categories: declared_sets(self.categories@),
        }
    }
}

impl Clone for Pipeline {
    fn clone(&self) -> (copy: Self)
        ensures
            copy@ == self@,
    {
        let mut categories: Vec<Vec<String>> = Vec::new();
        let mut i: usize = 0;
        while i < self.categories.len()
            invariant
                i <= self.categories.len(),
                categories.len() == i,
                forall|j: int|
                    0 <= j < i ==> texts(categories@[j]@) == texts(self.categories@[j]@),
            decreases self.categories.len() - i,
        {
            categories.push(clone_strings(&self.categories[i]));
            i += 1;
        }
        assert(declared_sets(categories@) =~= declared_sets(self.categories@));
        Pipeline {
            pipeline: self.pipeline.clone(),
            sources: clone_strings(&self.sources),
            tags: clone_strings(&self.tags),
            categories,
        }
    }
}

/// The category sets `own` after those of `added` were merged in: each set
/// is joined with the one at its place in `added`, where there is one. No
/// set is added or removed.
pub open spec fn merged_categories(
    own: Seq<Set<Seq<char>>>,
    added: Seq<Set<Seq<char>>>,
) -> Seq<Set<Seq<char>>> {
    Seq::new(
        own.len(),
        |i: int|
            if i < added.len() {
                own[i].union(added[i])
            } else {
                own[i]
            },
    )
}

/// `asset` after the metadata of `pipeline` was merged in: the pipeline's
/// tags follow the asset's own, duplicates and all, and its categories are
/// joined place by place. Nothing else changes.
pub open spec fn merged(asset: AssetView, pipeline: PipelineView) -> AssetView {
    AssetView {
        tags: asset.tags + pipeline.tags,
        categories: merged_categories(asset.categories, pipeline.categories),
        ..asset
    }
}

/// Merging the same categories a second time changes nothing.
pub proof fn lemma_category_merge_idempotent(
    own: Seq<Set<Seq<char>>>,
    added: Seq<Set<Seq<char>>>,
)
    ensures
        merged_categories(merged_categories(own, added), added) == merged_categories(own, added),
{
    let once = merged_categories(own, added);
    let twice = merged_categories(once, added);
    assert forall|i: int| 0 <= i < once.len() implies twice[i] == once[i] by {
        if i < added.len() {
            assert(own[i].union(added[i]).union(added[i]) =~= own[i].union(added[i]));
        }
    }
    assert(twice =~= once);
}

/// A merged category set holds a string exactly if the asset's own set or
/// the pipeline's set at that place held it: no string is counted twice.
pub proof fn lemma_category_merge_members(
    own: Seq<Set<Seq<char>>>,
    added: Seq<Set<Seq<char>>>,
    i: int,
    s: Seq<char>,
)
    requires
        0 <= i < own.len(),
    ensures
        merged_categories(own, added).len() == own.len(),
        merged_categories(own, added)[i].contains(s) <==> own[i].contains(s) || (i < added.len()
            && added[i].contains(s)),
{
}

/// Merging an asset twice with one pipeline appends the tags twice, and
/// leaves the categories as after the first merge.
pub proof fn lemma_merge_twice(asset: AssetView, pipeline: PipelineView)
    ensures
        merged(merged(asset, pipeline), pipeline).tags == asset.tags + pipeline.tags
            + pipeline.tags,
        merged(merged(asset, pipeline), pipeline).categories == merged(asset, pipeline).categories,
{
    lemma_category_merge_idempotent(asset.categories, pipeline.categories);
}

/// Appends copies of `added` to `tags`. Nothing is left out, not even a tag
/// that is there already.
pub fn merge_tags(tags: &mut Vec<String>, added: &Vec<String>)
    ensures
        texts(final(tags)@) == texts(old(tags)@) + texts(added@),
{
    let mut i: usize = 0;
    while i < added.len()
        invariant
            i <= added.len(),
            texts(tags@) == texts(old(tags)@) + texts(added@.take(i as int)),
        decreases added.len() - i,
    {
        let ghost before = tags@;
        tags.push(added[i].clone());
        assert(texts(tags@) =~= texts(before).push(added@[i as int]@));
        assert(texts(added@.take(i + 1)) =~= texts(added@.take(i as int)).push(added@[i as int]@));
        i += 1;
    }
    assert(added@.take(added.len() as int) =~= added@);
}

/// Joins each set of `own` with the list at its place in `added`.
pub fn merge_categories(own: &mut Vec<StringSet>, added: &Vec<Vec<String>>)
    ensures
        category_sets(final(own)@) == merged_categories(
            category_sets(old(own)@),
            declared_sets(added@),
        ),
{
    let mut i: usize = 0;
    while i < own.len()
        invariant
            i <= own.len(),
            own.len() == old(own).len(),
            forall|j: int|
                0 <= j < i ==> own@[j]@ == merged_categories(
                    category_sets(old(own)@),
                    declared_sets(added@),
                )[j],
            forall|j: int| i <= j < own.len() ==> own@[j]@ == old(own)@[j]@,
        decreases own.len() - i,
    {
        if i < added.len() {
            own[i].extend(&added[i]);
        }
        i += 1;
    }
    assert(category_sets(own@) =~= merged_categories(
        category_sets(old(own)@),
        declared_sets(added@),
    ));
}

impl Pipeline {
    /// Merges this pipeline's tags and categories into `asset`.
    pub fn merge_into(&self, asset: &mut OutAsset)
        ensures
            final(asset)@ == merged(old(asset)@, self@),
    {
        merge_tags(&mut asset.tags, &self.tags);
        merge_categories(&mut asset.categories, &self.categories);
    }

    /// Finishes what a conversion strategy put out for this pipeline: every
    /// asset gets the pipeline's tags and categories, and the assets stay in
    /// the order in which the strategy gave them.
    pub fn process(&self, assets: Vec<OutAsset>) -> (finished: Vec<OutAsset>)
        ensures
            finished.len() == assets.len(),
            forall|i: int| 0 <= i < assets.len() ==> finished@[i]@ == merged(assets@[i]@, self@),
    {
        let mut finished = assets;
        let mut i: usize = 0;
        while i < finished.len()
            invariant
                i <= finished.len(),
                finished.len() == assets.len(),
                forall|j: int| 0 <= j < i ==> finished@[j]@ == merged(assets@[j]@, self@),
                forall|j: int| i <= j < finished.len() ==> finished@[j] == assets@[j],
            decreases finished.len() - i,
        {
            self.merge_into(&mut finished[i]);
            i += 1;
        }
        finished
    }
}

} // verus!
