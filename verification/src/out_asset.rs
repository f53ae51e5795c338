//! The assets that pipelines put out.

use crate::location::{file_name_of, LocationView, SourceLocation};
use crate::string_set::StringSet;
use crate::text::texts;
use vstd::prelude::*;
use vstd::string::*;

verus! {

/// The identity of an asset: the location that it was derived from, fragment
/// included.
#[derive(Debug)]
pub struct AssetId {
    pub location: SourceLocation,
}

impl View for AssetId {
    type V = LocationView;

    open spec fn view(&self) -> LocationView {
        self.location@
    }
}

/// The identity of the asset made from `url`. Two locations give the same
/// identity only if they are the same.
pub fn asset_id_from_url(url: &SourceLocation) -> (id: AssetId)
    ensures
        id@ == url@,
{
    AssetId { location: url.clone() }
}

/// What kind of thing an asset is.
#[derive(Debug, Clone, Copy, PartialEq, Eq, Structural)]
pub enum AssetType {
    Object,
    ScriptBundle,
    Model,
    Animation,
    Image,
    Material,
    Audio,
}

/// How an asset is shown before it is loaded.
#[derive(Debug)]
pub enum OutAssetPreview {
    NoPreview,
    FromModel { url: SourceLocation },
    Image { url: SourceLocation },
}

pub enum PreviewView {
    NoPreview,
    FromModel { url: LocationView },
    Image { url: LocationView },
}

impl View for OutAssetPreview {
    type V = PreviewView;

    open spec fn view(&self) -> PreviewView {
        match self {
            OutAssetPreview::NoPreview => PreviewView::NoPreview,
            OutAssetPreview::FromModel { url } => PreviewView::FromModel { url: url@ },
            OutAssetPreview::Image { url } => PreviewView::Image { url: url@ },
        }
    }
}

/// What an asset holds: the location of its written content, or the
/// identities of the assets that it collects.
#[derive(Debug)]
pub enum OutAssetContent {
    Content(SourceLocation),
    Collection(Vec<String>),
}

pub enum ContentView {
    Content(LocationView),
    Collection(Seq<Seq<char>>),
}

impl View for OutAssetContent {
    type V = ContentView;

    open spec fn view(&self) -> ContentView {
        match self {
            OutAssetContent::Content(url) => ContentView::Content(url@),
            OutAssetContent::Collection(ids) => ContentView::Collection(texts(ids@)),
        }
    }
}

/// One processed asset, as a conversion strategy hands it back.
#[derive(Debug)]
pub struct OutAsset {
    pub id: AssetId,
    pub type_: AssetType,
    pub hidden: bool,
    pub name: String,
    pub tags: Vec<String>,
    pub categories: Vec<StringSet>,
    pub preview: OutAssetPreview,
    pub content: OutAssetContent,
    pub source: Option<SourceLocation>,
}

pub struct AssetView {
    pub id: LocationView,
    pub type_: AssetType,
    pub hidden: bool,
    pub name: Seq<char>,
    pub tags: Seq<Seq<char>>,
    pub categories: Seq<Set<Seq<char>>>,
    pub preview: PreviewView,
    pub content: ContentView,
    pub source: Option<LocationView>,
}

/// The sets of `categories`, in their order.
pub open spec fn category_sets(categories: Seq<StringSet>) -> Seq<Set<Seq<char>>> {
    Seq::new(categories.len(), |i: int| categories[i]@)
}

impl View for OutAsset {
    type V = AssetView;

    open spec fn view(&self) -> AssetView {
        AssetView {
            id: self.id@,
            type_: self.type_,
            hidden: self.hidden,
            name: self.name@,
            tags: texts(self.tags@),
            categories: category_sets(self.categories@),
            preview: self.preview@,
            content: self.content@,
            source: match self.source {
                Some(url) => Some(url@),
                None => None,
            },
        }
    }
}

/// The views of `assets`, in their order.
pub open spec fn asset_views(assets: Seq<OutAsset>) -> Seq<AssetView> {
    Seq::new(assets.len(), |i: int| assets[i]@)
}

/// The asset that stands for the script bundle at `source`, once its bytes
/// were written to `content`.
pub open spec fn script_bundle_view(source: LocationView, content: LocationView) -> AssetView {
    AssetView {
        id: source,
        type_: AssetType::ScriptBundle,
        hidden: false,
        name: file_name_of(source.path),
        tags: Seq::empty(),
        categories: Seq::empty(),
        preview: PreviewView::NoPreview,
        content: ContentView::Content(content),
        source: Some(source),
    }
}

/// Makes the asset of a script bundle: named after the file, identified by
/// its location, visible, with no tags and no categories of its own.
pub fn script_bundle_asset(source: &SourceLocation, content: SourceLocation) -> (asset: OutAsset)
    ensures
        asset@ == script_bundle_view(source@, content@),
{
    let asset = OutAsset {
        id: asset_id_from_url(source),
        type_: AssetType::ScriptBundle,
        hidden: false,
        name: source.file_name(),
        tags: Vec::new(),
        categories: Vec::new(),
        preview: OutAssetPreview::NoPreview,
        content: OutAssetContent::Content(content),
        source: Some(source.clone()),
    };
    assert(asset@.tags =~= Seq::<Seq<char>>::empty());
    assert(asset@.categories =~= Seq::<Set<Seq<char>>>::empty());
    asset
}

} // verus!
