//! The container locator and the package document, as they stand after
//! decoding: plain data that the assembly steps read.

use vstd::prelude::*;
use crate::model::opt_text;
use crate::model::texts;

verus! {

/// What a root-file record is.
pub struct RootFileView {
    pub full_path: Seq<char>,
    pub media_type: Seq<char>,
}

/// One root-file record of the container locator: where a package document
/// lies in the archive, and its declared media type.
#[derive(Debug)]
pub struct RootFile {
    pub full_path: String,
    pub media_type: String,
}

impl View for RootFile {
    type V = RootFileView;

    open spec fn view(&self) -> RootFileView {
        RootFileView { full_path: self.full_path@, media_type: self.media_type@ }
    }
}

/// The container locator: its root-file records in document order.
#[derive(Debug)]
pub struct Container {
    pub rootfiles: Vec<RootFile>,
}

impl View for Container {
    type V = Seq<RootFileView>;

    open spec fn view(&self) -> Seq<RootFileView> {
        self.rootfiles@.map_values(|r: RootFile| r@)
    }
}

/// What a `meta` declaration is.
pub struct MetaView {
    pub name: Option<Seq<char>>,
    pub content: Option<Seq<char>>,
    pub property: Option<Seq<char>>,
    pub refines: Option<Seq<char>>,
    pub value: Option<Seq<char>>,
}

/// A free-form `meta` declaration of the package metadata.
#[derive(Debug)]
pub struct Meta {
    pub name: Option<String>,
    pub content: Option<String>,
    pub property: Option<String>,
    pub refines: Option<String>,
    pub value: Option<String>,
}

impl View for Meta {
    type V = MetaView;

    open spec fn view(&self) -> MetaView {
        MetaView {
            name: opt_text(self.name),
            content: opt_text(self.content),
            property: opt_text(self.property),
            refines: opt_text(self.refines),
            value: opt_text(self.value),
        }
    }
}

/// What the metadata section of a package document is.
pub struct OpfMetadataView {
    pub identifier: Seq<Seq<char>>,
    pub title: Option<Seq<char>>,
    pub creator: Option<Seq<Seq<char>>>,
    pub language: Option<Seq<char>>,
    pub date: Option<Seq<char>>,
    pub description: Option<Seq<char>>,
    pub publisher: Option<Seq<char>>,
    pub rights: Option<Seq<char>>,
    pub subject: Seq<Seq<char>>,
    pub meta: Seq<MetaView>,
}

/// The metadata section of a package document.
#[derive(Debug)]
pub struct OpfMetadata {
    pub identifier: Vec<String>,
    pub title: Option<String>,
    pub creator: Option<Vec<String>>,
    pub language: Option<String>,
    pub date: Option<String>,
    pub description: Option<String>,
    pub publisher: Option<String>,
    pub rights: Option<String>,
    pub subject: Vec<String>,
    pub meta: Vec<Meta>,
}

impl View for OpfMetadata {
    type V = OpfMetadataView;

    open spec fn view(&self) -> OpfMetadataView {
        OpfMetadataView {
            identifier: texts(self.identifier@),
            title: opt_text(self.title),
            creator: match self.creator {
                Some(c) => Some(texts(c@)),
                None => None,
            },
            language: opt_text(self.language),
            date: opt_text(self.date),
            description: opt_text(self.description),
            publisher: opt_text(self.publisher),
            rights: opt_text(self.rights),
            subject: texts(self.subject@),
            meta: self.meta@.map_values(|m: Meta| m@),
        }
    }
}

/// What a manifest item is.
pub struct ManifestItemView {
    pub id: Seq<char>,
    pub href: Seq<char>,
    pub media_type: Seq<char>,
    pub properties: Option<Seq<char>>,
}

/// One file of the publication as the manifest declares it. The href is
/// relative to the directory of the package document.
#[derive(Debug)]
pub struct ManifestItem {
    pub id: String,
    pub href: String,
    pub media_type: String,
    pub properties: Option<String>,
}

impl View for ManifestItem {
    type V = ManifestItemView;

    open spec fn view(&self) -> ManifestItemView {
        ManifestItemView {
            id: self.id@,
            href: self.href@,
            media_type: self.media_type@,
            properties: opt_text(self.properties),
        }
    }
}

/// The manifest: every file of the publication, in declaration order.
#[derive(Debug)]
pub struct Manifest {
    pub item: Vec<ManifestItem>,
}

impl View for Manifest {
    type V = Seq<ManifestItemView>;

    open spec fn view(&self) -> Seq<ManifestItemView> {
        self.item@.map_values(|i: ManifestItem| i@)
    }
}

/// A spine entry: the id of the manifest item that comes next in reading
/// order.
#[derive(Debug)]
pub struct ItemRef {
    pub idref: String,
}

/// The spine: the reading order, as references to manifest ids.
#[derive(Debug)]
pub struct Spine {
    pub itemref: Vec<ItemRef>,
}

impl View for Spine {
    type V = Seq<Seq<char>>;

    open spec fn view(&self) -> Seq<Seq<char>> {
        self.itemref@.map_values(|r: ItemRef| r.idref@)
    }
}

/// What a package document is.
pub struct PackageView {
    pub metadata: OpfMetadataView,
    pub manifest: Seq<ManifestItemView>,
    pub spine: Seq<Seq<char>>,
}

/// The package document: metadata, manifest and spine.
#[derive(Debug)]
pub struct Package {
    pub metadata: OpfMetadata,
    pub manifest: Manifest,
    pub spine: Spine,
}

impl View for Package {
    type V = PackageView;

    open spec fn view(&self) -> PackageView {
        PackageView { metadata: self.metadata@, manifest: self.manifest@, spine: self.spine@ }
    }
}

} // verus!
