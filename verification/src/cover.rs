//! Finding the id of the cover image in a package document.

use vstd::prelude::*;
use crate::epub::Epub;
use crate::package::ManifestItemView;
use crate::package::MetaView;
use crate::package::Package;
use crate::package::PackageView;
use crate::scan::first_match;
use crate::scan::lemma_first_match;
use crate::scan::lemma_first_match_step;
use crate::text::contains_text;
use crate::text::str_contains;
use crate::text::str_eq;

verus! {

/// A `meta` declaration named `cover` that carries a `content` attribute.
pub open spec fn names_cover() -> spec_fn(MetaView) -> bool {
    |m: MetaView| m.name == Some("cover"@) && m.content is Some
}

/// A `meta` declaration with the property `cover-image` that carries an id,
/// as its `content` attribute or as its text.
pub open spec fn marks_cover_image() -> spec_fn(MetaView) -> bool {
    |m: MetaView| m.property == Some("cover-image"@) && (m.content is Some || m.value is Some)
}

/// A manifest item whose properties mention `cover-image`.
pub open spec fn is_cover_item() -> spec_fn(ManifestItemView) -> bool {
    |i: ManifestItemView|
        match i.properties {
            Some(p) => contains_text(p, "cover-image"@),
            None => false,
        }
}

/// The id that a `cover-image` declaration carries: its `content`
/// attribute, else its text.
pub open spec fn cover_image_id(m: MetaView) -> Seq<char> {
    match m.content {
        Some(c) => c,
        None => m.value.unwrap(),
    }
}

/// The id of the cover image. The first `meta` named `cover` decides; where
/// there is none, the first `meta` with the property `cover-image`; where
/// there is none either, the first manifest item whose properties mention
/// `cover-image`.
pub open spec fn cover_id(pkg: PackageView) -> Option<Seq<char>> {
    let metas = pkg.metadata.meta;
    match first_match(metas, names_cover()) {
        Some(i) => metas[i].content,
        None => match first_match(metas, marks_cover_image()) {
            Some(i) => Some(cover_image_id(metas[i])),
            None => match first_match(pkg.manifest, is_cover_item()) {
                Some(i) => Some(pkg.manifest[i].id),
                None => None,
            },
        },
    }
}

/// A `meta` named `cover` wins over every `cover-image` declaration and
/// every manifest property: where one exists, the cover id is the content
/// of the first of them, whatever else the document holds.
pub proof fn lemma_named_cover_wins(pkg: PackageView, k: int)
    requires
        0 <= k < pkg.metadata.meta.len(),
        pkg.metadata.meta[k].name == Some("cover"@),
        pkg.metadata.meta[k].content is Some,
    ensures
        first_match(pkg.metadata.meta, names_cover()) matches Some(i) && i <= k && cover_id(pkg)
            == pkg.metadata.meta[i].content,
        cover_id(pkg) is Some,
{
    lemma_first_match(pkg.metadata.meta, names_cover());
}

/// Where no rule finds a cover, there is none; where one does, the id comes
/// from the document.
pub proof fn lemma_cover_absent(pkg: PackageView)
    ensures
        cover_id(pkg) is None <==> (forall|j: int|
            0 <= j < pkg.metadata.meta.len() ==> !names_cover()(pkg.metadata.meta[j])
                && !marks_cover_image()(pkg.metadata.meta[j])) && (forall|j: int|
            0 <= j < pkg.manifest.len() ==> !is_cover_item()(pkg.manifest[j])),
{
    lemma_first_match(pkg.metadata.meta, names_cover());
    lemma_first_match(pkg.metadata.meta, marks_cover_image());
    lemma_first_match(pkg.manifest, is_cover_item());
}

impl Epub {
    /// Finds the id of the cover image, by the EPUB 2 convention first and
    /// the EPUB 3 conventions after it.
    pub fn find_cover_id(package: &Package) -> (r: Option<String>)
        ensures
            crate::model::opt_text(r) == cover_id(package@),
    {
        let metas = &package.metadata.meta;
        let ghost meta_views = package@.metadata.meta;
        let mut i: usize = 0;
        while i < metas.len()
            invariant
                i <= metas.len(),
                metas == &package.metadata.meta,
                meta_views == package@.metadata.meta,
                first_match(meta_views.take(i as int), names_cover()) is None,
            decreases metas.len() - i,
        {
            proof {
                lemma_first_match_step(meta_views, names_cover(), i as int);
            }
            let meta = &metas[i];
            if let (Some(name), Some(content)) = (&meta.name, &meta.content) {
                if str_eq(name.as_str(), "cover") {
                    proof {
                        crate::scan::lemma_first_match_found(meta_views, names_cover(), i as int);
                    }
                    return Some(content.clone());
                }
            }
            i += 1;
        }
        assert(meta_views.take(i as int) =~= meta_views);

        let mut i: usize = 0;
        while i < metas.len()
            invariant
                i <= metas.len(),
                metas == &package.metadata.meta,
                meta_views == package@.metadata.meta,
                first_match(meta_views, names_cover()) is None,
                first_match(meta_views.take(i as int), marks_cover_image()) is None,
            decreases metas.len() - i,
        {
            proof {
                lemma_first_match_step(meta_views, marks_cover_image(), i as int);
            }
            let meta = &metas[i];
            if let Some(property) = &meta.property {
                if str_eq(property.as_str(), "cover-image") {
                    if let Some(content) = &meta.content {
                        proof {
                            crate::scan::lemma_first_match_found(meta_views, marks_cover_image(), i as int);
                        }
                        return Some(content.clone());
                    }
                    if let Some(value) = &meta.value {
                        proof {
                            crate::scan::lemma_first_match_found(meta_views, marks_cover_image(), i as int);
                        }
                        return Some(value.clone());
                    }
                }
            }
            i += 1;
        }
        assert(meta_views.take(i as int) =~= meta_views);

        let items = &package.manifest.item;
        let ghost item_views = package@.manifest;
        let mut i: usize = 0;
        while i < items.len()
            invariant
                i <= items.len(),
                items == &package.manifest.item,
                item_views == package@.manifest,
                meta_views == package@.metadata.meta,
                first_match(meta_views, names_cover()) is None,
                first_match(meta_views, marks_cover_image()) is None,
                first_match(item_views.take(i as int), is_cover_item()) is None,
            decreases items.len() - i,
        {
            proof {
                lemma_first_match_step(item_views, is_cover_item(), i as int);
            }
            let item = &items[i];
            if let Some(properties) = &item.properties {
                if str_contains(properties.as_str(), "cover-image") {
                    proof {
                        crate::scan::lemma_first_match_found(item_views, is_cover_item(), i as int);
                    }
                    return Some(item.id.clone());
                }
            }
            i += 1;
        }
        assert(item_views.take(i as int) =~= item_views);
        None
    }
}

} // verus!
