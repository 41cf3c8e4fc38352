//! Reading the content files of a publication and listing them in the table
//! of contents.

use vstd::prelude::*;
use crate::archive::archive_text;
use crate::archive::read_text;
use crate::epub::Epub;
use crate::model::file_views;
use crate::model::xhtml_media_type;
use crate::model::EpubFile;
use crate::model::FileView;
use crate::model::TableOfContents;
use crate::model::TocEntryView;
use crate::navigation::is_nav_item;
use crate::navigation::item_is_nav;
use crate::navigation::NavTitles;
use crate::package::ManifestItemView;
use crate::package::Package;
use crate::path::resolved_path;
use crate::text::str_eq;

verus! {

/// The title that the navigation document gives to `href`, if any.
pub open spec fn title_of(nav: Map<Seq<char>, Seq<char>>, href: Seq<char>) -> Option<Seq<char>> {
    if nav.contains_key(href) {
        Some(nav[href])
    } else {
        None
    }
}

/// The content file that a manifest item stands for.
///
/// An item is a content file where its media type is the XHTML type, it is
/// no navigation document, and the archive holds readable text at its href,
/// seen from the directory of the package document. The file's title is the
/// one that the navigation document gives to the href as the manifest
/// writes it.
pub open spec fn content_file(
    archive: Seq<u8>,
    opf_path: Seq<char>,
    nav: Map<Seq<char>, Seq<char>>,
    item: ManifestItemView,
) -> Option<FileView> {
    if item.media_type == xhtml_media_type() && !is_nav_item()(item) {
        match archive_text(archive, resolved_path(opf_path, item.href)) {
            Some(content) => Some(
                FileView {
                    id: item.id,
                    href: item.href,
                    title: title_of(nav, item.href),
                    content,
                    media_type: item.media_type,
                },
            ),
            None => None,
        }
    } else {
        None
    }
}

/// The content files of a manifest, in the order of the manifest.
pub open spec fn content_files(
    archive: Seq<u8>,
    opf_path: Seq<char>,
    nav: Map<Seq<char>, Seq<char>>,
    items: Seq<ManifestItemView>,
) -> Seq<FileView>
    decreases items.len(),
{
    if items.len() == 0 {
        Seq::empty()
    } else {
        let before = content_files(archive, opf_path, nav, items.drop_last());
        match content_file(archive, opf_path, nav, items.last()) {
            Some(file) => before.push(file),
            None => before,
        }
    }
}

/// The positions, in the manifest, of the items that are content files.
pub open spec fn content_positions(
    archive: Seq<u8>,
    opf_path: Seq<char>,
    nav: Map<Seq<char>, Seq<char>>,
    items: Seq<ManifestItemView>,
) -> Seq<int>
    decreases items.len(),
{
    if items.len() == 0 {
        Seq::empty()
    } else {
        let before = content_positions(archive, opf_path, nav, items.drop_last());
        if content_file(archive, opf_path, nav, items.last()) is Some {
            before.push(items.len() - 1)
        } else {
            before
        }
    }
}

/// The content files follow the manifest: the k-th file comes from the
/// k-th manifest item that is a content file, and those items stand in
/// increasing positions.
pub proof fn lemma_content_files_follow_manifest(
    archive: Seq<u8>,
    opf_path: Seq<char>,
    nav: Map<Seq<char>, Seq<char>>,
    items: Seq<ManifestItemView>,
)
    ensures
        content_positions(archive, opf_path, nav, items).len() == content_files(
            archive,
            opf_path,
            nav,
            items,
        ).len(),
        content_files(archive, opf_path, nav, items).len() <= items.len(),
        forall|k: int|
            0 <= k < content_positions(archive, opf_path, nav, items).len() ==> {
                let p = #[trigger] content_positions(archive, opf_path, nav, items)[k];
                0 <= p < items.len() && content_file(archive, opf_path, nav, items[p]) == Some(
                    content_files(archive, opf_path, nav, items)[k],
                )
            },
        forall|j: int, k: int|
            0 <= j < k < content_positions(archive, opf_path, nav, items).len()
                ==> content_positions(archive, opf_path, nav, items)[j] < content_positions(
                archive,
                opf_path,
                nav,
                items,
            )[k],
    decreases items.len(),
{
    if items.len() > 0 {
        let rest = items.drop_last();
        lemma_content_files_follow_manifest(archive, opf_path, nav, rest);
        let before = content_positions(archive, opf_path, nav, rest);
        let all = content_positions(archive, opf_path, nav, items);
        let files = content_files(archive, opf_path, nav, items);
        assert forall|k: int| 0 <= k < all.len() implies {
            let p = #[trigger] all[k];
            0 <= p < items.len() && content_file(archive, opf_path, nav, items[p]) == Some(
                files[k],
            )
        } by {
            if k < before.len() {
                let p = before[k];
                assert(all[k] == p);
                assert(items[p] == rest[p]);
            }
        }
        assert forall|j: int, k: int| 0 <= j < k < all.len() implies all[j] < all[k] by {
            let p = before[j];
            assert(all[j] == p);
            if k < before.len() {
                assert(all[k] == before[k]);
            }
        }
    }
}

/// No content file is left out: every manifest item that is a content
/// file has its position among the content positions.
pub proof fn lemma_content_positions_complete(
    archive: Seq<u8>,
    opf_path: Seq<char>,
    nav: Map<Seq<char>, Seq<char>>,
    items: Seq<ManifestItemView>,
    p: int,
)
    requires
        0 <= p < items.len(),
        content_file(archive, opf_path, nav, items[p]) is Some,
    ensures
        content_positions(archive, opf_path, nav, items).contains(p),
    decreases items.len(),
{
    let all = content_positions(archive, opf_path, nav, items);
    if p == items.len() - 1 {
        assert(all[all.len() - 1] == p);
    } else {
        let rest = items.drop_last();
        assert(rest[p] == items[p]);
        lemma_content_positions_complete(archive, opf_path, nav, rest, p);
        let before = content_positions(archive, opf_path, nav, rest);
        let k = choose|k: int| 0 <= k < before.len() && before[k] == p;
        assert(all[k] == p);
    }
}

/// Every content file carries the id, href and media type of a manifest
/// item, and the title that the navigation document gives to its href.
pub proof fn lemma_content_file_origin(
    archive: Seq<u8>,
    opf_path: Seq<char>,
    nav: Map<Seq<char>, Seq<char>>,
    items: Seq<ManifestItemView>,
    file: FileView,
)
    requires
        content_files(archive, opf_path, nav, items).contains(file),
    ensures
        file.title == title_of(nav, file.href),
        file.media_type == xhtml_media_type(),
        archive_text(archive, resolved_path(opf_path, file.href)) == Some(file.content),
        exists|p: int|
            0 <= p < items.len() && content_file(archive, opf_path, nav, #[trigger] items[p])
                == Some(file),
{
    let files = content_files(archive, opf_path, nav, items);
    let k = choose|k: int| 0 <= k < files.len() && files[k] == file;
    lemma_content_files_follow_manifest(archive, opf_path, nav, items);
    let p = content_positions(archive, opf_path, nav, items)[k];
    assert(content_file(archive, opf_path, nav, items[p]) == Some(file));
}

/// A manifest item that is no content file leaves no trace in the file
/// list: the files are those of the manifest without it. This holds of an
/// item whose content cannot be read as of one with another media type.
pub proof fn lemma_excluded_item_leaves_no_trace(
    archive: Seq<u8>,
    opf_path: Seq<char>,
    nav: Map<Seq<char>, Seq<char>>,
    items: Seq<ManifestItemView>,
    k: int,
)
    requires
        0 <= k < items.len(),
        content_file(archive, opf_path, nav, items[k]) is None,
    ensures
        content_files(archive, opf_path, nav, items) == content_files(
            archive,
            opf_path,
            nav,
            items.remove(k),
        ),
    decreases items.len(),
{
    if k == items.len() - 1 {
        assert(items.remove(k) =~= items.drop_last());
    } else {
        lemma_excluded_item_leaves_no_trace(archive, opf_path, nav, items.drop_last(), k);
        assert(items.remove(k).drop_last() =~= items.drop_last().remove(k));
        assert(items.remove(k).last() == items.last());
    }
}

/// The table of contents of a list of files: one entry per file, in the
/// order of the files, at level 0, under the file's display title.
pub open spec fn toc_of(files: Seq<FileView>) -> Seq<TocEntryView> {
    files.map_values(
        |f: FileView| TocEntryView { title: f.display_title(), href: f.href, level: 0 },
    )
}

/// The table of contents has one entry per file and keeps the order of the
/// files.
pub proof fn lemma_toc_of(files: Seq<FileView>)
    ensures
        toc_of(files).len() == files.len(),
        forall|k: int|
            0 <= k < files.len() ==> {
                let entry = #[trigger] toc_of(files)[k];
                entry.href == files[k].href && entry.title == files[k].display_title()
                    && entry.level == 0
            },
{
}

/// Titles go by href. A content file whose href the navigation document
/// links to carries the title of that link; any other has no title, and
/// its entry in the table of contents is named by its id.
pub proof fn lemma_titles_follow_navigation(
    archive: Seq<u8>,
    opf_path: Seq<char>,
    nav: Map<Seq<char>, Seq<char>>,
    items: Seq<ManifestItemView>,
    k: int,
)
    requires
        0 <= k < content_files(archive, opf_path, nav, items).len(),
    ensures
        ({
            let files = content_files(archive, opf_path, nav, items);
            let file = files[k];
            let entry = toc_of(files)[k];
            &&& nav.contains_key(file.href) ==> file.title == Some(nav[file.href]) && entry.title
                == nav[file.href]
            &&& !nav.contains_key(file.href) ==> file.title is None && entry.title == file.id
        }),
{
    lemma_content_files_follow_manifest(archive, opf_path, nav, items);
    let p = content_positions(archive, opf_path, nav, items)[k];
    assert(content_file(archive, opf_path, nav, items[p]) == Some(
        content_files(archive, opf_path, nav, items)[k],
    ));
}

impl Epub {
    /// Reads every content file of the manifest, in the order of the
    /// manifest. An item whose content cannot be read is left out; that is
    /// no error.
    pub fn parse_all_files(
        file_bytes: &Vec<u8>,
        package: &Package,
        nav_titles: &NavTitles,
        opf_path: &str,
    ) -> (files: Vec<EpubFile>)
        ensures
            file_views(files@) == content_files(
                file_bytes@,
                opf_path@,
                nav_titles@,
                package@.manifest,
            ),
    {
        let items = &package.manifest.item;
        let ghost views = package@.manifest;
        let mut files: Vec<EpubFile> = Vec::new();
        let mut i: usize = 0;
        assert(file_views(files@) =~= Seq::<FileView>::empty());
        while i < items.len()
            invariant
                i <= items.len(),
                items == &package.manifest.item,
                views == package@.manifest,
                file_views(files@) == content_files(
                    file_bytes@,
                    opf_path@,
                    nav_titles@,
                    views.take(i as int),
                ),
            decreases items.len() - i,
        {
            let item = &items[i];
            let ghost before = file_views(files@);
            proof {
                assert(views.take(i + 1).drop_last() =~= views.take(i as int));
                assert(views.take(i + 1).last() == item@);
            }
            if str_eq(item.media_type.as_str(), "application/xhtml+xml") && !item_is_nav(item) {
                let file_path = Self::resolve_path(opf_path, item.href.as_str());
                if let Some(content) = read_text(file_bytes, file_path.as_str()) {
                    let title = match nav_titles.get(item.href.as_str()) {
                        Some(t) => Some(t.clone()),
                        None => None,
                    };
                    let file = EpubFile {
                        id: item.id.clone(),
                        href: item.href.clone(),
                        title,
                        content,
                        media_type: item.media_type.clone(),
                    };
                    assert(Some(file@) == content_file(
                        file_bytes@,
                        opf_path@,
                        nav_titles@,
                        item@,
                    ));
                    files.push(file);
                    assert(file_views(files@) =~= before.push(file@));
                }
            }
            i += 1;
        }
        proof {
            assert(views.take(i as int) =~= views);
        }
        files
    }

    /// Lists the files in the table of contents: one entry per file, in
    /// the order of `all_files`, at level 0. An entry is named by the
    /// file's navigation title, or by its id where it has none.
    pub fn create_table_of_contents(_nav_titles: &NavTitles, all_files: &[EpubFile]) -> (toc:
        TableOfContents)
        ensures
            toc@ == toc_of(file_views(all_files@)),
            toc@.len() == all_files@.len(),
    {
        let ghost files = file_views(all_files@);
        let mut toc = TableOfContents::new();
        let mut i: usize = 0;
        while i < all_files.len()
            invariant
                i <= all_files.len(),
                files == file_views(all_files@),
                toc@ == toc_of(files.take(i as int)),
            decreases all_files.len() - i,
        {
            let file = &all_files[i];
            let title = match &file.title {
                Some(t) => t.clone(),
                None => file.id.clone(),
            };
            toc.add_entry(title, file.href.clone(), 0);
            proof {
                assert(files.take(i + 1) =~= files.take(i as int).push(file@));
                assert(toc@ =~= toc_of(files.take(i + 1)));
            }
            i += 1;
        }
        proof {
            assert(files.take(i as int) =~= files);
        }
        toc
    }
}

} // verus!
