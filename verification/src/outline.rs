//! A publication in outline, for a reader that wants links and no content:
//! the chapters with the links to their XHTML files, and the bytes of one
//! file by its href.

use vstd::prelude::*;
use vstd::string::StrSliceExecFns;
use crate::chapters::lemma_chapter_members_are_files;
use crate::epub::assembled;
use crate::epub::Epub;
use crate::files::lemma_content_file_origin;
use crate::model::file_views;
use crate::model::opt_text;
use crate::model::xhtml_media_type;
use crate::model::ChapterView;
use crate::model::EpubFile;
use crate::model::FileView;
use crate::navigation::nav_titles;
use crate::package::PackageView;
use crate::scan::first_match;
use crate::scan::lemma_first_match_found;
use crate::scan::lemma_first_match_step;
use crate::text::str_eq;

verus! {

/// What a link to a file is.
pub struct FileDataView {
    pub title: Option<Seq<char>>,
    pub href: Seq<char>,
}

/// A link to a content file: its navigation title, if any, and its href.
#[derive(Debug)]
pub struct FileData {
    pub title: Option<String>,
    pub href: String,
}

impl View for FileData {
    type V = FileDataView;

    open spec fn view(&self) -> FileDataView {
        FileDataView { title: opt_text(self.title), href: self.href@ }
    }
}

/// What a chapter in outline is.
pub struct ChapterDataView {
    pub title: Seq<char>,
    pub html_files: Seq<FileDataView>,
}

/// A chapter in outline: its title and the links to its XHTML files.
#[derive(Debug)]
pub struct ChapterData {
    pub title: String,
    pub html_files: Vec<FileData>,
}

impl View for ChapterData {
    type V = ChapterDataView;

    open spec fn view(&self) -> ChapterDataView {
        ChapterDataView {
            title: self.title@,
            html_files: self.html_files@.map_values(|f: FileData| f@),
        }
    }
}

/// A file that is declared as XHTML.
pub open spec fn is_html_file() -> spec_fn(FileView) -> bool {
    |f: FileView| f.media_type == xhtml_media_type()
}

/// A file with the href `href`.
pub open spec fn has_href(href: Seq<char>) -> spec_fn(FileView) -> bool {
    |f: FileView| f.href == href
}

/// The link to a file.
pub open spec fn link_to(f: FileView) -> FileDataView {
    FileDataView { title: f.title, href: f.href }
}

/// The links to the XHTML files among `files`, in order.
pub open spec fn html_links(files: Seq<FileView>) -> Seq<FileDataView> {
    files.filter(is_html_file()).map_values(|f: FileView| link_to(f))
}

/// A chapter in outline.
pub open spec fn outlined(chapter: ChapterView) -> ChapterDataView {
    ChapterDataView { title: chapter.title, html_files: html_links(chapter.files) }
}

/// The chapters in outline.
pub open spec fn outline_of(chapters: Seq<ChapterView>) -> Seq<ChapterDataView> {
    chapters.map_values(|c: ChapterView| outlined(c))
}

/// The content, as UTF-8, of the first of `files` with the href `href`.
pub open spec fn content_at(files: Seq<FileView>, href: Seq<char>) -> Option<Seq<u8>> {
    match first_match(files, has_href(href)) {
        Some(i) => Some(vstd::utf8::encode_utf8(files[i].content)),
        None => None,
    }
}

/// A list of XHTML files passes the filter for XHTML files whole.
proof fn lemma_filter_keeps_all(files: Seq<FileView>)
    requires
        forall|k: int| 0 <= k < files.len() ==> (#[trigger] files[k]).media_type
            == xhtml_media_type(),
    ensures
        files.filter(is_html_file()) == files,
    decreases files.len(),
{
    reveal(Seq::filter);
    if files.len() > 0 {
        let rest = files.drop_last();
        assert forall|k: int| 0 <= k < rest.len() implies (#[trigger] rest[k]).media_type
            == xhtml_media_type() by {
            assert(rest[k] == files[k]);
        }
        lemma_filter_keeps_all(rest);
        assert(files[files.len() - 1].media_type == xhtml_media_type());
    }
    assert(files.filter(is_html_file()) =~= files);
}

/// Where every file is XHTML, the outline links to every file.
pub proof fn lemma_html_links_of_html_files(files: Seq<FileView>)
    requires
        forall|k: int| 0 <= k < files.len() ==> (#[trigger] files[k]).media_type
            == xhtml_media_type(),
    ensures
        html_links(files) == files.map_values(|f: FileView| link_to(f)),
        html_links(files).len() == files.len(),
{
    lemma_filter_keeps_all(files);
}

/// The outline of a publication links to every file of every chapter:
/// the chapters hold content files, and content files are XHTML.
pub proof fn lemma_outline_links_every_file(
    archive: Seq<u8>,
    opf_path: Seq<char>,
    package: PackageView,
    c: int,
)
    requires
        0 <= c < assembled(archive, opf_path, package).chapters.len(),
    ensures
        ({
            let chapter = assembled(archive, opf_path, package).chapters[c];
            &&& outlined(chapter).title == chapter.title
            &&& outlined(chapter).html_files == chapter.files.map_values(
                |f: FileView| link_to(f),
            )
        }),
{
    let epub = assembled(archive, opf_path, package);
    let nav = nav_titles(archive, opf_path, package);
    let chapter = epub.chapters[c];
    assert forall|k: int| 0 <= k < chapter.files.len() implies (#[trigger] chapter.files[k]).media_type
        == xhtml_media_type() by {
        lemma_chapter_members_are_files(epub.files, package.spine, c, k);
        lemma_content_file_origin(archive, opf_path, nav, package.manifest, chapter.files[k]);
    }
    lemma_html_links_of_html_files(chapter.files);
}

/// The links to the XHTML files among `files`.
pub fn links_to_html_files(files: &[EpubFile]) -> (links: Vec<FileData>)
    ensures
        links@.map_values(|f: FileData| f@) == html_links(file_views(files@)),
{
    let ghost views = file_views(files@);
    let mut links: Vec<FileData> = Vec::new();
    let mut i: usize = 0;
    proof {
        reveal(Seq::filter);
        assert(links@.map_values(|f: FileData| f@) =~= html_links(views.take(0)));
    }
    while i < files.len()
        invariant
            i <= files.len(),
            views == file_views(files@),
            links@.map_values(|f: FileData| f@) == html_links(views.take(i as int)),
        decreases files.len() - i,
    {
        let file = &files[i];
        let ghost before = links@.map_values(|f: FileData| f@);
        proof {
            reveal(Seq::filter);
            assert(views.take(i + 1).drop_last() =~= views.take(i as int));
            assert(views.take(i + 1).last() == file@);
        }
        if file.is_html() {
            let title = match file.get_title() {
                Some(t) => {
                    let owned: String = t.to_owned();
                    Some(owned)
                },
                None => None,
            };
            let href: String = file.get_href().to_owned();
            links.push(FileData { title, href });
            proof {
                let kept = views.take(i as int).filter(is_html_file());
                assert(views.take(i + 1).filter(is_html_file()) == kept.push(file@));
                assert(links@.map_values(|f: FileData| f@) =~= before.push(link_to(file@)));
                assert(kept.push(file@).map_values(|f: FileView| link_to(f)) =~= kept.map_values(
                    |f: FileView| link_to(f),
                ).push(link_to(file@)));
            }
        }
        i += 1;
    }
    proof {
        assert(views.take(i as int) =~= views);
    }
    links
}

impl Epub {
    /// The chapters in outline: each with its title and the links to its
    /// XHTML files.
    pub fn get_chapter_data(&self) -> (r: Vec<ChapterData>)
        ensures
            r@.map_values(|c: ChapterData| c@) == outline_of(self@.chapters),
    {
        let chapters = self.get_chapters();
        let ghost views = crate::model::chapter_views(chapters@);
        let mut out: Vec<ChapterData> = Vec::new();
        let mut i: usize = 0;
        assert(out@.map_values(|c: ChapterData| c@) =~= outline_of(views.take(0)));
        while i < chapters.len()
            invariant
                i <= chapters.len(),
                views == crate::model::chapter_views(chapters@),
                out@.map_values(|c: ChapterData| c@) == outline_of(views.take(i as int)),
            decreases chapters.len() - i,
        {
            let chapter = &chapters[i];
            let ghost before = out@.map_values(|c: ChapterData| c@);
            let title: String = chapter.get_title().to_owned();
            let html_files = links_to_html_files(chapter.get_files());
            let data = ChapterData { title, html_files };
            assert(data@ == outlined(chapter@));
            out.push(data);
            proof {
                assert(views.take(i + 1) =~= views.take(i as int).push(chapter@));
                assert(out@.map_values(|c: ChapterData| c@) =~= before.push(outlined(chapter@)));
                assert(outline_of(views.take(i + 1)) =~= outline_of(views.take(i as int)).push(
                    outlined(chapter@),
                ));
            }
            i += 1;
        }
        proof {
            assert(views.take(i as int) =~= views);
        }
        out
    }

    /// The content, as UTF-8 bytes, of the first content file with the
    /// href `href`.
    pub fn get_file_content(&self, href: &str) -> (r: Option<Vec<u8>>)
        ensures
            crate::archive::opt_bytes(r) == content_at(self@.files, href@),
    {
        let files = self.get_all_files();
        let ghost views = file_views(files@);
        let mut i: usize = 0;
        while i < files.len()
            invariant
                i <= files.len(),
                views == file_views(files@),
                views == self@.files,
                first_match(views.take(i as int), has_href(href@)) is None,
            decreases files.len() - i,
        {
            proof {
                lemma_first_match_step(views, has_href(href@), i as int);
            }
            if str_eq(files[i].get_href(), href) {
                proof {
                    lemma_first_match_found(views, has_href(href@), i as int);
                }
                return Some(files[i].get_content().as_bytes_vec());
            }
            i += 1;
        }
        proof {
            assert(views.take(i as int) =~= views);
        }
        None
    }
}

} // verus!
