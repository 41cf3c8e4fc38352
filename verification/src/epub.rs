//! The root aggregate of a parsed publication, and the steps that build it.
//!
//! Reading a publication takes three steps, with one decoding of XML
//! between each two, which is the caller's to do:
//!
//! 1. `Epub::read_container_document` hands out the text of the container
//!    locator; the caller decodes it into a `Container`.
//! 2. `Epub::read_package_document` takes the decoded locator and hands out
//!    the path and the text of the package document; the caller decodes the
//!    text into a `Package`.
//! 3. `Epub::new` takes the decoded package and assembles the publication.
//!
//! A decoding that fails is handed to the next step as `None`, and that
//! step reports it.

use vstd::prelude::*;
pub use crate::error::EpubError;
pub use crate::model::Chapter;
pub use crate::model::EpubFile;
pub use crate::model::Metadata;
pub use crate::model::TableOfContents;
pub use crate::model::TocEntry;
use crate::archive::archive_bytes;
use crate::archive::archive_text;
use crate::archive::opt_bytes;
use crate::archive::read_bytes;
use crate::archive::read_text;
use crate::chapters::file_index;
use crate::chapters::grouped;
use crate::chapters::lemma_chapter_members_are_files;
use crate::chapters::lemma_chapters_cover_spine;
use crate::chapters::lemma_chapters_of;
use crate::chapters::lemma_file_index;
use crate::chapters::spine_files;
use crate::chapters::total_file_count;
use crate::cover::cover_id;
use crate::files::content_file;
use crate::files::content_files;
use crate::files::lemma_content_file_origin;
use crate::files::toc_of;
use crate::model::chapter_views;
use crate::model::file_views;
use crate::model::opt_str_text;
use crate::model::texts;
use crate::model::ChapterView;
use crate::model::FileView;
use crate::model::MetadataView;
use crate::model::TocEntryView;
use crate::navigation::nav_titles;
use crate::package::Container;
use crate::package::ManifestItemView;
use crate::package::Package;
use crate::package::PackageView;
use crate::package::RootFileView;
use crate::path::resolved_path;
use crate::scan::first_match;
use crate::scan::lemma_first_match_found;
use crate::scan::lemma_first_match_step;
use crate::text::str_eq;

verus! {

/// Where every archive keeps its container locator.
pub const CONTAINER_PATH: &'static str = "META-INF/container.xml";

/// What a parsed publication is.
pub struct EpubView {
    pub metadata: MetadataView,
    pub chapters: Seq<ChapterView>,
    pub toc: Seq<TocEntryView>,
    pub files: Seq<FileView>,
}

/// The outcome of the first step: the text of the container locator.
pub open spec fn container_document(archive: Seq<u8>) -> Result<Seq<char>, EpubError> {
    match archive_text(archive, CONTAINER_PATH@) {
        Some(xml) => Ok(xml),
        None => Err(EpubError::MissingContainer),
    }
}

/// The outcome of the second step: the path of the package document, which
/// is that of the first root-file record, and its text. `container` is the
/// decoded locator, `None` where its text could not be decoded.
pub open spec fn package_document(
    archive: Seq<u8>,
    container: Option<Seq<RootFileView>>,
) -> Result<(Seq<char>, Seq<char>), EpubError> {
    match container {
        None => Err(EpubError::MalformedContainer),
        Some(rootfiles) => if rootfiles.len() == 0 {
            Err(EpubError::NoRootFile)
        } else {
            match archive_text(archive, rootfiles[0].full_path) {
                Some(xml) => Ok((rootfiles[0].full_path, xml)),
                None => Err(EpubError::MissingPackage),
            }
        },
    }
}

/// The metadata of a publication, from its package document. A package
/// without creators has an empty list of them; the identifier is the first
/// that the package declares, and empty where it declares none.
pub open spec fn metadata_of(pkg: PackageView) -> MetadataView {
    MetadataView {
        title: pkg.metadata.title,
        creator: match pkg.metadata.creator {
            Some(c) => c,
            None => Seq::empty(),
        },
        language: pkg.metadata.language,
        identifier: if pkg.metadata.identifier.len() > 0 {
            pkg.metadata.identifier[0]
        } else {
            Seq::empty()
        },
        date: pkg.metadata.date,
        publisher: pkg.metadata.publisher,
        description: pkg.metadata.description,
        rights: pkg.metadata.rights,
        cover: cover_id(pkg),
        tags: pkg.metadata.subject,
    }
}

/// The publication that an archive and its package document make.
pub open spec fn assembled(archive: Seq<u8>, opf_path: Seq<char>, pkg: PackageView) -> EpubView {
    let nav = nav_titles(archive, opf_path, pkg);
    let files = content_files(archive, opf_path, nav, pkg.manifest);
    EpubView {
        metadata: metadata_of(pkg),
        chapters: grouped(files, pkg.spine),
        toc: toc_of(files),
        files,
    }
}

/// The outcome of all three steps. `container` and `package` are what the
/// caller decoded from the texts that the first two steps handed out.
pub open spec fn parsed(
    archive: Seq<u8>,
    container: Option<Seq<RootFileView>>,
    package: Option<PackageView>,
) -> Result<EpubView, EpubError> {
    match container_document(archive) {
        Err(e) => Err(e),
        Ok(_) => match package_document(archive, container) {
            Err(e) => Err(e),
            Ok((opf_path, _)) => match package {
                None => Err(EpubError::MalformedPackage),
                Some(pkg) => Ok(assembled(archive, opf_path, pkg)),
            },
        },
    }
}

/// A manifest item with the id `id`.
pub open spec fn has_id(id: Seq<char>) -> spec_fn(ManifestItemView) -> bool {
    |i: ManifestItemView| i.id == id
}

/// The bytes of the cover image: those of the archive member at the href
/// of the first manifest item whose id is the cover id. There are none
/// where the publication has no cover id, no manifest item carries it, or
/// the archive holds no readable member there.
pub open spec fn cover_bytes(archive: Seq<u8>, opf_path: Seq<char>, pkg: PackageView) -> Option<
    Seq<u8>,
> {
    match cover_id(pkg) {
        None => None,
        Some(id) => match first_match(pkg.manifest, has_id(id)) {
            None => None,
            Some(i) => archive_bytes(archive, resolved_path(opf_path, pkg.manifest[i].href)),
        },
    }
}

/// Reading succeeds on every archive that holds a container locator and
/// the package document that it names, where both decode. The chapters
/// then hold, all together, one file for each spine reference to the id of
/// a content file.
pub proof fn lemma_well_formed_archive_parses(
    archive: Seq<u8>,
    container: Seq<RootFileView>,
    package: PackageView,
)
    requires
        archive_text(archive, CONTAINER_PATH@) is Some,
        container.len() > 0,
        archive_text(archive, container[0].full_path) is Some,
    ensures
        parsed(archive, Some(container), Some(package)) == Ok::<EpubView, EpubError>(
            assembled(archive, container[0].full_path, package),
        ),
        ({
            let epub = assembled(archive, container[0].full_path, package);
            total_file_count(epub.chapters) == package.spine.filter(
                |id: Seq<char>| file_index(epub.files).contains_key(id),
            ).len()
        }),
{
    let epub = assembled(archive, container[0].full_path, package);
    lemma_chapters_cover_spine(epub.files, package.spine);
}

/// Some manifest item carries the id.
pub open spec fn in_manifest(items: Seq<ManifestItemView>, id: Seq<char>) -> bool {
    exists|k: int| 0 <= k < items.len() && #[trigger] items[k].id == id
}

/// Where every manifest item is a content file, the chapters hold one
/// file for each spine reference to the id of a manifest item.
pub proof fn lemma_chapters_cover_manifest_references(
    archive: Seq<u8>,
    opf_path: Seq<char>,
    package: PackageView,
)
    requires
        forall|k: int|
            0 <= k < package.manifest.len() ==> content_file(
                archive,
                opf_path,
                nav_titles(archive, opf_path, package),
                #[trigger] package.manifest[k],
            ) is Some,
    ensures
        total_file_count(assembled(archive, opf_path, package).chapters) == package.spine.filter(
            |id: Seq<char>| in_manifest(package.manifest, id),
        ).len(),
{
    let nav = nav_titles(archive, opf_path, package);
    let files = content_files(archive, opf_path, nav, package.manifest);
    lemma_all_items_are_files(archive, opf_path, nav, package.manifest);
    lemma_file_index(files);
    lemma_chapters_cover_spine(files, package.spine);
    let by_file = |id: Seq<char>| file_index(files).contains_key(id);
    let by_item = |id: Seq<char>| in_manifest(package.manifest, id);
    assert forall|id: Seq<char>| #[trigger] by_file(id) == by_item(id) by {
        if by_file(id) {
            let k = choose|k: int| 0 <= k < files.len() && #[trigger] files[k].id == id;
            assert(package.manifest[k].id == id);
        }
        if by_item(id) {
            let k = choose|k: int|
                0 <= k < package.manifest.len() && #[trigger] package.manifest[k].id == id;
            assert(files[k].id == id);
        }
    }
    lemma_filter_by_equal_conditions(package.spine, by_file, by_item);
}

/// Where every manifest item is a content file, the files match the
/// manifest item for item.
proof fn lemma_all_items_are_files(
    archive: Seq<u8>,
    opf_path: Seq<char>,
    nav: Map<Seq<char>, Seq<char>>,
    items: Seq<ManifestItemView>,
)
    requires
        forall|k: int|
            0 <= k < items.len() ==> content_file(archive, opf_path, nav, #[trigger] items[k])
                is Some,
    ensures
        content_files(archive, opf_path, nav, items).len() == items.len(),
        forall|k: int|
            0 <= k < items.len() ==> (#[trigger] content_files(
                archive,
                opf_path,
                nav,
                items,
            )[k]).id == items[k].id,
    decreases items.len(),
{
    if items.len() > 0 {
        let rest = items.drop_last();
        assert forall|k: int| 0 <= k < rest.len() implies content_file(
            archive,
            opf_path,
            nav,
            #[trigger] rest[k],
        ) is Some by {
            assert(rest[k] == items[k]);
        }
        lemma_all_items_are_files(archive, opf_path, nav, rest);
        assert(content_file(archive, opf_path, nav, items[items.len() - 1]) is Some);
        assert forall|k: int| 0 <= k < items.len() implies (#[trigger] content_files(
            archive,
            opf_path,
            nav,
            items,
        )[k]).id == items[k].id by {
            if k < rest.len() {
                assert(content_files(archive, opf_path, nav, items)[k] == content_files(
                    archive,
                    opf_path,
                    nav,
                    rest,
                )[k]);
                assert(rest[k] == items[k]);
            }
        }
    }
}

/// Chapter titles go by navigation: a chapter is never empty, and it
/// carries the title that the navigation document gives to the href of its
/// first file, or the id of that file where the navigation document gives
/// none.
pub proof fn lemma_chapter_titles_follow_navigation(
    archive: Seq<u8>,
    opf_path: Seq<char>,
    package: PackageView,
    c: int,
)
    requires
        0 <= c < assembled(archive, opf_path, package).chapters.len(),
    ensures
        ({
            let nav = nav_titles(archive, opf_path, package);
            let chapter = assembled(archive, opf_path, package).chapters[c];
            &&& chapter.files.len() > 0
            &&& nav.contains_key(chapter.files[0].href) ==> chapter.title
                == nav[chapter.files[0].href]
            &&& !nav.contains_key(chapter.files[0].href) ==> chapter.title == chapter.files[0].id
        }),
{
    let nav = nav_titles(archive, opf_path, package);
    let files = content_files(archive, opf_path, nav, package.manifest);
    lemma_chapters_of(spine_files(files, package.spine));
    lemma_chapter_members_are_files(files, package.spine, c, 0);
    let first = grouped(files, package.spine)[c].files[0];
    lemma_content_file_origin(archive, opf_path, nav, package.manifest, first);
}

/// Two conditions that agree on every element keep the same elements.
proof fn lemma_filter_by_equal_conditions<T>(s: Seq<T>, p: spec_fn(T) -> bool, q: spec_fn(T) -> bool)
    requires
        forall|k: int| 0 <= k < s.len() ==> p(#[trigger] s[k]) == q(s[k]),
    ensures
        s.filter(p) == s.filter(q),
    decreases s.len(),
{
    reveal(Seq::filter);
    if s.len() > 0 {
        let rest = s.drop_last();
        assert forall|k: int| 0 <= k < rest.len() implies p(#[trigger] rest[k]) == q(rest[k]) by {
            assert(rest[k] == s[k]);
        }
        lemma_filter_by_equal_conditions(rest, p, q);
        assert(p(s[s.len() - 1]) == q(s[s.len() - 1]));
    }
}

/// Reading is repeatable: two runs of the last step on the same archive,
/// path and package document give the same publication, chapter for
/// chapter, or fail alike.
pub proof fn lemma_reading_is_repeatable(
    file_bytes: Vec<u8>,
    opf_path: String,
    package: Option<Package>,
    first: Result<Epub, EpubError>,
    second: Result<Epub, EpubError>,
)
    requires
        call_ensures(Epub::new, (file_bytes, opf_path, package), first),
        call_ensures(Epub::new, (file_bytes, opf_path, package), second),
    ensures
        first is Ok <==> second is Ok,
        first is Ok ==> first->Ok_0@ == second->Ok_0@ && first->Ok_0@.chapters
            == second->Ok_0@.chapters,
        first is Err ==> first->Err_0 == second->Err_0,
{
}

/// A parsed publication: its metadata, chapters, table of contents and
/// content files, and the archive and package document they were read from.
pub struct Epub {
    metadata: Metadata,
    chapters: Vec<Chapter>,
    table_of_contents: TableOfContents,
    all_files: Vec<EpubFile>,
    file_bytes: Vec<u8>,
    opf_path: String,
    package: Package,
}

impl View for Epub {
    type V = EpubView;

    closed spec fn view(&self) -> EpubView {
        EpubView {
            metadata: self.metadata@,
            chapters: chapter_views(self.chapters@),
            toc: self.table_of_contents@,
            files: file_views(self.all_files@),
        }
    }
}

impl Epub {
    /// The archive that the publication was read from.
    pub closed spec fn archive(&self) -> Seq<u8> {
        self.file_bytes@
    }

    /// The path of the package document in the archive.
    pub closed spec fn package_path(&self) -> Seq<char> {
        self.opf_path@
    }

    /// The package document.
    pub closed spec fn package(&self) -> PackageView {
        self.package@
    }

    /// A publication is always the one that its archive and package
    /// document make.
    #[verifier::type_invariant]
    closed spec fn consistent(&self) -> bool {
        self@ == assembled(self.file_bytes@, self.opf_path@, self.package@)
    }

    /// The first step: reads the text of the container locator.
    pub fn read_container_document(file_bytes: &Vec<u8>) -> (r: Result<String, EpubError>)
        ensures
            match container_document(file_bytes@) {
                Ok(xml) => r is Ok && r->Ok_0@ == xml,
                Err(e) => r == Err::<String, EpubError>(e),
            },
    {
        match read_text(file_bytes, CONTAINER_PATH) {
            Some(xml) => Ok(xml),
            None => Err(EpubError::MissingContainer),
        }
    }

    /// The second step: finds the package document through the decoded
    /// container locator and reads its text. Returns the path of the
    /// package document and its text.
    pub fn read_package_document(file_bytes: &Vec<u8>, container: Option<&Container>) -> (r:
        Result<(String, String), EpubError>)
        ensures
            match package_document(
                file_bytes@,
                match container {
                    Some(c) => Some(c@),
                    None => None,
                },
            ) {
                Ok((path, xml)) => r is Ok && r->Ok_0.0@ == path && r->Ok_0.1@ == xml,
                Err(e) => r == Err::<(String, String), EpubError>(e),
            },
    {
        let container = match container {
            Some(c) => c,
            None => {
                return Err(EpubError::MalformedContainer);
            },
        };
        if container.rootfiles.len() == 0 {
            return Err(EpubError::NoRootFile);
        }
        let opf_path = container.rootfiles[0].full_path.clone();
        match read_text(file_bytes, opf_path.as_str()) {
            Some(xml) => Ok((opf_path, xml)),
            None => Err(EpubError::MissingPackage),
        }
    }

    /// The third step: assembles the publication from the archive and its
    /// decoded package document, which lies at `opf_path` in the archive.
    ///
    /// With a package document this always succeeds: a navigation document
    /// that is missing, a content file that cannot be read and a spine
    /// reference to an unknown id each leave a gap and nothing more.
    pub fn new(file_bytes: Vec<u8>, opf_path: String, package: Option<Package>) -> (r: Result<
        Epub,
        EpubError,
    >)
        ensures
            match package {
                Some(pkg) => {
                    &&& r is Ok
                    &&& r->Ok_0@ == assembled(file_bytes@, opf_path@, pkg@)
                    &&& r->Ok_0.archive() == file_bytes@
                    &&& r->Ok_0.package_path() == opf_path@
                    &&& r->Ok_0.package() == pkg@
                },
                None => r == Err::<Epub, EpubError>(EpubError::MalformedPackage),
            },
    {
        let package = match package {
            Some(p) => p,
            None => {
                return Err(EpubError::MalformedPackage);
            },
        };
        let nav_titles = Self::parse_navigation(&file_bytes, &package, opf_path.as_str());
        let metadata = Self::extract_metadata(&package);
        let all_files = Self::parse_all_files(
            &file_bytes,
            &package,
            &nav_titles,
            opf_path.as_str(),
        );
        let table_of_contents = Self::create_table_of_contents(&nav_titles, all_files.as_slice());
        let chapters = Self::group_files_into_chapters(all_files.as_slice(), &package.spine);
        Ok(Epub { metadata, chapters, table_of_contents, all_files, file_bytes, opf_path, package })
    }

    /// Copies the metadata out of the package document and resolves the
    /// cover id.
    pub fn extract_metadata(package: &Package) -> (r: Metadata)
        ensures
            r@ == metadata_of(package@),
    {
        let source = &package.metadata;
        let creator = match &source.creator {
            Some(c) => {
                let copy = c.clone();
                assert(copy@ =~= c@);
                copy
            },
            None => {
                let none: Vec<String> = Vec::new();
                assert(texts(none@) =~= Seq::<Seq<char>>::empty());
                none
            },
        };
        let identifier = if source.identifier.len() > 0 {
            source.identifier[0].clone()
        } else {
            String::new()
        };
        let tags = source.subject.clone();
        assert(tags@ =~= source.subject@);
        let metadata = Metadata::new(
            source.title.clone(),
            creator,
            source.language.clone(),
            identifier,
            source.date.clone(),
        );
        metadata.with_details(
            source.description.clone(),
            source.publisher.clone(),
            source.rights.clone(),
            tags,
            Self::find_cover_id(package),
        )
    }

    pub fn get_title(&self) -> (r: Option<&str>)
        ensures
            opt_str_text(r) == self@.metadata.title,
    {
        self.metadata.get_title()
    }

    /// The first creator, if the publication names one.
    pub fn get_creator(&self) -> (r: Option<&str>)
        ensures
            opt_str_text(r) == (if self@.metadata.creator.len() > 0 {
                Some(self@.metadata.creator[0])
            } else {
                None
            }),
    {
        let creators = self.metadata.get_creators();
        if creators.len() > 0 {
            Some(creators[0].as_str())
        } else {
            None
        }
    }

    pub fn get_creators(&self) -> (r: &[String])
        ensures
            texts(r@) == self@.metadata.creator,
    {
        self.metadata.get_creators()
    }

    pub fn get_language(&self) -> (r: Option<&str>)
        ensures
            opt_str_text(r) == self@.metadata.language,
    {
        self.metadata.get_language()
    }

    pub fn get_identifier(&self) -> (r: &str)
        ensures
            r@ == self@.metadata.identifier,
    {
        self.metadata.get_identifier()
    }

    pub fn get_date(&self) -> (r: Option<&str>)
        ensures
            opt_str_text(r) == self@.metadata.date,
    {
        self.metadata.get_date()
    }

    pub fn get_publisher(&self) -> (r: Option<&str>)
        ensures
            opt_str_text(r) == self@.metadata.publisher,
    {
        self.metadata.get_publisher()
    }

    pub fn get_description(&self) -> (r: Option<&str>)
        ensures
            opt_str_text(r) == self@.metadata.description,
    {
        self.metadata.get_description()
    }

    pub fn get_rights(&self) -> (r: Option<&str>)
        ensures
            opt_str_text(r) == self@.metadata.rights,
    {
        self.metadata.get_rights()
    }

    /// The id of the cover image.
    pub fn get_cover(&self) -> (r: Option<&str>)
        ensures
            opt_str_text(r) == self@.metadata.cover,
            self@.metadata.cover == cover_id(self.package()),
    {
        proof {
            use_type_invariant(self);
        }
        self.metadata.get_cover()
    }

    pub fn get_tags(&self) -> (r: &[String])
        ensures
            texts(r@) == self@.metadata.tags,
    {
        self.metadata.get_tags()
    }

    /// The metadata, which is that of the package document.
    pub fn get_metadata(&self) -> (r: &Metadata)
        ensures
            r@ == self@.metadata,
            r@ == metadata_of(self.package()),
    {
        proof {
            use_type_invariant(self);
        }
        &self.metadata
    }

    /// Reads the cover image out of the archive. There is none where the
    /// publication has no cover id, no manifest item carries that id, or
    /// the archive holds nothing readable at the item's href.
    pub fn get_cover_bytes(&self) -> (r: Option<Vec<u8>>)
        ensures
            opt_bytes(r) == cover_bytes(self.archive(), self.package_path(), self.package()),
    {
        proof {
            use_type_invariant(self);
        }
        let cover = match self.metadata.get_cover() {
            Some(id) => id,
            None => {
                return None;
            },
        };
        let items = &self.package.manifest.item;
        let ghost views = self.package@.manifest;
        let mut i: usize = 0;
        while i < items.len()
            invariant
                i <= items.len(),
                items == &self.package.manifest.item,
                views == self.package@.manifest,
                cover_id(self.package@) == Some(cover@),
                first_match(views.take(i as int), has_id(cover@)) is None,
            decreases items.len() - i,
        {
            proof {
                lemma_first_match_step(views, has_id(cover@), i as int);
            }
            if str_eq(items[i].id.as_str(), cover) {
                proof {
                    lemma_first_match_found(views, has_id(cover@), i as int);
                }
                let cover_path = Self::resolve_path(
                    self.opf_path.as_str(),
                    items[i].href.as_str(),
                );
                return read_bytes(&self.file_bytes, cover_path.as_str());
            }
            i += 1;
        }
        proof {
            assert(views.take(i as int) =~= views);
        }
        None
    }

    /// The chapters: the files that the spine names, cut into chapters.
    /// Together they hold one file for each spine reference to the id of a
    /// content file.
    pub fn get_chapters(&self) -> (r: &[Chapter])
        ensures
            chapter_views(r@) == self@.chapters,
            self@.chapters == grouped(self@.files, self.package().spine),
            total_file_count(self@.chapters) == self.package().spine.filter(
                |id: Seq<char>| file_index(self@.files).contains_key(id),
            ).len(),
    {
        proof {
            use_type_invariant(self);
            lemma_chapters_cover_spine(self@.files, self.package().spine);
        }
        self.chapters.as_slice()
    }

    pub fn get_chapter_count(&self) -> (r: usize)
        ensures
            r == self@.chapters.len(),
    {
        self.chapters.len()
    }

    /// The table of contents: one entry per content file, in the order of
    /// the files.
    pub fn get_table_of_contents(&self) -> (r: &TableOfContents)
        ensures
            r@ == self@.toc,
            self@.toc == toc_of(self@.files),
            self@.toc.len() == self@.files.len(),
    {
        proof {
            use_type_invariant(self);
        }
        &self.table_of_contents
    }

    /// The content files, in the order of the manifest.
    pub fn get_all_files(&self) -> (r: &[EpubFile])
        ensures
            file_views(r@) == self@.files,
            self@ == assembled(self.archive(), self.package_path(), self.package()),
    {
        proof {
            use_type_invariant(self);
        }
        self.all_files.as_slice()
    }

    /// The number of content files, which is also the number of entries in
    /// the table of contents.
    pub fn get_file_count(&self) -> (r: usize)
        ensures
            r == self@.files.len(),
            r == self@.toc.len(),
    {
        proof {
            use_type_invariant(self);
        }
        self.all_files.len()
    }
}

} // verus!
