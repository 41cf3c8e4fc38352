//! The document model: content files, chapters, the table of contents and the
//! publication metadata, each with the mathematical value that contracts
//! speak of.

use vstd::prelude::*;

verus! {

/// The media type of XHTML content documents.
pub open spec fn xhtml_media_type() -> Seq<char> {
    "application/xhtml+xml"@
}

/// The characters of an optional string.
pub open spec fn opt_text(o: Option<String>) -> Option<Seq<char>> {
    match o {
        Some(s) => Some(s@),
        None => None,
    }
}

/// The characters of an optional string slice.
pub open spec fn opt_str_text(o: Option<&str>) -> Option<Seq<char>> {
    match o {
        Some(s) => Some(s@),
        None => None,
    }
}

/// The characters of each string of a list.
pub open spec fn texts(v: Seq<String>) -> Seq<Seq<char>> {
    v.map_values(|s: String| s@)
}

/// What a content file is: its manifest id and href, the title that the
/// navigation document gives it, its text and its media type.
pub struct FileView {
    pub id: Seq<char>,
    pub href: Seq<char>,
    pub title: Option<Seq<char>>,
    pub content: Seq<char>,
    pub media_type: Seq<char>,
}

impl FileView {
    /// The name a file goes by: its navigation title, else its id.
    pub open spec fn display_title(self) -> Seq<char> {
        match self.title {
            Some(t) => t,
            None => self.id,
        }
    }
}

/// A single content file of the publication.
#[derive(Debug)]
pub struct EpubFile {
    pub id: String,
    pub href: String,
    pub title: Option<String>,
    pub content: String,
    pub media_type: String,
}

impl View for EpubFile {
    type V = FileView;

    open spec fn view(&self) -> FileView {
        FileView {
            id: self.id@,
            href: self.href@,
            title: opt_text(self.title),
            content: self.content@,
            media_type: self.media_type@,
        }
    }
}

impl Clone for EpubFile {
    fn clone(&self) -> (r: Self)
        ensures
            r == *self,
    {
        EpubFile {
            id: self.id.clone(),
            href: self.href.clone(),
            title: self.title.clone(),
            content: self.content.clone(),
            media_type: self.media_type.clone(),
        }
    }
}

/// The values of a list of files.
pub open spec fn file_views(files: Seq<EpubFile>) -> Seq<FileView> {
    files.map_values(|f: EpubFile| f@)
}

impl EpubFile {
    pub fn get_id(&self) -> (r: &str)
        ensures
            r@ == self@.id,
    {
        self.id.as_str()
    }

    pub fn get_href(&self) -> (r: &str)
        ensures
            r@ == self@.href,
    {
        self.href.as_str()
    }

    pub fn get_title(&self) -> (r: Option<&str>)
        ensures
            opt_str_text(r) == self@.title,
    {
        match &self.title {
            Some(t) => Some(t.as_str()),
            None => None,
        }
    }

    pub fn get_content(&self) -> (r: &str)
        ensures
            r@ == self@.content,
    {
        self.content.as_str()
    }

    pub fn get_media_type(&self) -> (r: &str)
        ensures
            r@ == self@.media_type,
    {
        self.media_type.as_str()
    }

    /// The content as UTF-8 bytes, for an HTML parser that reads bytes.
    pub fn get_html_bytes(&self) -> (r: &[u8])
        ensures
            r@ == vstd::utf8::encode_utf8(self@.content),
    {
        self.content.as_str().as_bytes()
    }

    /// Whether the file is declared as an XHTML content document.
    pub fn is_html(&self) -> (r: bool)
        ensures
            r == (self@.media_type == xhtml_media_type()),
    {
        crate::text::str_eq(self.media_type.as_str(), "application/xhtml+xml")
    }

    /// The content as text, for an HTML parser that reads a string.
    pub fn get_parsable_html(&self) -> (r: &str)
        ensures
            r@ == self@.content,
    {
        self.content.as_str()
    }
}

/// What a chapter is: a title and the files that make it up, in reading order.
pub struct ChapterView {
    pub title: Seq<char>,
    pub files: Seq<FileView>,
}

/// A chapter: one or more consecutive content files under one title.
#[derive(Debug)]
pub struct Chapter {
    title: String,
    files: Vec<EpubFile>,
}

impl View for Chapter {
    type V = ChapterView;

    closed spec fn view(&self) -> ChapterView {
        ChapterView { title: self.title@, files: file_views(self.files@) }
    }
}

/// The values of a list of chapters.
pub open spec fn chapter_views(chapters: Seq<Chapter>) -> Seq<ChapterView> {
    chapters.map_values(|c: Chapter| c@)
}

impl Clone for Chapter {
    fn clone(&self) -> (r: Self)
        ensures
            r@ == self@,
    {
        proof {
            use_type_invariant(self);
        }
        let files = self.files.clone();
        assert(files@ =~= self.files@);
        Chapter { title: self.title.clone(), files }
    }
}

impl Chapter {
    /// A chapter is never empty, and is named after its first file.
    #[verifier::type_invariant]
    closed spec fn well_formed(&self) -> bool {
        self.files@.len() > 0 && self.title@ == self.files@[0]@.display_title()
    }

    /// Seals a non-empty run of files into a chapter named after the first.
    pub(crate) fn seal(files: Vec<EpubFile>) -> (r: Chapter)
        requires
            files@.len() > 0,
        ensures
            r@.files == file_views(files@),
            r@.title == files@[0]@.display_title(),
    {
        let title = match &files[0].title {
            Some(t) => t.clone(),
            None => files[0].id.clone(),
        };
        Chapter { title, files }
    }

    /// The title: the navigation title of the first file, or that file's id
    /// where it has no title.
    pub fn get_title(&self) -> (r: &str)
        ensures
            r@ == self@.title,
            self@.files.len() > 0,
            r@ == self@.files[0].display_title(),
    {
        proof {
            use_type_invariant(self);
        }
        self.title.as_str()
    }

    pub fn get_files(&self) -> (r: &[EpubFile])
        ensures
            file_views(r@) == self@.files,
            r@.len() > 0,
    {
        proof {
            use_type_invariant(self);
        }
        self.files.as_slice()
    }

    pub fn get_file_count(&self) -> (r: usize)
        ensures
            r == self@.files.len(),
            r > 0,
    {
        proof {
            use_type_invariant(self);
        }
        self.files.len()
    }
}

/// What a table-of-contents entry is.
pub struct TocEntryView {
    pub title: Seq<char>,
    pub href: Seq<char>,
    pub level: nat,
}

/// One line of the table of contents.
#[derive(Debug)]
pub struct TocEntry {
    pub title: String,
    pub href: String,
    pub level: usize,
}

impl View for TocEntry {
    type V = TocEntryView;

    open spec fn view(&self) -> TocEntryView {
        TocEntryView { title: self.title@, href: self.href@, level: self.level as nat }
    }
}

impl Clone for TocEntry {
    fn clone(&self) -> (r: Self)
        ensures
            r == *self,
    {
        TocEntry { title: self.title.clone(), href: self.href.clone(), level: self.level }
    }
}

impl TocEntry {
    pub fn get_title(&self) -> (r: &str)
        ensures
            r@ == self@.title,
    {
        self.title.as_str()
    }

    pub fn get_href(&self) -> (r: &str)
        ensures
            r@ == self@.href,
    {
        self.href.as_str()
    }

    pub fn get_level(&self) -> (r: usize)
        ensures
            r == self@.level,
    {
        self.level
    }
}

/// The values of a list of entries.
pub open spec fn entry_views(entries: Seq<TocEntry>) -> Seq<TocEntryView> {
    entries.map_values(|e: TocEntry| e@)
}

/// The table of contents: its entries in order.
#[derive(Debug)]
pub struct TableOfContents {
    entries: Vec<TocEntry>,
}

impl View for TableOfContents {
    type V = Seq<TocEntryView>;

    closed spec fn view(&self) -> Seq<TocEntryView> {
        entry_views(self.entries@)
    }
}

impl Clone for TableOfContents {
    fn clone(&self) -> (r: Self)
        ensures
            r@ == self@,
    {
        let entries = self.entries.clone();
        assert(entries@ =~= self.entries@);
        TableOfContents { entries }
    }
}

impl TableOfContents {
    pub fn new() -> (r: Self)
        ensures
            r@ == Seq::<TocEntryView>::empty(),
    {
        let r = TableOfContents { entries: Vec::new() };
        assert(r@ =~= Seq::<TocEntryView>::empty());
        r
    }

    pub fn add_entry(&mut self, title: String, href: String, level: usize)
        ensures
            final(self)@ == old(self)@.push(
                TocEntryView { title: title@, href: href@, level: level as nat },
            ),
    {
        self.entries.push(TocEntry { title, href, level });
        assert(self@ =~= old(self)@.push(
            TocEntryView { title: title@, href: href@, level: level as nat },
        ));
    }

    pub fn get_entries(&self) -> (r: &[TocEntry])
        ensures
            entry_views(r@) == self@,
    {
        self.entries.as_slice()
    }

    pub fn get_entry_count(&self) -> (r: usize)
        ensures
            r == self@.len(),
    {
        self.entries.len()
    }
}

/// What the metadata of a publication is.
pub struct MetadataView {
    pub title: Option<Seq<char>>,
    pub creator: Seq<Seq<char>>,
    pub language: Option<Seq<char>>,
    pub identifier: Seq<char>,
    pub date: Option<Seq<char>>,
    pub publisher: Option<Seq<char>>,
    pub description: Option<Seq<char>>,
    pub rights: Option<Seq<char>>,
    pub cover: Option<Seq<char>>,
    pub tags: Seq<Seq<char>>,
}

/// The metadata of a publication.
#[derive(Debug)]
pub struct Metadata {
    title: Option<String>,
    creator: Vec<String>,
    language: Option<String>,
    identifier: String,
    date: Option<String>,
    publisher: Option<String>,
    description: Option<String>,
    rights: Option<String>,
    cover: Option<String>,
    tags: Vec<String>,
}

impl View for Metadata {
    type V = MetadataView;

    closed spec fn view(&self) -> MetadataView {
        MetadataView {
            title: opt_text(self.title),
            creator: texts(self.creator@),
            language: opt_text(self.language),
            identifier: self.identifier@,
            date: opt_text(self.date),
            publisher: opt_text(self.publisher),
            description: opt_text(self.description),
            rights: opt_text(self.rights),
            cover: opt_text(self.cover),
            tags: texts(self.tags@),
        }
    }
}

impl Clone for Metadata {
    fn clone(&self) -> (r: Self)
        ensures
            r@ == self@,
    {
        let creator = self.creator.clone();
        let tags = self.tags.clone();
        assert(creator@ =~= self.creator@);
        assert(tags@ =~= self.tags@);
        Metadata {
            title: self.title.clone(),
            creator,
            language: self.language.clone(),
            identifier: self.identifier.clone(),
            date: self.date.clone(),
            publisher: self.publisher.clone(),
            description: self.description.clone(),
            rights: self.rights.clone(),
            cover: self.cover.clone(),
            tags,
        }
    }
}

impl Metadata {
    /// Metadata with the five core fields; the optional ones start absent.
    pub fn new(
        title: Option<String>,
        creator: Vec<String>,
        language: Option<String>,
        identifier: String,
        date: Option<String>,
    ) -> (r: Self)
        ensures
            r@ == (MetadataView {
                title: opt_text(title),
                creator: texts(creator@),
                language: opt_text(language),
                identifier: identifier@,
                date: opt_text(date),
                publisher: None,
                description: None,
                rights: None,
                cover: None,
                tags: Seq::empty(),
            }),
    {
        let r = Metadata {
            title,
            creator,
            language,
            identifier,
            date,
            publisher: None,
            description: None,
            rights: None,
            cover: None,
            tags: Vec::new(),
        };
        assert(r@.tags =~= Seq::<Seq<char>>::empty());
        r
    }

    /// The same metadata with its optional fields set.
    pub(crate) fn with_details(
        self,
        description: Option<String>,
        publisher: Option<String>,
        rights: Option<String>,
        tags: Vec<String>,
        cover: Option<String>,
    ) -> (r: Self)
        ensures
            r@ == (MetadataView {
                description: opt_text(description),
                publisher: opt_text(publisher),
                rights: opt_text(rights),
                tags: texts(tags@),
                cover: opt_text(cover),
                ..self@
            }),
    {
        Metadata {
            title: self.title,
            creator: self.creator,
            language: self.language,
            identifier: self.identifier,
            date: self.date,
            publisher,
            description,
            rights,
            cover,
            tags,
        }
    }

    pub fn get_title(&self) -> (r: Option<&str>)
        ensures
            opt_str_text(r) == self@.title,
    {
        match &self.title {
            Some(t) => Some(t.as_str()),
            None => None,
        }
    }

    pub fn get_creators(&self) -> (r: &[String])
        ensures
            texts(r@) == self@.creator,
    {
        self.creator.as_slice()
    }

    pub fn get_language(&self) -> (r: Option<&str>)
        ensures
            opt_str_text(r) == self@.language,
    {
        match &self.language {
            Some(t) => Some(t.as_str()),
            None => None,
        }
    }

    pub fn get_identifier(&self) -> (r: &str)
        ensures
            r@ == self@.identifier,
    {
        self.identifier.as_str()
    }

    pub fn get_date(&self) -> (r: Option<&str>)
        ensures
            opt_str_text(r) == self@.date,
    {
        match &self.date {
            Some(t) => Some(t.as_str()),
            None => None,
        }
    }

    pub fn get_publisher(&self) -> (r: Option<&str>)
        ensures
            opt_str_text(r) == self@.publisher,
    {
        match &self.publisher {
            Some(t) => Some(t.as_str()),
            None => None,
        }
    }

    pub fn get_description(&self) -> (r: Option<&str>)
        ensures
            opt_str_text(r) == self@.description,
    {
        match &self.description {
            Some(t) => Some(t.as_str()),
            None => None,
        }
    }

    pub fn get_rights(&self) -> (r: Option<&str>)
        ensures
            opt_str_text(r) == self@.rights,
    {
        match &self.rights {
            Some(t) => Some(t.as_str()),
            None => None,
        }
    }

    pub fn get_cover(&self) -> (r: Option<&str>)
        ensures
            opt_str_text(r) == self@.cover,
    {
        match &self.cover {
            Some(t) => Some(t.as_str()),
            None => None,
        }
    }

    pub fn get_tags(&self) -> (r: &[String])
        ensures
            texts(r@) == self@.tags,
    {
        self.tags.as_slice()
    }
}

} // verus!
