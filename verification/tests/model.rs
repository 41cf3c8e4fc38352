use epubie_lib::epub::EpubFile;
use epubie_lib::epub::Metadata;
use epubie_lib::epub::TableOfContents;
use epubie_lib::epub::TocEntry;
use epubie_lib::navigation::NavTitles;
use epubie_lib::Epub;

fn file(id: &str, href: &str, title: Option<&str>, media_type: &str) -> EpubFile {
    EpubFile {
        id: id.to_string(),
        href: href.to_string(),
        title: title.map(|t| t.to_string()),
        content: "<html/>".to_string(),
        media_type: media_type.to_string(),
    }
}

#[test]
fn epub_file_getters_return_the_fields() {
    let f = file("ch1", "text/ch1.xhtml", Some("One"), "application/xhtml+xml");
    assert_eq!(f.get_id(), "ch1");
    assert_eq!(f.get_href(), "text/ch1.xhtml");
    assert_eq!(f.get_title(), Some("One"));
    assert_eq!(f.get_content(), "<html/>");
    assert_eq!(f.get_parsable_html(), "<html/>");
    assert_eq!(f.get_html_bytes(), b"<html/>");
    assert_eq!(f.get_media_type(), "application/xhtml+xml");
    assert_eq!(file("a", "a", None, "x").get_title(), None);
}

#[test]
fn is_html_asks_for_the_exact_media_type() {
    assert!(file("a", "a", None, "application/xhtml+xml").is_html());
    assert!(!file("a", "a", None, "text/html").is_html());
    assert!(!file("a", "a", None, "application/xhtml+xml; charset=utf-8").is_html());
    assert!(!file("a", "a", None, "APPLICATION/XHTML+XML").is_html());
    assert!(!file("a", "a", None, "").is_html());
}

#[test]
fn epub_file_clone_is_equal_field_by_field() {
    let f = file("ch1", "ch1.xhtml", Some("One"), "application/xhtml+xml");
    let g = f.clone();
    assert_eq!(g.id, f.id);
    assert_eq!(g.href, f.href);
    assert_eq!(g.title, f.title);
    assert_eq!(g.content, f.content);
    assert_eq!(g.media_type, f.media_type);
}

#[test]
fn table_of_contents_keeps_entries_in_order() {
    let mut toc = TableOfContents::new();
    assert_eq!(toc.get_entry_count(), 0);
    assert!(toc.get_entries().is_empty());
    toc.add_entry("One".to_string(), "a.xhtml".to_string(), 0);
    toc.add_entry("Two".to_string(), "b.xhtml".to_string(), 3);
    assert_eq!(toc.get_entry_count(), 2);
    let entries = toc.get_entries();
    assert_eq!(entries[0].get_title(), "One");
    assert_eq!(entries[0].get_href(), "a.xhtml");
    assert_eq!(entries[0].get_level(), 0);
    assert_eq!(entries[1].get_title(), "Two");
    assert_eq!(entries[1].get_href(), "b.xhtml");
    assert_eq!(entries[1].get_level(), 3);
    let copy = toc.clone();
    assert_eq!(copy.get_entry_count(), 2);
    assert_eq!(copy.get_entries()[1].get_title(), "Two");
}

#[test]
fn toc_entry_getters_return_the_fields() {
    let e = TocEntry { title: "T".to_string(), href: "h".to_string(), level: 2 };
    assert_eq!(e.get_title(), "T");
    assert_eq!(e.get_href(), "h");
    assert_eq!(e.get_level(), 2);
    let c = e.clone();
    assert_eq!((c.title, c.href, c.level), ("T".to_string(), "h".to_string(), 2));
}

#[test]
fn create_table_of_contents_lists_each_file_once() {
    let files = vec![
        file("b", "b.xhtml", Some("Bee"), "application/xhtml+xml"),
        file("a", "a.xhtml", None, "application/xhtml+xml"),
        file("b", "b2.xhtml", Some(""), "application/xhtml+xml"),
    ];
    let toc = Epub::create_table_of_contents(&NavTitles::new(), &files);
    assert_eq!(toc.get_entry_count(), files.len());
    let got: Vec<(String, String, usize)> = toc
        .get_entries()
        .iter()
        .map(|e| (e.get_title().to_string(), e.get_href().to_string(), e.get_level()))
        .collect();
    assert_eq!(
        got,
        vec![
            ("Bee".to_string(), "b.xhtml".to_string(), 0),
            ("a".to_string(), "a.xhtml".to_string(), 0),
            ("".to_string(), "b2.xhtml".to_string(), 0)
        ]
    );
    assert_eq!(Epub::create_table_of_contents(&NavTitles::new(), &[]).get_entry_count(), 0);
}

#[test]
fn metadata_new_leaves_the_optional_fields_absent() {
    let m = Metadata::new(
        Some("T".to_string()),
        vec!["A".to_string(), "B".to_string()],
        Some("de".to_string()),
        "id-1".to_string(),
        Some("1999".to_string()),
    );
    assert_eq!(m.get_title(), Some("T"));
    assert_eq!(m.get_creators(), ["A".to_string(), "B".to_string()]);
    assert_eq!(m.get_language(), Some("de"));
    assert_eq!(m.get_identifier(), "id-1");
    assert_eq!(m.get_date(), Some("1999"));
    assert_eq!(m.get_publisher(), None);
    assert_eq!(m.get_description(), None);
    assert_eq!(m.get_rights(), None);
    assert_eq!(m.get_cover(), None);
    assert!(m.get_tags().is_empty());
    let c = m.clone();
    assert_eq!(c.get_title(), Some("T"));
    assert_eq!(c.get_creators().len(), 2);
    let bare = Metadata::new(None, Vec::new(), None, String::new(), None);
    assert_eq!(bare.get_title(), None);
    assert_eq!(bare.get_identifier(), "");
}
