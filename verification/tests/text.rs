use epubie_lib::add;
use epubie_lib::epub::EpubFile;
use epubie_lib::text::char_is_whitespace;
use epubie_lib::text::chars_of;
use epubie_lib::text::matches_at;
use epubie_lib::text::rfind_char;
use epubie_lib::text::starts_with_at;
use epubie_lib::text::str_contains;
use epubie_lib::text::str_eq;
use epubie_lib::text::trim;
use epubie_lib::Epub;

fn file(id: &str) -> EpubFile {
    EpubFile {
        id: id.to_string(),
        href: format!("{}.xhtml", id),
        title: None,
        content: String::new(),
        media_type: "application/xhtml+xml".to_string(),
    }
}

#[test]
fn add_sums_its_arguments() {
    assert_eq!(add(2, 2), 4);
    assert_eq!(add(0, u64::MAX), u64::MAX);
}

#[test]
fn resolve_path_joins_the_directory_of_the_base() {
    assert_eq!(Epub::resolve_path("OEBPS/content.opf", "ch1.xhtml"), "OEBPS/ch1.xhtml");
    assert_eq!(Epub::resolve_path("a/b/c.opf", "text/x.xhtml"), "a/b/text/x.xhtml");
    assert_eq!(Epub::resolve_path("/content.opf", "x"), "/x");
    assert_eq!(Epub::resolve_path("dir/", "x"), "dir/x");
}

#[test]
fn resolve_path_without_separator_keeps_the_relative_path() {
    assert_eq!(Epub::resolve_path("content.opf", "ch1.xhtml"), "ch1.xhtml");
    assert_eq!(Epub::resolve_path("", "ch1.xhtml"), "ch1.xhtml");
    assert_eq!(Epub::resolve_path("content.opf", ""), "");
}

#[test]
fn resolve_path_does_not_normalize() {
    assert_eq!(Epub::resolve_path("OEBPS/content.opf", "../x.xhtml"), "OEBPS/../x.xhtml");
    assert_eq!(Epub::resolve_path("OEBPS/content.opf", "./x.xhtml"), "OEBPS/./x.xhtml");
    assert_eq!(Epub::resolve_path("OEBPS/content.opf", "/x.xhtml"), "OEBPS//x.xhtml");
}

#[test]
fn resolve_path_counts_characters_not_bytes() {
    assert_eq!(Epub::resolve_path("b\u{fc}cher/inhalt.opf", "k\u{e4}se.xhtml"), "b\u{fc}cher/k\u{e4}se.xhtml");
    assert_eq!(Epub::resolve_path("\u{66f8}/\u{7c4d}/x.opf", "\u{7ae0}"), "\u{66f8}/\u{7c4d}/\u{7ae0}");
}

#[test]
fn chapter_base_strips_a_part_segment() {
    assert_eq!(Epub::extract_chapter_base("chapter_4_part2"), "chapter_4");
    assert_eq!(Epub::extract_chapter_base("chapter_4_part1"), "chapter_4");
    assert_eq!(Epub::extract_chapter_base("chapter_5_part1"), "chapter_5");
    assert_eq!(Epub::extract_chapter_base("x_part"), "x");
    assert_eq!(Epub::extract_chapter_base("x_partial"), "x");
    assert_eq!(Epub::extract_chapter_base("_part1"), "");
    assert_eq!(Epub::extract_chapter_base("k\u{e4}se_part10"), "k\u{e4}se");
}

#[test]
fn chapter_base_keeps_other_ids() {
    assert_eq!(Epub::extract_chapter_base("chapter_1"), "chapter_1");
    assert_eq!(Epub::extract_chapter_base("intro"), "intro");
    assert_eq!(Epub::extract_chapter_base(""), "");
    assert_eq!(Epub::extract_chapter_base("part1"), "part1");
    assert_eq!(Epub::extract_chapter_base("a_part1_b"), "a_part1_b");
    assert_eq!(Epub::extract_chapter_base("a_Part1"), "a_Part1");
    assert_eq!(Epub::extract_chapter_base("a_par"), "a_par");
    assert_eq!(Epub::extract_chapter_base("a_"), "a_");
    assert_eq!(Epub::extract_chapter_base("ch1b"), "ch1b");
}

#[test]
fn parts_of_one_chapter_belong_together() {
    assert!(Epub::files_belong_to_same_chapter(&file("chapter_4_part2"), &file("chapter_4_part1")));
    assert!(!Epub::files_belong_to_same_chapter(&file("chapter_4_part2"), &file("chapter_5_part1")));
    assert!(Epub::files_belong_to_same_chapter(&file("chapter_4"), &file("chapter_4_part1")));
    assert!(!Epub::files_belong_to_same_chapter(&file("ch1"), &file("ch1b")));
    assert!(Epub::files_belong_to_same_chapter(&file("ch1"), &file("ch1")));
}

#[test]
fn whitespace_is_what_the_standard_library_calls_whitespace() {
    let mut code: u32 = 0;
    while code <= 0x10FFFF {
        if let Some(c) = char::from_u32(code) {
            assert_eq!(char_is_whitespace(c), c.is_whitespace(), "U+{:04X}", code);
        }
        code += 1;
    }
}

#[test]
fn trim_removes_outer_whitespace_only() {
    assert_eq!(trim("  Chapter One \n"), "Chapter One");
    assert_eq!(trim("\t\r\n a  b \u{3000}\u{a0}"), "a  b");
    assert_eq!(trim("plain"), "plain");
    assert_eq!(trim(""), "");
    assert_eq!(trim(" \n\t "), "");
    assert_eq!(trim("\u{2003}\u{e9}t\u{e9}\u{2028}"), "\u{e9}t\u{e9}");
    assert_eq!(trim("\u{200b}x\u{200b}"), "\u{200b}x\u{200b}");
}

#[test]
fn trim_agrees_with_the_standard_library() {
    let samples = [
        "", " ", "a", " a", "a ", "  a  b  ", "\n\nx\n", "\u{85}y\u{1680}", "\u{feff}z ",
        "\u{2000}\u{200a}mid dle\u{202f}\u{205f}", "no-space", "\u{b}\u{c}v\u{1c}",
    ];
    for s in samples {
        assert_eq!(trim(s), s.trim(), "{:?}", s);
    }
}

#[test]
fn str_contains_finds_a_run_of_characters() {
    assert!(str_contains("cover-image nav", "nav"));
    assert!(str_contains("nav", "nav"));
    assert!(str_contains("navigation", "nav"));
    assert!(str_contains("scripted cover-image", "cover-image"));
    assert!(str_contains("anything", ""));
    assert!(str_contains("", ""));
    assert!(!str_contains("", "nav"));
    assert!(!str_contains("na", "nav"));
    assert!(!str_contains("n a v", "nav"));
    assert!(!str_contains("NAV", "nav"));
    assert!(!str_contains("cover_image", "cover-image"));
    assert!(str_contains("aab", "ab"));
    assert!(str_contains("k\u{e4}se nav", "nav"));
    assert!(str_contains("x\u{e4}\u{f6}y", "\u{e4}\u{f6}"));
}

#[test]
fn str_contains_agrees_with_the_standard_library() {
    let hays = ["", "a", "ab", "aab", "abab", "nav", "xnavx", "\u{e9}\u{e9}a", "cover-image"];
    let needles = ["", "a", "b", "ab", "ba", "nav", "\u{e9}a", "image", "abc"];
    for h in hays {
        for n in needles {
            assert_eq!(str_contains(h, n), h.contains(n), "{:?} in {:?}", n, h);
        }
    }
}

#[test]
fn str_eq_compares_characters() {
    assert!(str_eq("", ""));
    assert!(str_eq("cover", "cover"));
    assert!(!str_eq("cover", "covers"));
    assert!(!str_eq("cover", "Cover"));
    assert!(!str_eq("cover", ""));
    assert!(str_eq("\u{e9}t\u{e9}", "\u{e9}t\u{e9}"));
    assert!(!str_eq("\u{e9}", "e\u{301}"));
}

#[test]
fn chars_of_decodes_every_character() {
    assert_eq!(chars_of("a\u{e9}\u{1f600}"), vec!['a', '\u{e9}', '\u{1f600}']);
    assert_eq!(chars_of(""), Vec::<char>::new());
}

#[test]
fn rfind_char_finds_the_last_occurrence() {
    assert_eq!(rfind_char(&chars_of("a/b/c"), '/'), Some(3));
    assert_eq!(rfind_char(&chars_of("/"), '/'), Some(0));
    assert_eq!(rfind_char(&chars_of("abc"), '/'), None);
    assert_eq!(rfind_char(&chars_of(""), '/'), None);
    assert_eq!(rfind_char(&chars_of("\u{e9}/x"), '/'), Some(1));
}

#[test]
fn matches_at_and_starts_with_at_look_at_one_place() {
    let hay = chars_of("a_part1");
    let part = chars_of("part");
    assert!(matches_at(&hay, &part, 2));
    assert!(!matches_at(&hay, &part, 1));
    assert!(matches_at(&hay, &chars_of(""), 7));
    assert!(starts_with_at(&hay, 2, &part));
    assert!(!starts_with_at(&hay, 3, &part));
    assert!(!starts_with_at(&hay, 5, &part));
    assert!(starts_with_at(&hay, 7, &chars_of("")));
}
