//! Recovering display titles from the navigation document.
//!
//! The navigation document is scanned as text for links of the shape
//! `<a href="HREF" ...>TEXT</a>`. It is no markup parser: a link whose label
//! holds markup of its own is not found.

use vstd::prelude::*;
use vstd::hash_map::StringHashMap;
use crate::archive::archive_text;
use crate::archive::read_text;
use crate::epub::Epub;
use crate::package::ManifestItemView;
use crate::package::Package;
use crate::package::PackageView;
use crate::path::resolved_path;
use crate::scan::first_match;
use crate::scan::lemma_first_match_step;
use crate::text::contains_text;
use crate::text::str_contains;
use crate::text::trim;
use crate::text::trimmed;

verus! {

/// The pattern of a link: group 1 is the href, a quoted attribute value
/// without a quote in it; group 2 is the label, text without a `<` in it.
pub const ANCHOR_PATTERN: &'static str = r#"<a\s+href="([^"]+)"[^>]*>([^<]+)</a>"#;

/// The matches of a pattern in a text, as the regular-expression engine
/// finds them: `None` where the pattern does not compile; else, for each
/// successive non-overlapping match from left to right, the text of each of
/// its capture groups in the order of their opening parentheses, group 0
/// being the whole match and `None` standing for a group that took no part.
pub uninterp spec fn regex_captures(pattern: Seq<char>, haystack: Seq<char>) -> Option<
    Seq<Seq<Option<Seq<char>>>>,
>;

/// The characters of the capture groups of one match.
pub open spec fn group_texts(groups: Seq<Option<String>>) -> Seq<Option<Seq<char>>> {
    groups.map_values(|g: Option<String>| crate::model::opt_text(g))
}

/// The characters of the capture groups of each match.
pub open spec fn capture_texts(captures: Seq<Vec<Option<String>>>) -> Seq<
    Seq<Option<Seq<char>>>,
> {
    captures.map_values(|m: Vec<Option<String>>| group_texts(m@))
}

/// Compiles `pattern` with `regex::Regex::new` and collects every match
/// that `Regex::captures_iter` yields on `haystack`, each as the texts of
/// its groups in the order of `Captures::iter`.
///
/// Trusted: the result is what the engine finds for this pattern and text,
/// which `regex_captures` names; `None` stands for a pattern that the
/// engine refuses.
#[verifier::external_body]
fn find_captures(pattern: &str, haystack: &str) -> (r: Option<Vec<Vec<Option<String>>>>)
    ensures
        match r {
            Some(captures) => regex_captures(pattern@, haystack@) == Some(
                capture_texts(captures@),
            ),
            None => regex_captures(pattern@, haystack@) is None,
        },
{
    let re = regex::Regex::new(pattern).ok()?;
    Some(
        re.captures_iter(haystack).map(
            |c| c.iter().map(|g| g.map(|m| m.as_str().to_string())).collect(),
        ).collect(),
    )
}

/// The titles that a list of link matches gives: each match with an href
/// (group 1) and a label (group 2) maps its href to its trimmed label, and
/// a later match replaces an earlier one for the same href.
pub open spec fn titles_of(captures: Seq<Seq<Option<Seq<char>>>>) -> Map<Seq<char>, Seq<char>>
    decreases captures.len(),
{
    if captures.len() == 0 {
        Map::empty()
    } else {
        let before = titles_of(captures.drop_last());
        let groups = captures.last();
        if is_link(groups) {
            before.insert(groups[1].unwrap(), trimmed(groups[2].unwrap()))
        } else {
            before
        }
    }
}

/// A match that carries both an href and a label.
pub open spec fn is_link(groups: Seq<Option<Seq<char>>>) -> bool {
    groups.len() > 2 && groups[1] is Some && groups[2] is Some
}

/// A match that is a link to `href`.
pub open spec fn links_to(groups: Seq<Option<Seq<char>>>, href: Seq<char>) -> bool {
    is_link(groups) && groups[1] == Some(href)
}

/// The last link to an href decides its title.
pub proof fn lemma_last_link_wins(captures: Seq<Seq<Option<Seq<char>>>>, href: Seq<char>, k: int)
    requires
        0 <= k < captures.len(),
        links_to(captures[k], href),
        forall|j: int| k < j < captures.len() ==> !links_to(#[trigger] captures[j], href),
    ensures
        titles_of(captures).contains_key(href),
        titles_of(captures)[href] == trimmed(captures[k][2].unwrap()),
    decreases captures.len(),
{
    if k < captures.len() - 1 {
        let rest = captures.drop_last();
        assert(!links_to(captures[captures.len() - 1], href));
        assert(rest[k] == captures[k]);
        assert forall|j: int| k < j < rest.len() implies !links_to(#[trigger] rest[j], href) by {
            assert(rest[j] == captures[j]);
        }
        lemma_last_link_wins(rest, href, k);
    }
}

/// An href that no link names has no title.
pub proof fn lemma_unlinked_has_no_title(captures: Seq<Seq<Option<Seq<char>>>>, href: Seq<char>)
    requires
        forall|j: int| 0 <= j < captures.len() ==> !links_to(#[trigger] captures[j], href),
    ensures
        !titles_of(captures).contains_key(href),
    decreases captures.len(),
{
    if captures.len() > 0 {
        let rest = captures.drop_last();
        assert(!links_to(captures[captures.len() - 1], href));
        assert forall|j: int| 0 <= j < rest.len() implies !links_to(#[trigger] rest[j], href) by {
            assert(rest[j] == captures[j]);
        }
        lemma_unlinked_has_no_title(rest, href);
    }
}

/// The titles of the navigation document, by the href of the file that each
/// names. An href is kept as the navigation document writes it.
pub struct NavTitles {
    map: StringHashMap<String>,
}

impl View for NavTitles {
    type V = Map<Seq<char>, Seq<char>>;

    closed spec fn view(&self) -> Map<Seq<char>, Seq<char>> {
        self.map@.map_values(|title: String| title@)
    }
}

impl NavTitles {
    /// No titles.
    pub fn new() -> (r: Self)
        ensures
            r@ == Map::<Seq<char>, Seq<char>>::empty(),
    {
        let r = NavTitles { map: StringHashMap::new() };
        assert(r@ =~= Map::<Seq<char>, Seq<char>>::empty());
        r
    }

    /// Records the title of `href`, in place of an earlier one.
    pub fn insert(&mut self, href: String, title: String)
        ensures
            final(self)@ == old(self)@.insert(href@, title@),
    {
        self.map.insert(href, title);
        assert(self@ =~= old(self)@.insert(href@, title@));
    }

    /// The title of `href`, if the navigation document gives one.
    pub fn get(&self, href: &str) -> (r: Option<&String>)
        ensures
            match r {
                Some(title) => self@.contains_key(href@) && title@ == self@[href@],
                None => !self@.contains_key(href@),
            },
    {
        self.map.get(href)
    }

    /// The number of hrefs that have a title.
    pub fn len(&self) -> (r: usize)
        ensures
            r == self@.len(),
    {
        broadcast use vstd::hash_map::axiom_string_hash_map_spec_len;

        assert(self@.dom() =~= self.map@.dom());
        self.map.len()
    }

    /// Collects the titles of a list of link matches.
    pub fn from_captures(captures: &Vec<Vec<Option<String>>>) -> (r: Self)
        ensures
            r@ == titles_of(capture_texts(captures@)),
    {
        let ghost all = capture_texts(captures@);
        let mut titles = NavTitles::new();
        let mut i: usize = 0;
        while i < captures.len()
            invariant
                i <= captures.len(),
                all == capture_texts(captures@),
                titles@ == titles_of(all.take(i as int)),
            decreases captures.len() - i,
        {
            proof {
                assert(all.take(i + 1).drop_last() =~= all.take(i as int));
                assert(all.take(i + 1).last() == group_texts(captures@[i as int]@));
            }
            let groups = &captures[i];
            if groups.len() > 2 {
                if let (Some(href), Some(label)) = (&groups[1], &groups[2]) {
                    titles.insert(href.clone(), trim(label.as_str()));
                }
            }
            i += 1;
        }
        proof {
            assert(all.take(i as int) =~= all);
        }
        titles
    }
}

/// A manifest item whose properties mention `nav`: the navigation
/// document.
pub open spec fn is_nav_item() -> spec_fn(ManifestItemView) -> bool {
    |i: ManifestItemView|
        match i.properties {
            Some(p) => contains_text(p, "nav"@),
            None => false,
        }
}

/// The titles that the links of a navigation document give.
pub open spec fn scanned_titles(html: Seq<char>) -> Map<Seq<char>, Seq<char>> {
    match regex_captures(ANCHOR_PATTERN@, html) {
        Some(captures) => titles_of(captures),
        None => Map::empty(),
    }
}

/// The titles of a publication. The navigation document is the first
/// manifest item whose properties mention `nav`, read from the directory of
/// the package document. Without one, or where it cannot be read, there are
/// no titles.
pub open spec fn nav_titles(archive: Seq<u8>, opf_path: Seq<char>, pkg: PackageView) -> Map<
    Seq<char>,
    Seq<char>,
> {
    match first_match(pkg.manifest, is_nav_item()) {
        Some(i) => match archive_text(archive, resolved_path(opf_path, pkg.manifest[i].href)) {
            Some(html) => scanned_titles(html),
            None => Map::empty(),
        },
        None => Map::empty(),
    }
}

/// Whether the manifest item is a navigation document.
pub fn item_is_nav(item: &crate::package::ManifestItem) -> (r: bool)
    ensures
        r == is_nav_item()(item@),
{
    match &item.properties {
        Some(p) => str_contains(p.as_str(), "nav"),
        None => false,
    }
}

impl Epub {
    /// Scans the text of a navigation document for links and collects
    /// their titles.
    pub fn scan_navigation(html: &str) -> (r: NavTitles)
        ensures
            r@ == scanned_titles(html@),
    {
        match find_captures(ANCHOR_PATTERN, html) {
            Some(captures) => NavTitles::from_captures(&captures),
            None => NavTitles::new(),
        }
    }

    /// Reads the titles that the navigation document of the publication
    /// gives. A publication without a navigation document, or with one
    /// that cannot be read, has no titles; that is no error.
    pub fn parse_navigation(file_bytes: &Vec<u8>, package: &Package, opf_path: &str) -> (r:
        NavTitles)
        ensures
            r@ == nav_titles(file_bytes@, opf_path@, package@),
    {
        let items = &package.manifest.item;
        let ghost views = package@.manifest;
        let mut i: usize = 0;
        while i < items.len()
            invariant
                i <= items.len(),
                items == &package.manifest.item,
                views == package@.manifest,
                first_match(views.take(i as int), is_nav_item()) is None,
            decreases items.len() - i,
        {
            proof {
                lemma_first_match_step(views, is_nav_item(), i as int);
            }
            if item_is_nav(&items[i]) {
                proof {
                    crate::scan::lemma_first_match_found(views, is_nav_item(), i as int);
                }
                let nav_path = Self::resolve_path(opf_path, items[i].href.as_str());
                return match read_text(file_bytes, nav_path.as_str()) {
                    Some(html) => Self::scan_navigation(html.as_str()),
                    None => NavTitles::new(),
                };
            }
            i += 1;
        }
        proof {
            assert(views.take(i as int) =~= views);
        }
        NavTitles::new()
    }
}

} // verus!
