//! Grouping the reading order into chapters.
//!
//! Publishers often split one chapter over several files and name them
//! `<chapter>_part<n>`. The spine is first resolved to the files it names;
//! the run of files is then cut wherever a file that carries a navigation
//! title belongs to another chapter, by that naming convention, than the file
//! that opened the current one.

use vstd::prelude::*;
use vstd::hash_map::StringHashMap;
use vstd::string::StrSliceExecFns;
use vstd::string::StringExecFns;
use crate::epub::Epub;
use crate::model::chapter_views;
use crate::model::file_views;
use crate::model::Chapter;
use crate::model::ChapterView;
use crate::model::EpubFile;
use crate::model::FileView;
use crate::package::Spine;
use crate::text::chars_of;
use crate::text::last_index_of;
use crate::text::lemma_last_index_of;
use crate::text::lemma_last_index_of_unique;
use crate::text::rfind_char;
use crate::text::starts_with_at;
use crate::text::str_eq;

verus! {

/// The word that opens the last segment of a split chapter's id.
pub open spec fn part_marker() -> Seq<char> {
    seq!['p', 'a', 'r', 't']
}

/// The chapter that an id belongs to: the id without its last
/// underscore-separated segment where that segment starts with `part`, else
/// the id itself.
pub open spec fn chapter_base(id: Seq<char>) -> Seq<char> {
    match last_index_of(id, '_') {
        Some(i) => if part_marker().is_prefix_of(id.skip(i + 1)) {
            id.take(i)
        } else {
            id
        },
        None => id,
    }
}

/// An id of the form `<base>_part<n>`, where `<n>` holds no underscore, has
/// `<base>` as its chapter base.
pub proof fn lemma_chapter_base_of_part(base: Seq<char>, n: Seq<char>)
    requires
        !n.contains('_'),
    ensures
        chapter_base(base + seq!['_'] + part_marker() + n) == base,
{
    let id = base + seq!['_'] + part_marker() + n;
    let i = base.len() as int;
    assert(id[i] == '_');
    assert forall|j: int| i < j < id.len() implies id[j] != '_' by {
        if j >= i + 5 {
            assert(id[j] == n[j - i - 5]);
            assert(n.contains(n[j - i - 5]));
        }
    }
    lemma_last_index_of_unique(id, '_', i);
    assert(id.skip(i + 1).subrange(0, 4) =~= part_marker());
    assert(id.take(i) =~= base);
}

/// Two ids of the form `<base>_part<n>` belong to the same chapter exactly
/// when their bases are equal.
pub proof fn lemma_parts_share_chapter(a: Seq<char>, m: Seq<char>, b: Seq<char>, n: Seq<char>)
    requires
        !m.contains('_'),
        !n.contains('_'),
    ensures
        chapter_base(a + seq!['_'] + part_marker() + m) == chapter_base(
            b + seq!['_'] + part_marker() + n,
        ) <==> a == b,
{
    lemma_chapter_base_of_part(a, m);
    lemma_chapter_base_of_part(b, n);
}

/// An id whose last underscore-separated segment does not start with
/// `part`, or that holds no underscore, is its own chapter base.
pub proof fn lemma_chapter_base_of_plain(id: Seq<char>)
    ensures
        !id.contains('_') ==> chapter_base(id) == id,
        chapter_base(id).len() <= id.len(),
        chapter_base(id) == id.take(chapter_base(id).len() as int),
{
    lemma_last_index_of(id, '_');
    if id.contains('_') {
        let j = choose|j: int| 0 <= j < id.len() && id[j] == '_';
        assert(id[j] == '_');
    }
    assert(id.take(id.len() as int) =~= id);
}

/// Where each id is found: the position of the last file that carries it.
pub open spec fn file_index(files: Seq<FileView>) -> Map<Seq<char>, int>
    decreases files.len(),
{
    if files.len() == 0 {
        Map::empty()
    } else {
        file_index(files.drop_last()).insert(files.last().id, files.len() - 1)
    }
}

/// The index knows exactly the ids that some file carries, and points each
/// at the last file with that id.
pub proof fn lemma_file_index(files: Seq<FileView>)
    ensures
        forall|id: Seq<char>| #[trigger]
            file_index(files).contains_key(id) <==> exists|k: int|
                0 <= k < files.len() && #[trigger] files[k].id == id,
        forall|id: Seq<char>| #[trigger]
            file_index(files).contains_key(id) ==> {
                let k = file_index(files)[id];
                0 <= k < files.len() && files[k].id == id && forall|j: int|
                    k < j < files.len() ==> files[j].id != id
            },
    decreases files.len(),
{
    if files.len() > 0 {
        let rest = files.drop_last();
        lemma_file_index(rest);
        assert forall|id: Seq<char>| #[trigger]
            file_index(files).contains_key(id) <==> exists|k: int|
                0 <= k < files.len() && #[trigger] files[k].id == id by {
            if file_index(files).contains_key(id) {
                if id == files.last().id {
                    assert(files[files.len() - 1].id == id);
                } else {
                    assert(file_index(rest).contains_key(id));
                    let k = choose|k: int| 0 <= k < rest.len() && #[trigger] rest[k].id == id;
                    assert(files[k].id == id);
                }
            }
            if exists|k: int| 0 <= k < files.len() && #[trigger] files[k].id == id {
                let k = choose|k: int| 0 <= k < files.len() && #[trigger] files[k].id == id;
                if k < rest.len() {
                    assert(rest[k].id == id);
                }
            }
        }
        assert forall|id: Seq<char>| #[trigger] file_index(files).contains_key(id) implies {
            let k = file_index(files)[id];
            0 <= k < files.len() && files[k].id == id && forall|j: int|
                k < j < files.len() ==> files[j].id != id
        } by {
            if id != files.last().id {
                let k = file_index(rest)[id];
                assert(files[k] == rest[k]);
                assert forall|j: int| k < j < files.len() implies files[j].id != id by {
                    if j < rest.len() {
                        assert(files[j] == rest[j]);
                    }
                }
            }
        }
    }
}

/// The files that the spine names, in reading order. A reference to an id
/// that no file carries contributes nothing.
pub open spec fn spine_files(files: Seq<FileView>, spine: Seq<Seq<char>>) -> Seq<FileView>
    decreases spine.len(),
{
    if spine.len() == 0 {
        Seq::empty()
    } else {
        let before = spine_files(files, spine.drop_last());
        let index = file_index(files);
        if index.contains_key(spine.last()) {
            before.push(files[index[spine.last()]])
        } else {
            before
        }
    }
}

/// The chapter that a non-empty run of files makes: named after its first
/// file.
pub open spec fn sealed_chapter(files: Seq<FileView>) -> ChapterView {
    ChapterView { title: files[0].display_title(), files }
}

/// Whether `file` cannot join a chapter that `first` opened: it carries a
/// navigation title, and its chapter base differs from that of `first`.
pub open spec fn parts_from(first: FileView, file: FileView) -> bool {
    file.title is Some && chapter_base(first.id) != chapter_base(file.id)
}

/// Whether `file` ends the chapter that `open` holds.
pub open spec fn ends_chapter(open: Seq<FileView>, file: FileView) -> bool {
    open.len() > 0 && parts_from(open[0], file)
}

/// A run of files cut into chapters: those that are complete, and the files
/// of the one that is still open.
pub struct Grouping {
    pub sealed: Seq<ChapterView>,
    pub open: Seq<FileView>,
}

/// The grouping after one more file.
pub open spec fn take_file(g: Grouping, file: FileView) -> Grouping {
    if ends_chapter(g.open, file) {
        Grouping { sealed: g.sealed.push(sealed_chapter(g.open)), open: seq![file] }
    } else {
        Grouping { sealed: g.sealed, open: g.open.push(file) }
    }
}

/// The grouping of a run of files, taken one by one from the front.
pub open spec fn group_run(run: Seq<FileView>) -> Grouping
    decreases run.len(),
{
    if run.len() == 0 {
        Grouping { sealed: Seq::empty(), open: Seq::empty() }
    } else {
        take_file(group_run(run.drop_last()), run.last())
    }
}

/// The chapters of a run of files.
pub open spec fn chapters_of(run: Seq<FileView>) -> Seq<ChapterView> {
    let g = group_run(run);
    if g.open.len() > 0 {
        g.sealed.push(sealed_chapter(g.open))
    } else {
        g.sealed
    }
}

/// The chapters of a publication: the files that the spine names, cut into
/// chapters.
pub open spec fn grouped(files: Seq<FileView>, spine: Seq<Seq<char>>) -> Seq<ChapterView> {
    chapters_of(spine_files(files, spine))
}

/// The files of a list of chapters, one chapter after the other.
pub open spec fn chapter_files(chapters: Seq<ChapterView>) -> Seq<FileView>
    decreases chapters.len(),
{
    if chapters.len() == 0 {
        Seq::empty()
    } else {
        chapter_files(chapters.drop_last()) + chapters.last().files
    }
}

/// The number of files in a list of chapters.
pub open spec fn total_file_count(chapters: Seq<ChapterView>) -> nat
    decreases chapters.len(),
{
    if chapters.len() == 0 {
        0
    } else {
        total_file_count(chapters.drop_last()) + chapters.last().files.len()
    }
}

/// The count of a list of chapters is the length of its files laid end to
/// end.
pub proof fn lemma_total_file_count(chapters: Seq<ChapterView>)
    ensures
        total_file_count(chapters) == chapter_files(chapters).len(),
    decreases chapters.len(),
{
    if chapters.len() > 0 {
        lemma_total_file_count(chapters.drop_last());
    }
}

/// Grouping loses and invents nothing: the sealed chapters followed by the
/// open files are the run itself. Every sealed chapter is non-empty and
/// named after its first file, and the open run is empty only for the empty
/// run.
pub proof fn lemma_group_run(run: Seq<FileView>)
    ensures
        chapter_files(group_run(run).sealed) + group_run(run).open == run,
        forall|c: int|
            0 <= c < group_run(run).sealed.len() ==> {
                let ch = #[trigger] group_run(run).sealed[c];
                ch.files.len() > 0 && ch.title == ch.files[0].display_title()
            },
        run.len() > 0 ==> group_run(run).open.len() > 0,
    decreases run.len(),
{
    if run.len() > 0 {
        let rest = run.drop_last();
        let file = run.last();
        lemma_group_run(rest);
        let g = group_run(rest);
        let h = group_run(run);
        if ends_chapter(g.open, file) {
            assert(h.sealed.drop_last() =~= g.sealed);
            assert(chapter_files(h.sealed) == chapter_files(g.sealed) + g.open);
            assert(chapter_files(h.sealed) + h.open =~= (chapter_files(g.sealed) + g.open).push(
                file,
            ));
            assert(rest.push(file) =~= run);
            assert forall|c: int| 0 <= c < h.sealed.len() implies {
                let ch = #[trigger] h.sealed[c];
                ch.files.len() > 0 && ch.title == ch.files[0].display_title()
            } by {
                if c < g.sealed.len() {
                    assert(h.sealed[c] == g.sealed[c]);
                }
            }
        } else {
            assert(chapter_files(h.sealed) + h.open =~= (chapter_files(g.sealed) + g.open).push(
                file,
            ));
            assert(rest.push(file) =~= run);
        }
    } else {
        assert(chapter_files(group_run(run).sealed) + group_run(run).open =~= run);
    }
}

/// The chapters of a run hold exactly the files of the run, in order; each
/// chapter is non-empty and named after its first file.
pub proof fn lemma_chapters_of(run: Seq<FileView>)
    ensures
        chapter_files(chapters_of(run)) == run,
        total_file_count(chapters_of(run)) == run.len(),
        forall|c: int|
            0 <= c < chapters_of(run).len() ==> {
                let ch = #[trigger] chapters_of(run)[c];
                ch.files.len() > 0 && ch.title == ch.files[0].display_title()
            },
        run.len() == 0 <==> chapters_of(run).len() == 0,
{
    lemma_group_run(run);
    let g = group_run(run);
    let chapters = chapters_of(run);
    if g.open.len() > 0 {
        assert(chapters.drop_last() =~= g.sealed);
        assert forall|c: int| 0 <= c < chapters.len() implies {
            let ch = #[trigger] chapters[c];
            ch.files.len() > 0 && ch.title == ch.files[0].display_title()
        } by {
            if c < g.sealed.len() {
                assert(chapters[c] == g.sealed[c]);
            }
        }
    } else {
        assert(chapter_files(g.sealed) + g.open =~= chapter_files(g.sealed));
    }
    lemma_total_file_count(chapters);
}

/// Where the cuts lie. Inside a chapter no file parts from the file that
/// opened it; each chapter after the first is opened by a file that parts
/// from the opener of the chapter before it.
pub open spec fn cut_by_rule(chapters: Seq<ChapterView>) -> bool {
    &&& forall|c: int, j: int|
        0 <= c < chapters.len() && 0 < j < chapters[c].files.len() ==> !parts_from(
            chapters[c].files[0],
            #[trigger] chapters[c].files[j],
        )
    &&& forall|c: int|
        0 < c < chapters.len() ==> parts_from(
            chapters[c - 1].files[0],
            (#[trigger] chapters[c]).files[0],
        )
}

/// The grouping of a run cuts it by the rule, the open chapter included.
proof fn lemma_group_run_cuts(run: Seq<FileView>)
    ensures
        cut_by_rule(group_run(run).sealed),
        forall|j: int|
            0 < j < group_run(run).open.len() ==> !parts_from(
                group_run(run).open[0],
                #[trigger] group_run(run).open[j],
            ),
        group_run(run).sealed.len() > 0 ==> group_run(run).open.len() > 0 && parts_from(
            group_run(run).sealed.last().files[0],
            group_run(run).open[0],
        ),
    decreases run.len(),
{
    if run.len() > 0 {
        let rest = run.drop_last();
        let file = run.last();
        lemma_group_run_cuts(rest);
        lemma_group_run(rest);
        let g = group_run(rest);
        let h = group_run(run);
        if ends_chapter(g.open, file) {
            let n = g.sealed.len() as int;
            assert(h.sealed[n] == sealed_chapter(g.open));
            assert forall|c: int, j: int|
                0 <= c < h.sealed.len() && 0 < j < h.sealed[c].files.len() implies !parts_from(
                h.sealed[c].files[0],
                #[trigger] h.sealed[c].files[j],
            ) by {
                if c < n {
                    assert(h.sealed[c] == g.sealed[c]);
                }
            }
            assert forall|c: int| 0 < c < h.sealed.len() implies parts_from(
                h.sealed[c - 1].files[0],
                (#[trigger] h.sealed[c]).files[0],
            ) by {
                assert(h.sealed[c - 1] == g.sealed[c - 1]);
                if c < n {
                    assert(h.sealed[c] == g.sealed[c]);
                } else {
                    assert(g.sealed.last() == g.sealed[n - 1]);
                }
            }
        } else {
            assert forall|j: int| 0 < j < h.open.len() implies !parts_from(
                h.open[0],
                #[trigger] h.open[j],
            ) by {
                if j < g.open.len() {
                    assert(h.open[j] == g.open[j]);
                }
            }
        }
    }
}

/// The chapters of a run are cut by the rule.
pub proof fn lemma_chapters_cut_by_rule(run: Seq<FileView>)
    ensures
        cut_by_rule(chapters_of(run)),
{
    lemma_group_run_cuts(run);
    let g = group_run(run);
    let chapters = chapters_of(run);
    if g.open.len() > 0 {
        let n = g.sealed.len() as int;
        assert(chapters[n] == sealed_chapter(g.open));
        assert forall|c: int, j: int|
            0 <= c < chapters.len() && 0 < j < chapters[c].files.len() implies !parts_from(
            chapters[c].files[0],
            #[trigger] chapters[c].files[j],
        ) by {
            if c < n {
                assert(chapters[c] == g.sealed[c]);
            }
        }
        assert forall|c: int| 0 < c < chapters.len() implies parts_from(
            chapters[c - 1].files[0],
            (#[trigger] chapters[c]).files[0],
        ) by {
            assert(chapters[c - 1] == g.sealed[c - 1]);
            if c < n {
                assert(chapters[c] == g.sealed[c]);
            } else {
                assert(g.sealed.last() == g.sealed[n - 1]);
            }
        }
    }
}

/// Every file of every chapter of a list lies in the files of the list
/// laid end to end.
pub proof fn lemma_chapter_files_hold_members(chapters: Seq<ChapterView>, c: int, j: int)
    requires
        0 <= c < chapters.len(),
        0 <= j < chapters[c].files.len(),
    ensures
        chapter_files(chapters).contains(chapters[c].files[j]),
    decreases chapters.len(),
{
    let all = chapter_files(chapters);
    let before = chapter_files(chapters.drop_last());
    if c == chapters.len() - 1 {
        assert(all[before.len() + j] == chapters[c].files[j]);
    } else {
        lemma_chapter_files_hold_members(chapters.drop_last(), c, j);
        let k = choose|k: int| 0 <= k < before.len() && before[k] == chapters[c].files[j];
        assert(all[k] == chapters[c].files[j]);
    }
}

/// The spine resolves to files of the list and to nothing else.
pub proof fn lemma_spine_files_are_files(files: Seq<FileView>, spine: Seq<Seq<char>>, j: int)
    requires
        0 <= j < spine_files(files, spine).len(),
    ensures
        files.contains(spine_files(files, spine)[j]),
    decreases spine.len(),
{
    if spine.len() > 0 {
        let before = spine_files(files, spine.drop_last());
        if j < before.len() {
            lemma_spine_files_are_files(files, spine.drop_last(), j);
        } else {
            lemma_file_index(files);
            let k = file_index(files)[spine.last()];
            assert(files[k] == spine_files(files, spine)[j]);
        }
    }
}

/// Every file of every chapter is one of the content files.
pub proof fn lemma_chapter_members_are_files(
    files: Seq<FileView>,
    spine: Seq<Seq<char>>,
    c: int,
    j: int,
)
    requires
        0 <= c < grouped(files, spine).len(),
        0 <= j < grouped(files, spine)[c].files.len(),
    ensures
        files.contains(grouped(files, spine)[c].files[j]),
{
    let run = spine_files(files, spine);
    let member = grouped(files, spine)[c].files[j];
    lemma_chapters_of(run);
    lemma_chapter_files_hold_members(grouped(files, spine), c, j);
    let k = choose|k: int| 0 <= k < run.len() && run[k] == member;
    lemma_spine_files_are_files(files, spine, k);
}

/// The spine resolves to as many files as it holds references to ids that
/// some file carries.
pub proof fn lemma_spine_files_len(files: Seq<FileView>, spine: Seq<Seq<char>>)
    ensures
        spine_files(files, spine).len() == spine.filter(
            |id: Seq<char>| file_index(files).contains_key(id),
        ).len(),
    decreases spine.len(),
{
    reveal(Seq::filter);
    if spine.len() > 0 {
        lemma_spine_files_len(files, spine.drop_last());
    }
}

/// The chapters of a publication hold, all together, one file for each
/// spine reference to an id that some content file carries, and no other.
pub proof fn lemma_chapters_cover_spine(files: Seq<FileView>, spine: Seq<Seq<char>>)
    ensures
        chapter_files(grouped(files, spine)) == spine_files(files, spine),
        total_file_count(grouped(files, spine)) == spine.filter(
            |id: Seq<char>| file_index(files).contains_key(id),
        ).len(),
{
    lemma_chapters_of(spine_files(files, spine));
    lemma_spine_files_len(files, spine);
}

/// A spine reference to an id that no file carries changes nothing: the
/// chapters are those of the spine without it.
pub proof fn lemma_dangling_reference_is_skipped(
    files: Seq<FileView>,
    spine: Seq<Seq<char>>,
    k: int,
)
    requires
        0 <= k < spine.len(),
        !file_index(files).contains_key(spine[k]),
    ensures
        spine_files(files, spine) == spine_files(files, spine.remove(k)),
        grouped(files, spine) == grouped(files, spine.remove(k)),
    decreases spine.len(),
{
    if k == spine.len() - 1 {
        assert(spine.remove(k) =~= spine.drop_last());
    } else {
        lemma_dangling_reference_is_skipped(files, spine.drop_last(), k);
        assert(spine.remove(k).drop_last() =~= spine.drop_last().remove(k));
        assert(spine.remove(k).last() == spine.last());
    }
}

impl Epub {
    /// The chapter that an id belongs to.
    pub fn extract_chapter_base(id: &str) -> (r: String)
        ensures
            r@ == chapter_base(id@),
    {
        let chars = chars_of(id);
        if let Some(underscore) = rfind_char(&chars, '_') {
            proof {
                lemma_last_index_of(id@, '_');
            }
            let mut marker: Vec<char> = Vec::new();
            marker.push('p');
            marker.push('a');
            marker.push('r');
            marker.push('t');
            assert(marker@ =~= part_marker());
            if starts_with_at(&chars, underscore + 1, &marker) {
                return String::from_str(id.substring_char(0, underscore));
            }
        }
        String::from_str(id)
    }

    /// Whether two files belong to the same chapter, by their ids.
    pub fn files_belong_to_same_chapter(file1: &EpubFile, file2: &EpubFile) -> (r: bool)
        ensures
            r == (chapter_base(file1@.id) == chapter_base(file2@.id)),
    {
        let base1 = Self::extract_chapter_base(file1.id.as_str());
        let base2 = Self::extract_chapter_base(file2.id.as_str());
        str_eq(base1.as_str(), base2.as_str())
    }

    /// Cuts the reading order into chapters.
    ///
    /// The spine is followed in order. A reference to an id that none of
    /// `all_files` carries is skipped. A file opens a new chapter where
    /// none is open, or where it carries a navigation title and belongs,
    /// by its id, to another chapter than the file that opened the current
    /// one; every other file joins the current chapter.
    pub fn group_files_into_chapters(all_files: &[EpubFile], spine: &Spine) -> (chapters: Vec<
        Chapter,
    >)
        ensures
            chapter_views(chapters@) == grouped(file_views(all_files@), spine@),
            chapter_files(chapter_views(chapters@)) == spine_files(file_views(all_files@), spine@),
            cut_by_rule(chapter_views(chapters@)),
            total_file_count(chapter_views(chapters@)) == spine@.filter(
                |id: Seq<char>| file_index(file_views(all_files@)).contains_key(id),
            ).len(),
    {
        let ghost files = file_views(all_files@);
        let ghost refs = spine@;
        let index = Self::index_files(all_files);
        let mut chapters: Vec<Chapter> = Vec::new();
        let mut current: Vec<EpubFile> = Vec::new();
        let mut i: usize = 0;
        assert(chapter_views(chapters@) =~= Seq::<ChapterView>::empty());
        assert(file_views(current@) =~= Seq::<FileView>::empty());
        while i < spine.itemref.len()
            invariant
                i <= spine.itemref.len(),
                files == file_views(all_files@),
                refs == spine@,
                refs.len() == spine.itemref.len(),
                index@.dom() == file_index(files).dom(),
                forall|id: Seq<char>| #[trigger]
                    index@.contains_key(id) ==> index@[id] as int == file_index(files)[id],
                chapter_views(chapters@) == group_run(
                    spine_files(files, refs.take(i as int)),
                ).sealed,
                file_views(current@) == group_run(spine_files(files, refs.take(i as int))).open,
            decreases spine.itemref.len() - i,
        {
            let ghost before = spine_files(files, refs.take(i as int));
            proof {
                assert(refs.take(i + 1).drop_last() =~= refs.take(i as int));
                assert(refs.take(i + 1).last() == spine.itemref@[i as int].idref@);
                lemma_file_index(files);
            }
            let idref = spine.itemref[i].idref.as_str();
            if let Some(found) = index.get(idref) {
                let k: usize = *found;
                assert(index@.contains_key(idref@));
                assert(file_index(files).contains_key(idref@));
                let file = &all_files[k];
                let ghost g = group_run(before);
                assert(file@ == files[k as int]);
                proof {
                    let after = spine_files(files, refs.take(i + 1));
                    assert(after == before.push(file@));
                    assert(after.drop_last() =~= before);
                    assert(group_run(after) == take_file(g, file@));
                }
                let ends = current.len() > 0 && file.title.is_some()
                    && !Self::files_belong_to_same_chapter(&current[0], file);
                assert(ends == ends_chapter(g.open, file@));
                if ends {
                    let mut done: Vec<EpubFile> = Vec::new();
                    std::mem::swap(&mut current, &mut done);
                    let chapter = Chapter::seal(done);
                    assert(chapter@ == sealed_chapter(g.open));
                    chapters.push(chapter);
                    assert(chapter_views(chapters@) =~= g.sealed.push(sealed_chapter(g.open)));
                    current.push(file.clone());
                    assert(file_views(current@) =~= seq![file@]);
                } else {
                    current.push(file.clone());
                    assert(file_views(current@) =~= g.open.push(file@));
                }
            } else {
                assert(!file_index(files).contains_key(idref@));
                assert(spine_files(files, refs.take(i + 1)) == before);
            }
            i += 1;
        }
        proof {
            assert(refs.take(i as int) =~= refs);
            lemma_chapters_cover_spine(files, refs);
            lemma_chapters_cut_by_rule(spine_files(files, refs));
        }
        if current.len() > 0 {
            let ghost sealed = chapter_views(chapters@);
            let ghost open = file_views(current@);
            let chapter = Chapter::seal(current);
            chapters.push(chapter);
            assert(chapter_views(chapters@) =~= sealed.push(sealed_chapter(open)));
        }
        chapters
    }

    /// Builds the lookup from id to position in `all_files`; of two files
    /// with one id the later one is found.
    fn index_files(all_files: &[EpubFile]) -> (index: StringHashMap<usize>)
        ensures
            index@.dom() == file_index(file_views(all_files@)).dom(),
            forall|id: Seq<char>| #[trigger]
                index@.contains_key(id) ==> index@[id] as int == file_index(
                    file_views(all_files@),
                )[id],
    {
        let ghost files = file_views(all_files@);
        let mut index: StringHashMap<usize> = StringHashMap::new();
        let mut i: usize = 0;
        while i < all_files.len()
            invariant
                i <= all_files.len(),
                files == file_views(all_files@),
                index@.dom() =~= file_index(files.take(i as int)).dom(),
                forall|id: Seq<char>| #[trigger]
                    index@.contains_key(id) ==> index@[id] as int == file_index(
                        files.take(i as int),
                    )[id],
            decreases all_files.len() - i,
        {
            proof {
                assert(files.take(i + 1).drop_last() =~= files.take(i as int));
                assert(files.take(i + 1).last() == all_files@[i as int]@);
            }
            index.insert(all_files[i].id.clone(), i);
            i += 1;
        }
        proof {
            assert(files.take(i as int) =~= files);
        }
        index
    }
}

} // verus!
