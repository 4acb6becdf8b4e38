//! Keeping the chapter list in step with the page.

use vstd::prelude::*;

verus! {

/// What may have happened to the books that the chapter list shows.
#[derive(Clone, Copy, Debug, PartialEq, Eq, Structural)]
pub enum ChapterListSyncMode {
    /// They are the same.
    NoReload,
    /// They are others.
    Reload,
    /// They are others if the book that is read is not this one any more.
    ReloadIfNeeded(usize),
}

impl ChapterListSyncMode {
    /// Whether the list is to be built anew, now that `inner_book` is read.
    pub open spec fn reloads(self, inner_book: usize) -> bool {
        match self {
            ChapterListSyncMode::NoReload => false,
            ChapterListSyncMode::Reload => true,
            ChapterListSyncMode::ReloadIfNeeded(orig_inner_book) => orig_inner_book != inner_book,
        }
    }
}

/// One row of the chapter list.
#[derive(Clone, Copy, Debug, PartialEq, Eq, Structural)]
pub struct ChapterEntry {
    /// The number of the chapter, or of the book.
    pub index: u64,
    /// Whether the row stands for a book rather than a chapter.
    pub book: bool,
}

/// What is to be done to the chapter list.
#[derive(Debug)]
pub enum ChapterSync {
    /// Build it anew.
    Reload,
    /// Leave it as it is.
    Keep,
    /// Select these rows, one after the other.
    Select(Vec<usize>),
}

/// Whether a row stands for the chapter.
pub open spec fn shows(entry: ChapterEntry, toc_index: u64) -> bool {
    !entry.book && entry.index == toc_index
}

/// The rows among the first `n` that stand for the chapter, from top to bottom.
pub open spec fn rows_of(chapters: Seq<ChapterEntry>, toc_index: u64, n: nat) -> Seq<usize>
    decreases n,
{
    if n == 0 {
        seq![]
    } else if shows(chapters[n - 1], toc_index) {
        rows_of(chapters, toc_index, (n - 1) as nat).push((n - 1) as usize)
    } else {
        rows_of(chapters, toc_index, (n - 1) as nat)
    }
}

/// Whether the selected row is there and bears the number of the chapter. A
/// row that stands for a book may do so too.
pub open spec fn selection_fits(
    chapters: Seq<ChapterEntry>,
    selected_row: Option<i32>,
    toc_index: u64,
) -> bool {
    selected_row matches Some(row) && 0 <= row < chapters.len() && chapters[row as int].index
        == toc_index
}

/// Decides what is to be done to the chapter list. `selected_row` is the row
/// that is selected now, and `toc_index` the chapter that is read.
pub fn do_sync(
    sync_mode: ChapterListSyncMode,
    inner_book: usize,
    toc_index: u64,
    selected_row: Option<i32>,
    chapters: &Vec<ChapterEntry>,
) -> (res: ChapterSync)
    ensures
        res is Reload <==> sync_mode.reloads(inner_book),
        res is Keep <==> !sync_mode.reloads(inner_book) && selection_fits(
            chapters@,
            selected_row,
            toc_index,
        ),
        res matches ChapterSync::Select(rows) ==> rows@ == rows_of(
            chapters@,
            toc_index,
            chapters@.len(),
        ),
{
    let reload = match sync_mode {
        ChapterListSyncMode::NoReload => false,
        ChapterListSyncMode::Reload => true,
        ChapterListSyncMode::ReloadIfNeeded(orig_inner_book) => orig_inner_book != inner_book,
    };
    if reload {
        return ChapterSync::Reload;
    }
    if let Some(index) = selected_row {
        if index >= 0 {
            let row: usize = index as usize;
            if row < chapters.len() && chapters[row].index == toc_index {
                return ChapterSync::Keep;
            }
        }
    }
    let mut rows: Vec<usize> = Vec::new();
    let mut i: usize = 0;
    while i < chapters.len()
        invariant
            i <= chapters@.len(),
            rows@ == rows_of(chapters@, toc_index, i as nat),
        decreases chapters@.len() - i,
    {
        if !chapters[i].book && chapters[i].index == toc_index {
            rows.push(i);
        }
        i = i + 1;
    }
    ChapterSync::Select(rows)
}

/// The rows that are selected are those that stand for the chapter, each once
/// and from top to bottom.
pub proof fn law_selected_rows_show_the_chapter(
    chapters: Seq<ChapterEntry>,
    toc_index: u64,
    n: nat,
)
    requires
        n <= chapters.len(),
        chapters.len() <= usize::MAX,
    ensures
        forall|row: usize| #[trigger]
            rows_of(chapters, toc_index, n).contains(row) <==> row < n && shows(
                chapters[row as int],
                toc_index,
            ),
        forall|i: int, j: int|
            0 <= i < j < rows_of(chapters, toc_index, n).len() ==> rows_of(
                chapters,
                toc_index,
                n,
            )[i] < rows_of(chapters, toc_index, n)[j],
    decreases n,
{
    if n > 0 {
        let m = (n - 1) as nat;
        law_selected_rows_show_the_chapter(chapters, toc_index, m);
        let rows = rows_of(chapters, toc_index, n);
        let front = rows_of(chapters, toc_index, m);
        assert forall|row: usize| #[trigger] rows.contains(row) <==> row < n && shows(
            chapters[row as int],
            toc_index,
        ) by {
            if rows.contains(row) {
                let k = choose|k: int| 0 <= k < rows.len() && rows[k] == row;
                if k < front.len() {
                    assert(front[k] == row);
                    assert(front.contains(row));
                }
            }
            if row < n && shows(chapters[row as int], toc_index) {
                if row < m {
                    assert(front.contains(row));
                    let k = choose|k: int| 0 <= k < front.len() && front[k] == row;
                    assert(rows[k] == row);
                } else {
                    assert(rows[rows.len() - 1] == row);
                }
            }
        }
        assert forall|i: int, j: int| 0 <= i < j < rows.len() implies rows[i] < rows[j] by {
            assert(front[i] == rows[i]);
            assert(front.contains(rows[i]));
            if j < front.len() {
                assert(front[j] == rows[j]);
            }
        }
    }
}

/// Once the last of the rows is selected, the list is in step: the same
/// chapter does not move the selection again.
pub proof fn law_sync_settles(chapters: Seq<ChapterEntry>, toc_index: u64)
    requires
        chapters.len() <= i32::MAX,
        rows_of(chapters, toc_index, chapters.len()).len() > 0,
    ensures
        selection_fits(
            chapters,
            Some(rows_of(chapters, toc_index, chapters.len()).last() as i32),
            toc_index,
        ),
{
    let rows = rows_of(chapters, toc_index, chapters.len());
    law_selected_rows_show_the_chapter(chapters, toc_index, chapters.len());
    assert(rows.contains(rows.last()));
}

/// The chapter list is built anew if and only if other books may be shown. It
/// is left alone exactly where the selected row is there and bears the number
/// of the chapter that is read. In every other case the rows of that chapter
/// are selected, each once and from top to bottom, and no row of a book.
pub proof fn law_list_follows_the_chapter(
    sync_mode: ChapterListSyncMode,
    inner_book: usize,
    toc_index: u64,
    selected_row: Option<i32>,
    chapters: &Vec<ChapterEntry>,
    res: ChapterSync,
)
    requires
        call_ensures(do_sync, (sync_mode, inner_book, toc_index, selected_row, chapters), res),
    ensures
        match sync_mode {
            ChapterListSyncMode::NoReload => !(res is Reload),
            ChapterListSyncMode::Reload => res is Reload,
            ChapterListSyncMode::ReloadIfNeeded(before) => res is Reload <==> before != inner_book,
        },
        res is Keep ==> {
            &&& selected_row matches Some(row) && 0 <= row < chapters@.len()
            &&& chapters@[selected_row->0 as int].index == toc_index
        },
        res is Select && selected_row is Some && 0 <= selected_row->0 < chapters@.len()
            ==> chapters@[selected_row->0 as int].index != toc_index,
        res matches ChapterSync::Select(rows) ==> {
            &&& forall|k: int|
                0 <= k < rows@.len() ==> (#[trigger] rows@[k]) < chapters@.len()
                    && !chapters@[rows@[k] as int].book && chapters@[rows@[k] as int].index
                    == toc_index
            &&& forall|j: int, k: int| 0 <= j < k < rows@.len() ==> rows@[j] < rows@[k]
            &&& forall|row: int|
                0 <= row < chapters@.len() && !(#[trigger] chapters@[row]).book
                    && chapters@[row].index == toc_index ==> rows@.contains(row as usize)
        },
{
    if let ChapterSync::Select(rows) = res {
        let n = chapters@.len();
        assert(chapters.len() == n);
        law_selected_rows_show_the_chapter(chapters@, toc_index, n);
        assert forall|k: int| 0 <= k < rows@.len() implies (#[trigger] rows@[k]) < chapters@.len()
            && !chapters@[rows@[k] as int].book && chapters@[rows@[k] as int].index
            == toc_index by {
            assert(rows@.contains(rows@[k]));
            assert(shows(chapters@[rows@[k] as int], toc_index));
        }
        assert forall|row: int|
            0 <= row < chapters@.len() && !(#[trigger] chapters@[row]).book && chapters@[row].index
                == toc_index implies rows@.contains(row as usize) by {
            assert(shows(chapters@[row], toc_index));
        }
    }
}

/// Paging to another chapter moves the selection: a list that is left alone for
/// one chapter is not left alone for another. Once the last of the rows that
/// were asked for is selected, the list is in step.
pub proof fn law_other_chapter_moves_the_selection(
    inner_book: usize,
    toc_index: u64,
    other: u64,
    selected_row: Option<i32>,
    chapters: &Vec<ChapterEntry>,
    res: ChapterSync,
    res_other: ChapterSync,
    res_settled: ChapterSync,
)
    requires
        other != toc_index,
        chapters@.len() <= i32::MAX,
        call_ensures(
            do_sync,
            (ChapterListSyncMode::NoReload, inner_book, toc_index, selected_row, chapters),
            res,
        ),
        call_ensures(
            do_sync,
            (ChapterListSyncMode::NoReload, inner_book, other, selected_row, chapters),
            res_other,
        ),
        res_other matches ChapterSync::Select(rows) && rows@.len() > 0 ==> call_ensures(
            do_sync,
            (
                ChapterListSyncMode::NoReload,
                inner_book,
                other,
                Some(res_other->Select_0@.last() as i32),
                chapters,
            ),
            res_settled,
        ),
    ensures
        res is Keep ==> res_other is Select,
        res_other matches ChapterSync::Select(rows) && rows@.len() > 0 ==> res_settled is Keep,
{
    if let ChapterSync::Select(rows) = res_other {
        if rows@.len() > 0 {
            law_sync_settles(chapters@, other);
        }
    }
}

} // verus!
