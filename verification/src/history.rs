//! Which books were read, and how far.

use vstd::prelude::*;

use crate::text;

verus! {

/// A place in a book: a line, and a character within it.
#[derive(Clone, Copy, Debug, PartialEq, Eq, Structural)]
pub struct Position {
    pub line: usize,
    pub offset: usize,
}

impl Position {
    pub fn new(line: usize, offset: usize) -> (res: Self)
        ensures
            res.line == line,
            res.offset == offset,
    {
        Position { line, offset }
    }
}

/// How far a file was read.
#[derive(Debug)]
pub struct ReadingInfo {
    /// The file, by its absolute path.
    pub filename: String,
    /// Which of the books in the file is read.
    pub inner_book: usize,
    /// The place in that book.
    pub position: Position,
    /// Whether the book's own colors are shown.
    pub custom_color: bool,
}

/// What a `ReadingInfo` says.
pub struct ReadingView {
    pub filename: Seq<char>,
    pub inner_book: usize,
    pub position: Position,
    pub custom_color: bool,
}

impl View for ReadingInfo {
    type V = ReadingView;

    open spec fn view(&self) -> ReadingView {
        ReadingView {
            filename: self.filename@,
            inner_book: self.inner_book,
            position: self.position,
            custom_color: self.custom_color,
        }
    }
}

impl Clone for ReadingInfo {
    fn clone(&self) -> (res: Self)
        ensures
            res@ == self@,
    {
        ReadingInfo {
            filename: self.filename.clone(),
            inner_book: self.inner_book,
            position: self.position,
            custom_color: self.custom_color,
        }
    }
}

/// What a history says, oldest entry first.
pub open spec fn entries(history: Seq<ReadingInfo>) -> Seq<ReadingView> {
    history.map_values(|info: ReadingInfo| info@)
}

/// Whether some entry is about the file.
pub open spec fn mentions(history: Seq<ReadingView>, filename: Seq<char>) -> bool {
    exists|i: int| 0 <= i < history.len() && #[trigger] history[i].filename == filename
}

/// No two entries are about the same file.
pub open spec fn one_entry_per_file(history: Seq<ReadingView>) -> bool {
    forall|i: int, j: int|
        0 <= i < j < history.len() ==> (#[trigger] history[i]).filename != (
        #[trigger] history[j]).filename
}

/// The oldest entry about the file stands at `i`.
pub open spec fn oldest_at(history: Seq<ReadingView>, filename: Seq<char>, i: int) -> bool {
    &&& 0 <= i < history.len()
    &&& history[i].filename == filename
    &&& forall|j: int| 0 <= j < i ==> (#[trigger] history[j]).filename != filename
}

/// What taking a file out of the history amounts to: `before` becomes `after`,
/// `found` tells whether there was an entry about the file, and `taken` is
/// that entry, or else `fresh`.
pub open spec fn takes_out(
    before: Seq<ReadingView>,
    filename: Seq<char>,
    fresh: ReadingView,
    after: Seq<ReadingView>,
    found: bool,
    taken: ReadingView,
) -> bool {
    &&& found == mentions(before, filename)
    &&& found ==> exists|i: int|
        #![trigger before.remove(i)]
        oldest_at(before, filename, i) && taken == before[i] && after == before.remove(i)
    &&& !found ==> taken == fresh && after == before
}

/// Takes the entry about a file out of the history. Where there is none, the
/// history stays as it is and `fresh` is the answer.
pub fn reading_info(
    history: &mut Vec<ReadingInfo>,
    filename: &str,
    fresh: ReadingInfo,
) -> (res: (bool, ReadingInfo))
    ensures
        takes_out(
            entries(old(history)@),
            filename@,
            fresh@,
            entries(final(history)@),
            res.0,
            res.1@,
        ),
{
    let ghost before = entries(history@);
    let mut i: usize = 0;
    while i < history.len()
        invariant
            before == entries(history@),
            before == entries(old(history)@),
            i <= history@.len(),
            forall|j: int| 0 <= j < i ==> (#[trigger] before[j]).filename != filename@,
        decreases history@.len() - i,
    {
        if text::same_text(history[i].filename.as_str(), filename) {
            let found = history.remove(i);
            proof {
                assert(before[i as int].filename == filename@);
                assert(entries(history@) =~= before.remove(i as int));
            }
            return (true, found);
        }
        proof {
            assert(before[i as int] == history@[i as int]@);
        }
        i = i + 1;
    }
    (false, fresh)
}

/// How many files the history menu looks at.
pub const HISTORY_MENU_SIZE: usize = 20;

/// The files that the history menu looks at: the youngest ones, youngest
/// first.
pub open spec fn recent_files(history: Seq<ReadingView>) -> Seq<Seq<char>> {
    Seq::new(
        if history.len() < HISTORY_MENU_SIZE {
            history.len()
        } else {
            HISTORY_MENU_SIZE as nat
        },
        |k: int| history[history.len() - 1 - k].filename,
    )
}

/// What a list of texts says.
pub open spec fn texts(list: Seq<String>) -> Seq<Seq<char>> {
    list.map_values(|s: String| s@)
}

/// The files that the history menu looks at.
pub fn recent_filenames(history: &Vec<ReadingInfo>) -> (res: Vec<String>)
    ensures
        texts(res@) == recent_files(entries(history@)),
{
    let mut files: Vec<String> = Vec::new();
    let len: usize = history.len();
    let mut idx: usize = 0;
    while idx < len && idx < HISTORY_MENU_SIZE
        invariant
            len == history@.len(),
            idx <= len,
            idx <= HISTORY_MENU_SIZE,
            files@.len() == idx,
            forall|k: int|
                0 <= k < idx ==> (#[trigger] files@[k])@ == history@[len - 1 - k].filename@,
        decreases len - idx,
    {
        files.push(history[len - 1 - idx].filename.clone());
        idx = idx + 1;
    }
    proof {
        assert(texts(files@) =~= recent_files(entries(history@)));
    }
    files
}

/// One entry of the history menu.
#[derive(Debug)]
pub struct HistoryEntry {
    /// The name of the action that opens the file.
    pub action: String,
    /// The same action, as the menu refers to it.
    pub menu_action: String,
    /// What the menu shows.
    pub label: String,
}

/// The name of the action for the `idx`-th file.
pub open spec fn action_name(idx: usize) -> Seq<char> {
    "a"@ + text::decimal_digits(idx as nat)
}

impl HistoryEntry {
    /// Whether this is the entry for the `idx`-th file.
    pub open spec fn is_for(self, idx: usize, path: Seq<char>) -> bool {
        &&& self.action@ == action_name(idx)
        &&& self.menu_action@ == "popup."@ + action_name(idx)
        &&& self.label@ == path
    }
}

/// The menu entry for the `idx`-th file. There is one where the path exists
/// and is a file.
pub fn history_entry(idx: usize, path_str: &String, present: bool, is_file: bool) -> (res: Option<
    HistoryEntry,
>)
    ensures
        res is Some <==> present && is_file,
        res matches Some(entry) ==> entry.is_for(idx, path_str@),
{
    if !present || !is_file {
        return None;
    }
    let action = text::join("a", text::decimal(idx).as_str());
    let menu_action = text::join("popup.", action.as_str());
    Some(HistoryEntry { action, menu_action, label: path_str.clone() })
}

/// Two entries of the menu never share an action.
pub proof fn law_actions_differ(i: usize, j: usize)
    requires
        i != j,
    ensures
        action_name(i) != action_name(j),
{
    reveal_strlit("a");
    let a = text::decimal_digits(i as nat);
    let b = text::decimal_digits(j as nat);
    if action_name(i) == action_name(j) {
        assert(a =~= action_name(i).skip(1));
        assert(b =~= action_name(j).skip(1));
        text::lemma_decimal_injective(i as nat, j as nat);
    }
}

/// The menu lists no file twice where the history does not.
pub proof fn law_menu_lists_files_once(history: Seq<ReadingView>)
    requires
        one_entry_per_file(history),
    ensures
        recent_files(history).no_duplicates(),
{
    let files = recent_files(history);
    assert forall|i: int, j: int|
        0 <= i < files.len() && 0 <= j < files.len() && i != j implies files[i] != files[j] by {
        let n = history.len() - 1;
        if i < j {
            assert(history[n - j].filename != history[n - i].filename);
        } else {
            assert(history[n - i].filename != history[n - j].filename);
        }
    }
}

/// Whether a history goes with the file that is open: it has no two entries
/// about one file, and none about the open one.
pub open spec fn fits(history: Seq<ReadingView>, open: Seq<char>) -> bool {
    one_entry_per_file(history) && !mentions(history, open)
}

/// Taking a file out of a history without double entries leaves one that goes
/// with that file being open.
pub proof fn law_taken_out_fits(
    before: Seq<ReadingView>,
    filename: Seq<char>,
    fresh: ReadingView,
    after: Seq<ReadingView>,
    found: bool,
    taken: ReadingView,
)
    requires
        one_entry_per_file(before),
        takes_out(before, filename, fresh, after, found, taken),
    ensures
        fits(after, filename),
        found ==> taken.filename == filename,
        forall|other: Seq<char>|
            other != filename ==> (mentions(after, other) <==> mentions(before, other)),
{
    if found {
        let i = choose|i: int|
            #![trigger before.remove(i)]
            oldest_at(before, filename, i) && taken == before[i] && after == before.remove(i);
        assert(forall|k: int|
            0 <= k < after.len() ==> after[k] == before[if k < i {
                k
            } else {
                k + 1
            }]);
        assert forall|other: Seq<char>| other != filename implies (mentions(after, other)
            <==> mentions(before, other)) by {
            if mentions(before, other) {
                let k = choose|k: int|
                    0 <= k < before.len() && #[trigger] before[k].filename == other;
                if k < i {
                    assert(after[k].filename == other);
                } else {
                    assert(after[k - 1].filename == other);
                }
            }
            if mentions(after, other) {
                let k = choose|k: int|
                    0 <= k < after.len() && #[trigger] after[k].filename == other;
                if k < i {
                    assert(before[k].filename == other);
                } else {
                    assert(before[k + 1].filename == other);
                }
            }
        }
    }
}

/// A history that goes with the open file keeps doing so when another file is
/// opened: the other file is taken out, and the file that was open is added.
pub proof fn law_opening_keeps_history(
    before: Seq<ReadingView>,
    reading: ReadingView,
    filename: Seq<char>,
    fresh: ReadingView,
    after: Seq<ReadingView>,
    found: bool,
    taken: ReadingView,
)
    requires
        fits(before, reading.filename),
        filename != reading.filename,
        takes_out(before, filename, fresh, after, found, taken),
    ensures
        fits(after.push(reading), filename),
        mentions(after.push(reading), reading.filename),
{
    law_taken_out_fits(before, filename, fresh, after, found, taken);
    let end = after.push(reading);
    assert(end[after.len() as int].filename == reading.filename);
    assert(!mentions(after, reading.filename));
    assert forall|i: int, j: int| 0 <= i < j < end.len() implies (#[trigger] end[i]).filename != (
    #[trigger] end[j]).filename by {
        assert(end[i] == after[i]);
        if j < after.len() {
            assert(end[j] == after[j]);
        }
    }
    if mentions(end, filename) {
        let k = choose|k: int| 0 <= k < end.len() && #[trigger] end[k].filename == filename;
        assert(end[k] == after[k]);
    }
}

/// What the history is after a file could not be opened: an entry that had
/// been taken out is added again, as the youngest one.
pub open spec fn put_back(after: Seq<ReadingView>, found: bool, taken: ReadingView) -> Seq<
    ReadingView,
> {
    if found {
        after.push(taken)
    } else {
        after
    }
}

/// A failed attempt to open a file loses no entry of the history and adds
/// none, and the history goes with the open file as it did before.
pub proof fn law_failed_opening_loses_nothing(
    before: Seq<ReadingView>,
    reading: ReadingView,
    filename: Seq<char>,
    fresh: ReadingView,
    after: Seq<ReadingView>,
    found: bool,
    taken: ReadingView,
)
    requires
        filename != reading.filename,
        takes_out(before, filename, fresh, after, found, taken),
    ensures
        put_back(after, found, taken).to_multiset() == before.to_multiset(),
        fits(before, reading.filename) ==> fits(put_back(after, found, taken), reading.filename),
{
    let end = put_back(after, found, taken);
    if found {
        let i = choose|i: int|
            #![trigger before.remove(i)]
            oldest_at(before, filename, i) && taken == before[i] && after == before.remove(i);
        vstd::seq_lib::to_multiset_remove(before, i);
        vstd::seq_lib::to_multiset_build(after, taken);
        vstd::seq_lib::to_multiset_contains(before, taken);
        assert(before.contains(taken));
        assert(end.to_multiset() =~= before.to_multiset());
    }
    if fits(before, reading.filename) {
        law_taken_out_fits(before, filename, fresh, after, found, taken);
        if found {
            assert forall|i: int, j: int|
                0 <= i < j < end.len() implies (#[trigger] end[i]).filename != (
            #[trigger] end[j]).filename by {
                assert(end[i] == after[i]);
                if j < after.len() {
                    assert(end[j] == after[j]);
                }
            }
            if mentions(end, reading.filename) {
                let k = choose|k: int|
                    0 <= k < end.len() && #[trigger] end[k].filename == reading.filename;
                if k < after.len() {
                    assert(end[k] == after[k]);
                }
            }
        }
    }
}

/// What is put into the history when the window closes is what the next start
/// takes out again, and the rest of the history is as it was.
pub proof fn law_closing_then_starting_resumes(
    history: Seq<ReadingView>,
    reading: ReadingView,
    fresh: ReadingView,
    after: Seq<ReadingView>,
    found: bool,
    taken: ReadingView,
)
    requires
        fits(history, reading.filename),
        takes_out(history.push(reading), reading.filename, fresh, after, found, taken),
    ensures
        found,
        taken == reading,
        after == history,
{
    let saved = history.push(reading);
    assert(saved[history.len() as int].filename == reading.filename);
    let i = choose|i: int|
        #![trigger saved.remove(i)]
        oldest_at(saved, reading.filename, i) && taken == saved[i] && after == saved.remove(i);
    if i < history.len() {
        assert(history[i].filename == reading.filename);
    }
    assert(saved.remove(i) =~= history);
}

/// What a history says, entry by entry.
pub proof fn lemma_entries(history: Seq<ReadingInfo>)
    ensures
        entries(history).len() == history.len(),
        forall|i: int| 0 <= i < history.len() ==> #[trigger] entries(history)[i] == history[i]@,
        forall|i: int| 0 <= i < history.len() ==> entries(history)[i] == (#[trigger] history[i])@,
{
}

/// Where the entry stood that was taken out of a history.
pub proof fn lemma_taken_at(
    before: Seq<ReadingView>,
    filename: Seq<char>,
    fresh: ReadingView,
    after: Seq<ReadingView>,
    found: bool,
    taken: ReadingView,
) -> (k: int)
    requires
        takes_out(before, filename, fresh, after, found, taken),
        found,
    ensures
        0 <= k < before.len(),
        before[k].filename == filename,
        taken == before[k],
        after.len() == before.len() - 1,
        forall|i: int| 0 <= i < k ==> (#[trigger] before[i]).filename != filename,
        forall|i: int| 0 <= i < k ==> #[trigger] after[i] == before[i],
        forall|i: int| k <= i < after.len() ==> #[trigger] after[i] == before[i + 1],
{
    let k = choose|k: int|
        #![trigger before.remove(k)]
        oldest_at(before, filename, k) && taken == before[k] && after == before.remove(k);
    k
}

/// What is compared of two readings is everything: the file, the book in it,
/// the place, and whether the book's own colors are shown.
pub proof fn law_reading_is_compared_in_full(a: ReadingInfo, b: ReadingInfo)
    ensures
        a@ == b@ <==> {
            &&& a.filename@ == b.filename@
            &&& a.inner_book == b.inner_book
            &&& a.position.line == b.position.line
            &&& a.position.offset == b.position.offset
            &&& a.custom_color == b.custom_color
        },
{
}

/// A copy of a reading is like the reading.
pub proof fn law_copy_of_a_reading(a: ReadingInfo, copy: ReadingInfo)
    requires
        call_ensures(ReadingInfo::clone, (&a,), copy),
    ensures
        copy.filename@ == a.filename@,
        copy.inner_book == a.inner_book,
        copy.position == a.position,
        copy.custom_color == a.custom_color,
{
}

/// A file is looked up in the history by its name: it is found if and only if
/// some entry bears the name, the oldest such entry is handed out in full and
/// is gone from the history, and all others stay in their order.
pub proof fn law_lookup_takes_the_oldest_entry(
    history: &mut Vec<ReadingInfo>,
    filename: &str,
    fresh: ReadingInfo,
    res: (bool, ReadingInfo),
)
    requires
        call_ensures(reading_info, (history, filename, fresh), res),
    ensures
        res.0 <==> exists|i: int|
            0 <= i < old(history)@.len() && (#[trigger] old(history)@[i]).filename@ == filename@,
        !res.0 ==> {
            &&& res.1@ == fresh@
            &&& final(history)@.len() == old(history)@.len()
            &&& forall|i: int|
                0 <= i < old(history)@.len() ==> (#[trigger] final(history)@[i])@ == old(
                    history)@[i]@
        },
        res.0 ==> exists|k: int|
            {
                &&& 0 <= k < old(history)@.len()
                &&& (#[trigger] old(history)@[k]).filename@ == filename@
                &&& res.1.filename@ == filename@
                &&& res.1.inner_book == old(history)@[k].inner_book
                &&& res.1.position == old(history)@[k].position
                &&& res.1.custom_color == old(history)@[k].custom_color
                &&& final(history)@.len() == old(history)@.len() - 1
                &&& forall|i: int|
                    0 <= i < k ==> (#[trigger] old(history)@[i]).filename@ != filename@
                &&& forall|i: int|
                    0 <= i < k ==> (#[trigger] final(history)@[i])@ == old(history)@[i]@
                &&& forall|i: int|
                    k <= i < final(history)@.len() ==> (#[trigger] final(history)@[i])@ == old(
                        history)@[i + 1]@
            },
{
    let before = entries(old(history)@);
    let after = entries(final(history)@);
    lemma_entries(old(history)@);
    lemma_entries(final(history)@);
    if res.0 {
        let k = lemma_taken_at(before, filename@, fresh@, after, res.0, res.1@);
        assert(old(history)@[k].filename@ == filename@);
        assert forall|i: int| 0 <= i < k implies (#[trigger] final(history)@[i])@ == old(
            history)@[i]@ by {
            assert(after[i] == before[i]);
        }
        assert forall|i: int| k <= i < final(history)@.len() implies (#[trigger] final(
            history)@[i])@ == old(history)@[i + 1]@ by {
            assert(after[i] == before[i + 1]);
        }
    } else {
        assert forall|i: int| 0 <= i < old(history)@.len() implies (#[trigger] old(
            history)@[i]).filename@ != filename@ by {
            assert(before[i].filename != filename@);
        }
    }
}

/// The menu looks at the youngest files, youngest first, at most twenty.
pub proof fn law_recent_files_are_the_youngest(history: &Vec<ReadingInfo>, files: Vec<String>)
    requires
        call_ensures(recent_filenames, (history,), files),
    ensures
        files@.len() == (if history@.len() < 20 {
            history@.len()
        } else {
            20
        }),
        forall|k: int|
            0 <= k < files@.len() ==> (#[trigger] files@[k])@ == history@[history@.len() - 1
                - k].filename@,
{
    lemma_entries(history@);
    let list = texts(files@);
    assert(list == recent_files(entries(history@)));
    assert forall|k: int| 0 <= k < files@.len() implies (#[trigger] files@[k])@
        == history@[history@.len() - 1 - k].filename@ by {
        assert(list[k] == files@[k]@);
    }
}

/// A file has an entry in the menu if and only if it is there and is a file. The
/// entry shows its path, and its action bears its number.
pub proof fn law_menu_entry_is_numbered(
    idx: usize,
    path_str: &String,
    present: bool,
    is_file: bool,
    digits: String,
    res: Option<HistoryEntry>,
)
    requires
        call_ensures(text::decimal, (idx,), digits),
        call_ensures(history_entry, (idx, path_str, present, is_file), res),
    ensures
        res is Some <==> present && is_file,
        res matches Some(entry) ==> {
            &&& entry.label@ == path_str@
            &&& entry.action@ == "a"@ + digits@
            &&& entry.menu_action@ == "popup."@ + entry.action@
        },
{
}

} // verus!
