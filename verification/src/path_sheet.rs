//! A directory listing as a page: the records, the cursor and the scroll
//! position, the marks, and the order of the rows.

use vstd::prelude::*;
use vstd::utf8::encode_utf8;
use std::collections::HashSet;
use crate::fm_page::{
    Column, ColumnSizing, FmPage, PageControl, RenderFeedback, SortColumn, Style, StyleString, Table,
};

verus! {

broadcast use vstd::std_specs::hash::group_hash_axioms;

/// Declares `std::io::Error`, what went wrong while a directory was
/// read. The library carries such a value through and looks at nothing
/// inside it.
#[verifier::external_type_specification]
#[verifier::external_body]
pub struct ExIoError(std::io::Error);

/// The errors of the file browser.
#[derive(Debug)]
pub enum FMError {
    IOError(std::io::Error),
}

impl From<std::io::Error> for FMError {
    fn from(error: std::io::Error) -> (e: Self) {
        FMError::IOError(error)
    }
}

impl vstd::std_specs::convert::FromSpecImpl<std::io::Error> for FMError {
    open spec fn obeys_from_spec() -> bool {
        true
    }

    open spec fn from_spec(error: std::io::Error) -> Self {
        FMError::IOError(error)
    }
}

/// The kind of a directory entry.
#[derive(Debug, PartialEq, Eq, Clone, Copy)]
pub enum PathRecordType {
    File,
    Dir,
    SymLink,
}

/// A point in time: whole seconds since the start of 1970 in UTC, and
/// the nanoseconds past that second.
#[derive(Debug, PartialEq, Eq, Clone, Copy)]
pub struct FileTime {
    pub secs: i64,
    pub nanos: u32,
}

impl FileTime {
    /// Whether `self` is earlier than `other`.
    pub open spec fn earlier(&self, other: &FileTime) -> bool {
        self.secs < other.secs || (self.secs == other.secs && self.nanos < other.nanos)
    }

    /// Whether `self` is earlier than `other`.
    pub fn is_before(&self, other: &FileTime) -> (b: bool)
        ensures
            b == self.earlier(other),
    {
        self.secs < other.secs || (self.secs == other.secs && self.nanos < other.nanos)
    }
}

/// One entry of a directory: its path, the last component of the path,
/// its size in bytes, when it was last modified, and its kind.
#[derive(Debug)]
pub struct PathRecord {
    pub path: String,
    pub file_name: String,
    pub size: u64,
    pub mtime: FileTime,
    pub path_type: PathRecordType,
}

impl Clone for PathRecord {
    fn clone(&self) -> (copy: Self)
        ensures
            copy == *self,
    {
        PathRecord {
            path: self.path.clone(),
            file_name: self.file_name.clone(),
            size: self.size,
            mtime: self.mtime,
            path_type: self.path_type,
        }
    }
}

/// The records under the cursor and under the marks, by which the rows
/// are found again once the listing has changed.
#[derive(Debug)]
pub struct IndexRefs {
    pub cursor: PathRecord,
    pub selection: Vec<PathRecord>,
    pub highlight: Vec<PathRecord>,
}

/// A directory listing shown as a page.
pub struct PathSheet {
    pub base: String,
    pub paths: std::vec::Vec<PathRecord>,
    pub paths_dirty: bool,
    pub state_dirty: bool,
    pub cursor_idx: usize,
    pub scroll_offset: usize,
    pub sort_col_idx: usize,
    pub sort_col_dir: bool,
    pub selection: HashSet<usize>,
    pub highlight: HashSet<usize>,
    pub render_feedback: RenderFeedback,
}

/// The rows kept between the cursor and the edge of the view, and the
/// rows one notch of the wheel scrolls by.
pub const SCROLL_PADDING: usize = 5;

/// The records of `paths` whose index is in `marked`, in the order of
/// the listing.
pub open spec fn picked(paths: Seq<PathRecord>, marked: Set<usize>) -> Seq<PathRecord>
    decreases paths.len(),
{
    if paths.len() == 0 {
        Seq::empty()
    } else if marked.contains((paths.len() - 1) as usize) {
        picked(paths.drop_last(), marked).push(paths.last())
    } else {
        picked(paths.drop_last(), marked)
    }
}

/// The index of the first record of `paths` from `from` on whose path
/// is `path`, or `paths.len()` if there is none.
pub open spec fn first_with_path(paths: Seq<PathRecord>, path: Seq<char>, from: int) -> int
    decreases paths.len() - from,
{
    if from < 0 || from >= paths.len() {
        paths.len() as int
    } else if paths[from].path@ == path {
        from
    } else {
        first_with_path(paths, path, from + 1)
    }
}

/// The row the cursor goes to when it looks for `path`: the first record
/// with that path, or the first row if no record has it.
pub open spec fn row_of_path(paths: Seq<PathRecord>, path: Seq<char>) -> int {
    if first_with_path(paths, path, 0) < paths.len() {
        first_with_path(paths, path, 0)
    } else {
        0
    }
}

impl PathSheet {
    /// Whether every index the sheet holds names a row: the cursor and
    /// each mark.
    pub open spec fn wf(&self) -> bool {
        self.fits(self.paths@.len())
    }

    /// Whether the cursor and each mark name a row of a listing of `len` rows.
    pub open spec fn fits(&self, len: nat) -> bool {
        &&& self.cursor_idx < len
        &&& forall|i: usize| self.selection@.contains(i) ==> i < len
        &&& forall|i: usize| self.highlight@.contains(i) ==> i < len
    }

    /// The marked records among the rows, in the order of the rows.
    fn pick(&self, marked: &HashSet<usize>) -> (out: Vec<PathRecord>)
        ensures
            out@ == picked(self.paths@, marked@),
    {
        let mut out: Vec<PathRecord> = Vec::new();
        let mut i: usize = 0;
        assert(self.paths@.take(0) =~= Seq::<PathRecord>::empty());
        while i < self.paths.len()
            invariant
                i <= self.paths@.len(),
                out@ == picked(self.paths@.take(i as int), marked@),
            decreases self.paths@.len() - i,
        {
            assert(self.paths@.take(i + 1).drop_last() =~= self.paths@.take(i as int));
            if marked.contains(&i) {
                out.push(self.paths[i].clone());
            }
            i += 1;
        }
        assert(self.paths@.take(i as int) =~= self.paths@);
        out
    }

    /// The records under the cursor and under the marks. The marked
    /// records come in the order of the rows.
    pub fn get_index_refs(&self) -> (refs: IndexRefs)
        requires
            self.wf(),
        ensures
            refs.cursor == self.paths@[self.cursor_idx as int],
            refs.selection@ == picked(self.paths@, self.selection@),
            refs.highlight@ == picked(self.paths@, self.highlight@),
    {
        IndexRefs {
            cursor: self.paths[self.cursor_idx].clone(),
            selection: self.pick(&self.selection),
            highlight: self.pick(&self.highlight),
        }
    }

    /// Puts the cursor on the first row whose path is that of
    /// `idx_refs.cursor`, or on the first row if there is none.
    pub fn select_index_refs(&mut self, idx_refs: &IndexRefs)
        ensures
            final(self).cursor_idx == row_of_path(old(self).paths@, idx_refs.cursor.path@),
            final(self).cursor_idx < old(self).paths@.len() || final(self).cursor_idx == 0,
            final(self).paths == old(self).paths,
            final(self).base == old(self).base,
            final(self).paths_dirty == old(self).paths_dirty,
            final(self).state_dirty == old(self).state_dirty,
            final(self).scroll_offset == old(self).scroll_offset,
            final(self).sort_col_idx == old(self).sort_col_idx,
            final(self).sort_col_dir == old(self).sort_col_dir,
            final(self).selection == old(self).selection,
            final(self).highlight == old(self).highlight,
            final(self).render_feedback == old(self).render_feedback,
    {
        let mut i: usize = 0;
        while i < self.paths.len()
            invariant
                i <= self.paths@.len(),
                *self == *old(self),
                first_with_path(self.paths@, idx_refs.cursor.path@, 0) == first_with_path(
                    self.paths@,
                    idx_refs.cursor.path@,
                    i as int,
                ),
            decreases self.paths@.len() - i,
        {
            if self.paths[i].path == idx_refs.cursor.path {
                self.cursor_idx = i;
                return ;
            }
            i += 1;
        }
        self.cursor_idx = 0;
    }
}

/// The lower-case form of a text, as the standard library gives it.
pub uninterp spec fn lowercase(text: Seq<char>) -> Seq<char>;

/// Calls `str::to_lowercase`. The result is named, not described: it is
/// the standard library's lower-case form of the text, which depends on
/// the text alone.
#[verifier::external_body]
fn lower(text: &str) -> (out: String)
    ensures
        out@ == lowercase(text@),
{
    text.to_lowercase()
}

/// Whether the byte string `a` comes before `b` in dictionary order: at
/// the first place where they differ `a` has the smaller byte, or `a`
/// ends there and `b` goes on.
pub open spec fn bytes_before(a: Seq<u8>, b: Seq<u8>) -> bool
    decreases a.len(),
{
    if b.len() == 0 {
        false
    } else if a.len() == 0 {
        true
    } else if a[0] != b[0] {
        a[0] < b[0]
    } else {
        bytes_before(a.drop_first(), b.drop_first())
    }
}

/// Whether the text `a` comes before `b` by the bytes of their UTF-8
/// form, which is how strings are ordered.
pub fn text_before(a: &str, b: &str) -> (r: bool)
    ensures
        r == bytes_before(encode_utf8(a@), encode_utf8(b@)),
{
    let x = a.as_bytes();
    let y = b.as_bytes();
    let mut i: usize = 0;
    assert(x@.skip(0) =~= x@ && y@.skip(0) =~= y@);
    while i < x.len() && i < y.len()
        invariant
            i <= x@.len(),
            i <= y@.len(),
            x@ == encode_utf8(a@),
            y@ == encode_utf8(b@),
            bytes_before(x@, y@) == bytes_before(x@.skip(i as int), y@.skip(i as int)),
        decreases x@.len() - i,
    {
        assert(x@.skip(i as int).drop_first() =~= x@.skip(i + 1));
        assert(y@.skip(i as int).drop_first() =~= y@.skip(i + 1));
        assert(x@.skip(i as int)[0] == x@[i as int] && y@.skip(i as int)[0] == y@[i as int]);
        if x[i] != y[i] {
            return x[i] < y[i];
        }
        i += 1;
    }
    i < y.len()
}

impl PathRecord {
    /// Whether the entry is a directory.
    pub open spec fn is_dir(&self) -> bool {
        self.path_type is Dir
    }

    /// The key by which names are ordered: the bytes of the lower-case
    /// form of the file name.
    pub open spec fn name_key(&self) -> Seq<u8> {
        encode_utf8(lowercase(self.file_name@))
    }
}

/// Whether `a` comes before `b` in the order of column `col`. By name
/// (column 0) directories come before everything else, and within the
/// two groups the lower-case names decide; by time (column 1) the
/// earlier comes first; by size (column 2) the smaller. Any other
/// column orders nothing.
pub open spec fn before(a: PathRecord, b: PathRecord, col: usize) -> bool {
    if col == 0 {
        if a.is_dir() != b.is_dir() {
            a.is_dir()
        } else {
            bytes_before(a.name_key(), b.name_key())
        }
    } else if col == 1 {
        a.mtime.earlier(&b.mtime)
    } else if col == 2 {
        a.size < b.size
    } else {
        false
    }
}

/// Whether `a` comes before `b` in the order of column `col`.
pub fn comes_before(a: &PathRecord, b: &PathRecord, col: usize) -> (r: bool)
    ensures
        r == before(*a, *b, col),
{
    if col == 0 {
        let a_dir = match a.path_type {
            PathRecordType::Dir => true,
            _ => false,
        };
        let b_dir = match b.path_type {
            PathRecordType::Dir => true,
            _ => false,
        };
        if a_dir != b_dir {
            a_dir
        } else {
            let s1 = lower(a.file_name.as_str());
            let s2 = lower(b.file_name.as_str());
            text_before(s1.as_str(), s2.as_str())
        }
    } else if col == 1 {
        a.mtime.is_before(&b.mtime)
    } else if col == 2 {
        a.size < b.size
    } else {
        false
    }
}

/// `sorted` with `x` put in behind every record that does not come
/// after it: in front of the run of records at the end that `x` comes
/// before.
pub open spec fn placed(sorted: Seq<PathRecord>, x: PathRecord, col: usize) -> Seq<PathRecord>
    decreases sorted.len(),
{
    if sorted.len() == 0 {
        seq![x]
    } else if before(x, sorted.last(), col) {
        placed(sorted.drop_last(), x, col).push(sorted.last())
    } else {
        sorted.push(x)
    }
}

/// The records in the order of column `col`, records that the order
/// does not tell apart staying in the order of the listing.
pub open spec fn sorted_by(paths: Seq<PathRecord>, col: usize) -> Seq<PathRecord>
    decreases paths.len(),
{
    if paths.len() == 0 {
        Seq::empty()
    } else {
        placed(sorted_by(paths.drop_last(), col), paths.last(), col)
    }
}

/// The records last to first.
pub open spec fn flipped(paths: Seq<PathRecord>) -> Seq<PathRecord> {
    Seq::new(paths.len(), |i: int| paths[paths.len() - 1 - i])
}

/// The records in the order of column `col`, rising or falling.
pub open spec fn arranged(paths: Seq<PathRecord>, col: usize, ascending: bool) -> Seq<PathRecord> {
    if ascending {
        sorted_by(paths, col)
    } else {
        flipped(sorted_by(paths, col))
    }
}

/// Putting a record in adds one record.
pub proof fn lemma_placed_len(sorted: Seq<PathRecord>, x: PathRecord, col: usize)
    ensures
        placed(sorted, x, col).len() == sorted.len() + 1,
    decreases sorted.len(),
{
    if sorted.len() > 0 && before(x, sorted.last(), col) {
        lemma_placed_len(sorted.drop_last(), x, col);
    }
}

/// Ordering the records neither adds nor drops one.
pub proof fn lemma_arranged_len(paths: Seq<PathRecord>, col: usize, ascending: bool)
    ensures
        sorted_by(paths, col).len() == paths.len(),
        arranged(paths, col, ascending).len() == paths.len(),
    decreases paths.len(),
{
    if paths.len() > 0 {
        lemma_arranged_len(paths.drop_last(), col, ascending);
        lemma_placed_len(sorted_by(paths.drop_last(), col), paths.last(), col);
    }
}

/// Dictionary order on bytes is a strict order in which any two strings
/// can be compared: no two come before each other, and what comes
/// before neither of two strings in a row comes not before the last.
pub proof fn lemma_bytes_order(a: Seq<u8>, b: Seq<u8>, c: Seq<u8>)
    ensures
        !(bytes_before(a, b) && bytes_before(b, a)),
        !bytes_before(a, b) && !bytes_before(b, c) ==> !bytes_before(a, c),
    decreases a.len(),
{
    if a.len() > 0 && b.len() > 0 {
        lemma_bytes_order(a.drop_first(), b.drop_first(), b.drop_first());
        if c.len() > 0 {
            lemma_bytes_order(a.drop_first(), b.drop_first(), c.drop_first());
        }
    }
}

/// The order of a column is a strict order of the same kind: no two
/// records come before each other, and a record that does not come
/// before a second, which does not come before a third, does not come
/// before the third.
pub proof fn lemma_before_order(a: PathRecord, b: PathRecord, c: PathRecord, col: usize)
    ensures
        !(before(a, b, col) && before(b, a, col)),
        !before(a, b, col) && !before(b, c, col) ==> !before(a, c, col),
{
    lemma_bytes_order(a.name_key(), b.name_key(), c.name_key());
}

/// Whether no record of `s` comes before one that stands in front of it.
pub open spec fn ordered(s: Seq<PathRecord>, col: usize) -> bool {
    forall|i: int, j: int| 0 <= i < j < s.len() ==> !before(#[trigger] s[j], #[trigger] s[i], col)
}

/// Putting a record in brings in that record and no other.
pub proof fn lemma_placed_holds(sorted: Seq<PathRecord>, x: PathRecord, col: usize)
    ensures
        placed(sorted, x, col).to_multiset() =~= sorted.to_multiset().insert(x),
        forall|k: int|
            0 <= k < placed(sorted, x, col).len() ==> (#[trigger] placed(sorted, x, col)[k]) == x
                || sorted.contains(placed(sorted, x, col)[k]),
    decreases sorted.len(),
{
    broadcast use vstd::seq_lib::group_to_multiset_ensures;

    let out = placed(sorted, x, col);
    if sorted.len() == 0 {
        assert(seq![x] =~= Seq::<PathRecord>::empty().push(x));
    } else if before(x, sorted.last(), col) {
        let head = sorted.drop_last();
        lemma_placed_holds(head, x, col);
        lemma_placed_len(head, x, col);
        assert(sorted =~= head.push(sorted.last()));
        assert forall|k: int| 0 <= k < out.len() implies (#[trigger] out[k]) == x
            || sorted.contains(out[k]) by {
            if k < out.len() - 1 {
                let inner = placed(head, x, col)[k];
                assert(out[k] == inner);
                if inner != x {
                    let i = choose|i: int| 0 <= i < head.len() && head[i] == inner;
                    assert(sorted[i] == inner);
                }
            } else {
                assert(out[k] == sorted[sorted.len() - 1]);
            }
        }
    } else {
        assert forall|k: int| 0 <= k < out.len() implies (#[trigger] out[k]) == x
            || sorted.contains(out[k]) by {
            if k < sorted.len() {
                assert(sorted[k] == out[k]);
            }
        }
    }
}

/// Putting a record into ordered records leaves them ordered.
pub proof fn lemma_placed_ordered(sorted: Seq<PathRecord>, x: PathRecord, col: usize)
    requires
        ordered(sorted, col),
    ensures
        ordered(placed(sorted, x, col), col),
    decreases sorted.len(),
{
    let out = placed(sorted, x, col);
    lemma_placed_len(sorted, x, col);
    if sorted.len() == 0 {
    } else if before(x, sorted.last(), col) {
        let head = sorted.drop_last();
        let last = sorted.last();
        assert(ordered(head, col)) by {
            assert forall|i: int, j: int| 0 <= i < j < head.len() implies !before(
                #[trigger] head[j],
                #[trigger] head[i],
                col,
            ) by {
                assert(head[j] == sorted[j] && head[i] == sorted[i]);
            }
        }
        lemma_placed_ordered(head, x, col);
        lemma_placed_holds(head, x, col);
        lemma_placed_len(head, x, col);
        let inner = placed(head, x, col);
        assert forall|i: int, j: int| 0 <= i < j < out.len() implies !before(
            #[trigger] out[j],
            #[trigger] out[i],
            col,
        ) by {
            if j < out.len() - 1 {
                assert(out[j] == inner[j] && out[i] == inner[i]);
            } else {
                assert(out[j] == last);
                assert(out[i] == inner[i]);
                if inner[i] == x {
                    lemma_before_order(x, last, last, col);
                } else {
                    let k = choose|k: int| 0 <= k < head.len() && head[k] == inner[i];
                    assert(sorted[k] == inner[i]);
                    assert(last == sorted[sorted.len() - 1]);
                }
            }
        }
    } else {
        let last = sorted.last();
        assert forall|i: int, j: int| 0 <= i < j < out.len() implies !before(
            #[trigger] out[j],
            #[trigger] out[i],
            col,
        ) by {
            if j < sorted.len() {
                assert(out[j] == sorted[j] && out[i] == sorted[i]);
            } else {
                assert(out[j] == x);
                assert(out[i] == sorted[i]);
                if i < sorted.len() - 1 {
                    assert(last == sorted[sorted.len() - 1]);
                    lemma_before_order(x, last, sorted[i], col);
                }
            }
        }
    }
}

/// The rows in the order of a column hold the records of the listing,
/// each as often as the listing does, and none of them comes before one
/// that stands in front of it.
pub proof fn lemma_sorted_by_sorts(paths: Seq<PathRecord>, col: usize)
    ensures
        sorted_by(paths, col).to_multiset() =~= paths.to_multiset(),
        ordered(sorted_by(paths, col), col),
    decreases paths.len(),
{
    broadcast use vstd::seq_lib::group_to_multiset_ensures;

    if paths.len() > 0 {
        let head = paths.drop_last();
        lemma_sorted_by_sorts(head, col);
        lemma_placed_holds(sorted_by(head, col), paths.last(), col);
        lemma_placed_ordered(sorted_by(head, col), paths.last(), col);
        assert(paths =~= head.push(paths.last()));
    }
}

/// A record that does not come before the last of the records is put
/// behind all of them, so that records the order does not tell apart
/// stay in the order in which they were put in.
pub proof fn lemma_placed_is_stable(sorted: Seq<PathRecord>, x: PathRecord, col: usize)
    requires
        sorted.len() > 0,
        !before(x, sorted.last(), col),
    ensures
        placed(sorted, x, col) == sorted.push(x),
{
}

/// Puts `x` into `out` behind every record that does not come after it.
fn place(out: &mut Vec<PathRecord>, x: PathRecord, col: usize)
    ensures
        final(out)@ == placed(old(out)@, x, col),
{
    let mut j = out.len();
    let mut found = false;
    assert(out@.take(j as int) =~= out@ && out@.skip(j as int) =~= Seq::<PathRecord>::empty());
    assert(placed(out@, x, col) =~= placed(out@.take(j as int), x, col) + out@.skip(j as int));
    while !found && j > 0
        invariant
            j <= out@.len(),
            out@ == old(out)@,
            placed(out@, x, col) == placed(out@.take(j as int), x, col) + out@.skip(j as int),
            found ==> j > 0 && !before(x, out@[j - 1], col),
        decreases j + (if found { 0int } else { 1int }),
    {
        if comes_before(&x, &out[j - 1], col) {
            proof {
                let head = out@.take(j as int);
                assert(head.drop_last() =~= out@.take(j - 1));
                assert(head.last() == out@[j - 1]);
                assert(placed(head, x, col) + out@.skip(j as int) =~= placed(
                    out@.take(j - 1),
                    x,
                    col,
                ) + out@.skip(j - 1));
            }
            j -= 1;
        } else {
            found = true;
        }
    }
    proof {
        let head = out@.take(j as int);
        if j > 0 {
            assert(head.last() == out@[j - 1]);
        }
        assert(placed(head, x, col) + out@.skip(j as int) =~= out@.insert(j as int, x));
    }
    out.insert(j, x);
}

/// The records in the order of column `col`.
fn sorted_copy(paths: &Vec<PathRecord>, col: usize) -> (out: Vec<PathRecord>)
    ensures
        out@ == sorted_by(paths@, col),
{
    let mut out: Vec<PathRecord> = Vec::new();
    let mut i: usize = 0;
    assert(paths@.take(0) =~= Seq::<PathRecord>::empty());
    while i < paths.len()
        invariant
            i <= paths@.len(),
            out@ == sorted_by(paths@.take(i as int), col),
        decreases paths@.len() - i,
    {
        assert(paths@.take(i + 1).drop_last() =~= paths@.take(i as int));
        place(&mut out, paths[i].clone(), col);
        i += 1;
    }
    assert(paths@.take(i as int) =~= paths@);
    out
}

/// The records last to first.
fn flipped_copy(paths: &Vec<PathRecord>) -> (out: Vec<PathRecord>)
    ensures
        out@ == flipped(paths@),
{
    let mut out: Vec<PathRecord> = Vec::new();
    let mut i: usize = paths.len();
    while i > 0
        invariant
            i <= paths@.len(),
            out@.len() == paths@.len() - i,
            forall|k: int| 0 <= k < out@.len() ==> out@[k] == paths@[paths@.len() - 1 - k],
        decreases i,
    {
        i -= 1;
        out.push(paths[i].clone());
    }
    assert(out@ =~= flipped(paths@));
    out
}

/// The number of the column.
pub open spec fn column_index(col: SortColumn) -> usize {
    match col {
        SortColumn::Name => 0,
        SortColumn::MTime => 1,
        SortColumn::Size => 2,
    }
}

/// The cursor kept on the sheet: the last row if it ran past the end,
/// the first if there is no row.
pub open spec fn clamped(cursor: int, len: int) -> int {
    if cursor >= len {
        if len > 0 {
            len - 1
        } else {
            0
        }
    } else {
        cursor
    }
}

/// The scroll position that follows the cursor. A view of at most ten
/// rows starts one row above the cursor. A larger view moves just far
/// enough to keep five rows between the cursor and either edge, and
/// stops where the last row reaches the bottom.
pub open spec fn following(cursor: int, scroll: int, len: int, recent: int) -> int {
    if recent <= 2 * SCROLL_PADDING {
        if cursor > 0 {
            cursor - 1
        } else {
            cursor
        }
    } else {
        let near = if cursor < scroll + SCROLL_PADDING {
            if cursor > SCROLL_PADDING {
                cursor - SCROLL_PADDING
            } else {
                0
            }
        } else if cursor + SCROLL_PADDING + 1 > scroll + recent {
            cursor + SCROLL_PADDING + 1 - recent
        } else {
            scroll
        };
        if near + recent > len {
            if len < recent {
                0
            } else {
                len - recent
            }
        } else {
            near
        }
    }
}

/// The scroll position after the wheel turned by `amount` notches of
/// five rows: not above the first row, and not further down than where
/// the last row reaches the bottom of the view.
pub open spec fn scrolled(scroll: int, amount: int, len: int, recent: int) -> int {
    let turned = if scroll + amount * SCROLL_PADDING < 0 {
        0
    } else {
        scroll + amount * SCROLL_PADDING
    };
    if len <= recent {
        0
    } else if turned > len - recent {
        len - recent
    } else {
        turned
    }
}

/// Whether the pixel `(x, y)` lies in the area the rows were drawn in.
pub open spec fn on_rows(fb: RenderFeedback, x: i32, y: i32) -> bool {
    fb.start_rows.0 <= x <= fb.end_rows.0 && fb.start_rows.1 <= y <= fb.end_rows.1
}

/// The row drawn at height `y`.
pub open spec fn row_at(fb: RenderFeedback, y: i32) -> int {
    fb.row_offset + (y - fb.start_rows.1) / (fb.row_height as int)
}

impl PathSheet {
    /// Orders the rows by column `col_idx`, rising or falling, and keeps
    /// the cursor on the record it was on.
    pub fn sort_by_column(&mut self, col_idx: usize, ascending: bool)
        requires
            old(self).wf(),
        ensures
            final(self).paths@ == arranged(old(self).paths@, col_idx, ascending),
            final(self).cursor_idx == row_of_path(
                final(self).paths@,
                old(self).paths@[old(self).cursor_idx as int].path@,
            ),
            final(self).paths_dirty,
            final(self).wf(),
            final(self).base == old(self).base,
            final(self).state_dirty == old(self).state_dirty,
            final(self).scroll_offset == old(self).scroll_offset,
            final(self).sort_col_idx == old(self).sort_col_idx,
            final(self).sort_col_dir == old(self).sort_col_dir,
            final(self).selection == old(self).selection,
            final(self).highlight == old(self).highlight,
            final(self).render_feedback == old(self).render_feedback,
    {
        let old_refs = self.get_index_refs();
        let sorted = sorted_copy(&self.paths, col_idx);
        if ascending {
            self.paths = sorted;
        } else {
            self.paths = flipped_copy(&sorted);
        }
        proof {
            lemma_arranged_len(old(self).paths@, col_idx, ascending);
        }
        self.select_index_refs(&old_refs);
        self.paths_dirty = true;
    }

    /// Orders the rows by column `col_idx`: rising if the rows were
    /// ordered by another column, and the other way round than before if
    /// they were ordered by this one.
    pub fn toggle_sort_by_column(&mut self, col_idx: usize)
        requires
            old(self).wf(),
        ensures
            final(self).sort_col_idx == col_idx,
            final(self).sort_col_dir == (old(self).sort_col_idx != col_idx || !old(self).sort_col_dir),
            final(self).paths@ == arranged(old(self).paths@, col_idx, final(self).sort_col_dir),
            final(self).cursor_idx == row_of_path(
                final(self).paths@,
                old(self).paths@[old(self).cursor_idx as int].path@,
            ),
            final(self).paths_dirty,
            final(self).wf(),
            final(self).base == old(self).base,
            final(self).state_dirty == old(self).state_dirty,
            final(self).scroll_offset == old(self).scroll_offset,
            final(self).selection == old(self).selection,
            final(self).highlight == old(self).highlight,
            final(self).render_feedback == old(self).render_feedback,
    {
        if self.sort_col_idx == col_idx {
            self.sort_col_dir = !self.sort_col_dir;
        } else {
            self.sort_col_idx = col_idx;
            self.sort_col_dir = true;
        }
        let ascending = self.sort_col_dir;
        self.sort_by_column(col_idx, ascending);
    }

    /// Takes up a fresh listing of the directory: orders it as the rows
    /// were ordered and keeps the cursor on the path it was on, or puts
    /// it on the first row if that path is gone. A listing that failed
    /// is handed back as the error, and the sheet stays as it was.
    pub fn update(&mut self, listing: Result<Vec<PathRecord>, FMError>) -> (r: Result<(), FMError>)
        requires
            old(self).wf(),
            listing matches Ok(records) ==> old(self).fits(records@.len()),
        ensures
            listing matches Err(e) ==> r == Err::<(), FMError>(e) && *final(self) == *old(self),
            listing matches Ok(records) ==> {
                &&& r is Ok
                &&& final(self).paths@ == arranged(
                    records@,
                    old(self).sort_col_idx,
                    old(self).sort_col_dir,
                )
                &&& final(self).cursor_idx == row_of_path(
                    final(self).paths@,
                    old(self).paths@[old(self).cursor_idx as int].path@,
                )
                &&& final(self).paths_dirty
                &&& final(self).state_dirty
                &&& final(self).wf()
                &&& final(self).base == old(self).base
                &&& final(self).scroll_offset == old(self).scroll_offset
                &&& final(self).sort_col_idx == old(self).sort_col_idx
                &&& final(self).sort_col_dir == old(self).sort_col_dir
                &&& final(self).selection == old(self).selection
                &&& final(self).highlight == old(self).highlight
                &&& final(self).render_feedback == old(self).render_feedback
            },
    {
        let old_refs = self.get_index_refs();
        let records = match listing {
            Ok(records) => records,
            Err(e) => {
                return Err(e);
            },
        };
        self.paths = records;
        self.paths_dirty = true;
        self.state_dirty = true;
        let col_idx = self.sort_col_idx;
        let ascending = self.sort_col_dir;
        self.sort_by_column(col_idx, ascending);
        self.select_index_refs(&old_refs);
        Ok(())
    }

    /// A sheet of the directory `base` from its listing: ordered by
    /// name, with the cursor on the entry that was listed first. A
    /// listing that failed is handed back as the error.
    pub fn read(base: &str, listing: Result<Vec<PathRecord>, FMError>) -> (r: Result<
        PathSheet,
        FMError,
    >)
        requires
            listing matches Ok(records) ==> records@.len() > 0,
        ensures
            listing matches Err(e) ==> r == Err::<PathSheet, FMError>(e),
            listing matches Ok(records) ==> r matches Ok(sheet) && {
                &&& sheet.base@ == base@
                &&& sheet.paths@ == sorted_by(records@, 0)
                &&& sheet.cursor_idx == row_of_path(sheet.paths@, records@[0].path@)
                &&& sheet.scroll_offset == 0
                &&& sheet.sort_col_idx == 0
                &&& sheet.sort_col_dir
                &&& sheet.paths_dirty
                &&& !sheet.state_dirty
                &&& sheet.selection@ == Set::<usize>::empty()
                &&& sheet.highlight@ == Set::<usize>::empty()
                &&& sheet.render_feedback == (RenderFeedback {
                    recent_line_count: 0,
                    row_offset: 0,
                    start_rows: (0, 0),
                    row_height: 0,
                    end_rows: (0, 0),
                })
                &&& sheet.wf()
            },
    {
        let records = match listing {
            Ok(records) => records,
            Err(e) => {
                return Err(e);
            },
        };
        let mut ps = PathSheet {
            base: base.to_owned(),
            paths: records,
            cursor_idx: 0,
            scroll_offset: 0,
            sort_col_idx: 0,
            sort_col_dir: true,
            render_feedback: RenderFeedback {
                recent_line_count: 0,
                row_offset: 0,
                start_rows: (0, 0),
                row_height: 0,
                end_rows: (0, 0),
            },
            selection: HashSet::new(),
            highlight: HashSet::new(),
            paths_dirty: false,
            state_dirty: false,
        };
        ps.sort_by_column(0, true);
        Ok(ps)
    }

    /// Whether the sums that following the cursor takes stay within the
    /// machine's integers, on a sheet of `len` rows.
    pub open spec fn roomy(&self, len: nat) -> bool {
        &&& len + SCROLL_PADDING <= usize::MAX
        &&& self.scroll_offset + SCROLL_PADDING <= usize::MAX
        &&& self.scroll_offset + self.render_feedback.recent_line_count <= usize::MAX
    }

    /// Whether the sheet can be given the control `ctrl`: the indices it
    /// holds name rows where the control reads them, a click finds rows
    /// of some height, and no sum leaves the machine's integers.
    pub open spec fn can_control(&self, ctrl: PageControl) -> bool {
        match ctrl {
            PageControl::ToggleSortBy(_) => self.wf() && self.roomy(self.paths@.len()),
            PageControl::Update(records) => self.wf() && self.fits(records@.len()) && self.roomy(
                records@.len(),
            ),
            PageControl::CursorDown => self.cursor_idx < usize::MAX && self.roomy(self.paths@.len()),
            PageControl::Click((x, y)) => on_rows(self.render_feedback, x, y) ==> {
                &&& self.render_feedback.row_height > 0
                &&& y - self.render_feedback.start_rows.1 <= i32::MAX
                &&& row_at(self.render_feedback, y) <= usize::MAX
                &&& self.roomy(self.paths@.len())
            },
            PageControl::Scroll(amount) => {
                &&& i32::MIN < amount * SCROLL_PADDING <= i32::MAX
                &&& self.scroll_offset + amount * SCROLL_PADDING <= usize::MAX
            },
            _ => self.roomy(self.paths@.len()),
        }
    }

    /// The rows after the control `ctrl`.
    pub open spec fn rows_after(&self, ctrl: PageControl) -> Seq<PathRecord> {
        match ctrl {
            PageControl::ToggleSortBy(col) => arranged(
                self.paths@,
                column_index(col),
                self.sort_col_idx != column_index(col) || !self.sort_col_dir,
            ),
            PageControl::Update(records) => arranged(records@, self.sort_col_idx, self.sort_col_dir),
            _ => self.paths@,
        }
    }

    /// Where the control `ctrl` puts the cursor, before the cursor is
    /// kept on the sheet.
    pub open spec fn cursor_after(&self, ctrl: PageControl) -> int {
        match ctrl {
            PageControl::ToggleSortBy(_) | PageControl::Update(_) => row_of_path(
                self.rows_after(ctrl),
                self.paths@[self.cursor_idx as int].path@,
            ),
            PageControl::CursorDown => self.cursor_idx + 1,
            PageControl::CursorUp => if self.cursor_idx > 0 {
                self.cursor_idx - 1
            } else {
                0
            },
            PageControl::Click((x, y)) => if on_rows(self.render_feedback, x, y) {
                row_at(self.render_feedback, y)
            } else {
                self.cursor_idx as int
            },
            _ => self.cursor_idx as int,
        }
    }

    /// Whether the control `ctrl` ends with the scroll position following
    /// the cursor: every control does but a turn of the wheel and a click
    /// beside the rows.
    pub open spec fn settles(&self, ctrl: PageControl) -> bool {
        match ctrl {
            PageControl::Scroll(_) => false,
            PageControl::Click((x, y)) => on_rows(self.render_feedback, x, y),
            _ => true,
        }
    }

    /// Keeps the cursor on the sheet and lets the scroll position follow it.
    fn settle(&mut self)
        requires
            old(self).roomy(old(self).paths@.len()),
        ensures
            final(self).cursor_idx == clamped(
                old(self).cursor_idx as int,
                old(self).paths@.len() as int,
            ),
            final(self).scroll_offset == following(
                final(self).cursor_idx as int,
                old(self).scroll_offset as int,
                old(self).paths@.len() as int,
                old(self).render_feedback.recent_line_count as int,
            ),
            final(self).paths == old(self).paths,
            final(self).base == old(self).base,
            final(self).paths_dirty == old(self).paths_dirty,
            final(self).state_dirty == old(self).state_dirty,
            final(self).sort_col_idx == old(self).sort_col_idx,
            final(self).sort_col_dir == old(self).sort_col_dir,
            final(self).selection == old(self).selection,
            final(self).highlight == old(self).highlight,
            final(self).render_feedback == old(self).render_feedback,
    {
        let len = self.paths.len();
        if self.cursor_idx >= len {
            self.cursor_idx = if len > 0 {
                len - 1
            } else {
                0
            };
        }
        let recent_linecnt = self.render_feedback.recent_line_count;
        if recent_linecnt <= 2 * SCROLL_PADDING {
            if self.cursor_idx > 0 {
                self.scroll_offset = self.cursor_idx - 1;
            } else {
                self.scroll_offset = self.cursor_idx;
            }
        } else {
            if self.cursor_idx < (self.scroll_offset + SCROLL_PADDING) {
                let diff = (self.scroll_offset + SCROLL_PADDING) - self.cursor_idx;
                if self.scroll_offset > diff {
                    self.scroll_offset -= diff;
                } else {
                    self.scroll_offset = 0;
                }
            } else if (self.cursor_idx + SCROLL_PADDING + 1) > (self.scroll_offset + recent_linecnt) {
                self.scroll_offset += (self.cursor_idx + SCROLL_PADDING + 1) - (self.scroll_offset
                    + recent_linecnt);
            }
            if (self.scroll_offset + recent_linecnt) > len {
                if len < recent_linecnt {
                    self.scroll_offset = 0;
                } else {
                    self.scroll_offset = len - recent_linecnt;
                }
            }
        }
    }
}

/// The text of a point in time in UTC written by a pattern of chrono's,
/// or `None` for a time the calendar does not reach.
pub uninterp spec fn utc_timestamp_text(secs: i64, nanos: u32, pattern: Seq<char>) -> Option<
    Seq<char>,
>;

/// The pattern by which the sheet writes a time: year-month-day and
/// hour:minute:second.
pub open spec fn time_pattern() -> Seq<char> {
    "%Y-%m-%d %H:%M:%S"@
}

/// Calls chrono's `DateTime::from_timestamp` and, where that gives a
/// date, `format` with `pattern`. The result is named, not described: it
/// depends on the two numbers and the pattern alone, since the time zone
/// is fixed to UTC. Only the sheet's own pattern is admitted, for which
/// the formatter writes digits and cannot fail.
#[verifier::external_body]
fn utc_text(secs: i64, nanos: u32, pattern: &str) -> (text: Option<String>)
    requires
        pattern@ == time_pattern(),
    ensures
        text.is_some() == utc_timestamp_text(secs, nanos, pattern@).is_some(),
        text matches Some(t) ==> utc_timestamp_text(secs, nanos, pattern@) == Some(t@),
{
    match chrono::DateTime::from_timestamp(secs, nanos) {
        Some(t) => Some(t.format(pattern).to_string()),
        None => None,
    }
}

/// The character of a decimal digit.
pub open spec fn digit(d: nat) -> char {
    if d == 0 {
        '0'
    } else if d == 1 {
        '1'
    } else if d == 2 {
        '2'
    } else if d == 3 {
        '3'
    } else if d == 4 {
        '4'
    } else if d == 5 {
        '5'
    } else if d == 6 {
        '6'
    } else if d == 7 {
        '7'
    } else if d == 8 {
        '8'
    } else {
        '9'
    }
}

/// A number in decimal digits, without leading zeros.
pub open spec fn decimal(n: nat) -> Seq<char>
    decreases n,
{
    if n < 10 {
        seq![digit(n)]
    } else {
        decimal(n / 10).push(digit(n % 10))
    }
}

/// The decimal digit `d` as a text of one character.
fn digit_text(d: u64) -> (text: &'static str)
    requires
        d < 10,
    ensures
        text@ == seq![digit(d as nat)],
{
    proof {
        reveal_strlit("0");
        reveal_strlit("1");
        reveal_strlit("2");
        reveal_strlit("3");
        reveal_strlit("4");
        reveal_strlit("5");
        reveal_strlit("6");
        reveal_strlit("7");
        reveal_strlit("8");
        reveal_strlit("9");
    }
    let text = if d == 0 {
        "0"
    } else if d == 1 {
        "1"
    } else if d == 2 {
        "2"
    } else if d == 3 {
        "3"
    } else if d == 4 {
        "4"
    } else if d == 5 {
        "5"
    } else if d == 6 {
        "6"
    } else if d == 7 {
        "7"
    } else if d == 8 {
        "8"
    } else {
        "9"
    };
    assert(text@ =~= seq![digit(d as nat)]);
    text
}

/// A number in decimal digits, without leading zeros.
pub fn decimal_text(n: u64) -> (text: String)
    ensures
        text@ == decimal(n as nat),
    decreases n,
{
    if n < 10 {
        digit_text(n).to_owned()
    } else {
        decimal_text(n / 10).concat(digit_text(n % 10))
    }
}

/// Reads `std::path::MAIN_SEPARATOR`, the character that parts the
/// components of a path on the machine the program runs on, as a text.
/// Which character it is depends on the machine; that it is one
/// character holds on all of them.
#[verifier::external_body]
fn separator_text() -> (sep: String)
    ensures
        sep@.len() == 1,
{
    std::path::MAIN_SEPARATOR.to_string()
}

/// The style a record's name is painted in.
pub open spec fn name_style(kind: PathRecordType) -> Style {
    match kind {
        PathRecordType::File => Style::File,
        PathRecordType::Dir => Style::Dir,
        PathRecordType::SymLink => Style::Special,
    }
}

/// The text of a record's name cell: the file name, and behind a
/// directory's name the separator.
pub open spec fn name_cell(r: PathRecord, sep: Seq<char>) -> Seq<char> {
    if r.is_dir() {
        r.file_name@ + sep
    } else {
        r.file_name@
    }
}

/// Whether `col` is a column headed `head`, as wide as the sample
/// `sample`, with one cell for each record.
pub open spec fn sample_column(col: Column, head: Seq<char>, sample: Seq<char>, rows: nat) -> bool {
    &&& col.head@ == head
    &&& col.size matches ColumnSizing::TextWidth(w) && w@ == sample
    &&& col.calc_size.is_none()
    &&& col.rows@.len() == rows
}

impl PathSheet {
    /// Whether the time of every record can be written as a date.
    pub open spec fn times_known(&self) -> bool {
        forall|i: int|
            0 <= i < self.paths@.len() ==> (#[trigger] utc_timestamp_text(
                self.paths@[i].mtime.secs,
                self.paths@[i].mtime.nanos,
                time_pattern(),
            )).is_some()
    }

    /// Whether `t` is the sheet as a table, with `sep` behind the names
    /// of directories: the title is the directory, and the three
    /// columns hold name, time and size of each record, row by row.
    pub open spec fn shown_as(&self, sep: Seq<char>, t: Table) -> bool {
        let n = self.paths@.len();
        &&& t.title@ == self.base@
        &&& t.row_gap == 2
        &&& t.col_gap == 4
        &&& t.columns@.len() == 3
        &&& t.columns@[0].head@ == "name"@
        &&& t.columns@[0].size matches ColumnSizing::ExpandFract(share) && share == 1
        &&& t.columns@[0].calc_size.is_none()
        &&& t.columns@[0].rows@.len() == n
        &&& sample_column(t.columns@[1], "time"@, "MMMM-MM-MM MM:MM:MM"@, n)
        &&& sample_column(t.columns@[2], "size"@, "MMMMMM"@, n)
        &&& forall|i: int|
            0 <= i < n ==> {
                &&& (#[trigger] t.columns@[0].rows@[i]).text@ == name_cell(self.paths@[i], sep)
                &&& t.columns@[0].rows@[i].style == name_style(self.paths@[i].path_type)
            }
        &&& forall|i: int|
            0 <= i < n ==> {
                &&& Some((#[trigger] t.columns@[1].rows@[i]).text@) == utc_timestamp_text(
                    self.paths@[i].mtime.secs,
                    self.paths@[i].mtime.nanos,
                    time_pattern(),
                )
                &&& t.columns@[1].rows@[i].style == Style::Default
            }
        &&& forall|i: int|
            0 <= i < n ==> {
                &&& (#[trigger] t.columns@[2].rows@[i]).text@ == decimal(self.paths@[i].size as nat)
                &&& t.columns@[2].rows@[i].style == Style::Default
            }
    }

    /// The sheet as a table, with `sep` behind the names of directories.
    pub fn draw_page_with(&self, sep: &str) -> (t: Table)
        requires
            self.times_known(),
        ensures
            self.shown_as(sep@, t),
    {
        let mut names: Vec<StyleString> = Vec::new();
        let mut times: Vec<StyleString> = Vec::new();
        let mut sizes: Vec<StyleString> = Vec::new();
        let mut i: usize = 0;
        while i < self.paths.len()
            invariant
                i <= self.paths@.len(),
                self.times_known(),
                names@.len() == i,
                times@.len() == i,
                sizes@.len() == i,
                forall|k: int|
                    0 <= k < i ==> {
                        &&& (#[trigger] names@[k]).text@ == name_cell(self.paths@[k], sep@)
                        &&& names@[k].style == name_style(self.paths@[k].path_type)
                    },
                forall|k: int|
                    0 <= k < i ==> {
                        &&& Some((#[trigger] times@[k]).text@) == utc_timestamp_text(
                            self.paths@[k].mtime.secs,
                            self.paths@[k].mtime.nanos,
                            time_pattern(),
                        )
                        &&& times@[k].style == Style::Default
                    },
                forall|k: int|
                    0 <= k < i ==> {
                        &&& (#[trigger] sizes@[k]).text@ == decimal(self.paths@[k].size as nat)
                        &&& sizes@[k].style == Style::Default
                    },
            decreases self.paths@.len() - i,
        {
            let p = &self.paths[i];
            let name = match p.path_type {
                PathRecordType::Dir => p.file_name.clone().concat(sep),
                _ => p.file_name.clone(),
            };
            let style = match p.path_type {
                PathRecordType::File => Style::File,
                PathRecordType::Dir => Style::Dir,
                PathRecordType::SymLink => Style::Special,
            };
            names.push(StyleString { text: name, style });
            assert(utc_timestamp_text(
                self.paths@[i as int].mtime.secs,
                self.paths@[i as int].mtime.nanos,
                time_pattern(),
            ).is_some());
            let time = match utc_text(p.mtime.secs, p.mtime.nanos, "%Y-%m-%d %H:%M:%S") {
                Some(text) => text,
                None => String::new(),
            };
            times.push(StyleString { text: time, style: Style::Default });
            sizes.push(StyleString { text: decimal_text(p.size), style: Style::Default });
            i += 1;
        }
        let mut columns: Vec<Column> = Vec::new();
        columns.push(
            Column {
                head: "name".to_owned(),
                size: ColumnSizing::ExpandFract(1),
                calc_size: None,
                rows: names,
            },
        );
        columns.push(
            Column {
                head: "time".to_owned(),
                size: ColumnSizing::TextWidth("MMMM-MM-MM MM:MM:MM".to_owned()),
                calc_size: None,
                rows: times,
            },
        );
        columns.push(
            Column {
                head: "size".to_owned(),
                size: ColumnSizing::TextWidth("MMMMMM".to_owned()),
                calc_size: None,
                rows: sizes,
            },
        );
        Table { title: self.base.clone(), row_gap: 2, col_gap: 4, columns }
    }

    /// The sheet as a table, if the time of every record can be written
    /// as a date, and `None` if not.
    pub fn try_as_draw_page(&self) -> (page: Option<Table>)
        ensures
            page.is_some() == self.times_known(),
            page.is_some() ==> exists|sep: Seq<char>|
                sep.len() == 1 && #[trigger] self.shown_as(sep, page.unwrap()),
    {
        let mut i: usize = 0;
        while i < self.paths.len()
            invariant
                i <= self.paths@.len(),
                forall|k: int|
                    0 <= k < i ==> (#[trigger] utc_timestamp_text(
                        self.paths@[k].mtime.secs,
                        self.paths@[k].mtime.nanos,
                        time_pattern(),
                    )).is_some(),
            decreases self.paths@.len() - i,
        {
            if utc_text(self.paths[i].mtime.secs, self.paths[i].mtime.nanos, "%Y-%m-%d %H:%M:%S").is_none() {
                return None;
            }
            i += 1;
        }
        let sep = separator_text();
        let t = self.draw_page_with(sep.as_str());
        let page = Some(t);
        assert(self.shown_as(sep@, page.unwrap()));
        page
    }
}

impl FmPage for PathSheet {
    open spec fn drawable(&self) -> bool {
        self.times_known()
    }

    open spec fn controllable(&self, ctrl: PageControl) -> bool {
        self.can_control(ctrl)
    }

    open spec fn sortable(&self) -> bool {
        self.wf()
    }

    fn len(&self) -> (n: usize)
        ensures
            n == self.paths@.len(),
    {
        self.paths.len()
    }

    /// The sheet as a table, with the separator of this machine's paths
    /// behind the names of directories.
    fn as_draw_page(&self) -> (t: Table)
        ensures
            exists|sep: Seq<char>| sep.len() == 1 && #[trigger] self.shown_as(sep, t),
    {
        let sep = separator_text();
        let t = self.draw_page_with(sep.as_str());
        assert(self.shown_as(sep@, t));
        t
    }

    fn get_scroll_offs(&self) -> (offs: usize)
        ensures
            offs == self.scroll_offset,
    {
        self.scroll_offset
    }

    /// Carries out the control: a turn of the wheel moves the view; a
    /// click beside the rows does nothing; anything else moves the
    /// cursor or the rows, keeps the cursor on the sheet, and lets the
    /// view follow the cursor.
    fn do_control(&mut self, ctrl: PageControl)
        ensures
            final(self).paths@ == old(self).rows_after(ctrl),
            old(self).settles(ctrl) ==> {
                &&& final(self).cursor_idx == clamped(
                    old(self).cursor_after(ctrl),
                    final(self).paths@.len() as int,
                )
                &&& final(self).scroll_offset == following(
                    final(self).cursor_idx as int,
                    old(self).scroll_offset as int,
                    final(self).paths@.len() as int,
                    old(self).render_feedback.recent_line_count as int,
                )
            },
            !old(self).settles(ctrl) ==> final(self).cursor_idx == old(self).cursor_idx,
            ctrl matches PageControl::Scroll(amount) ==> final(self).scroll_offset == scrolled(
                old(self).scroll_offset as int,
                amount as int,
                old(self).paths@.len() as int,
                old(self).render_feedback.recent_line_count as int,
            ),
            ctrl is Click && !old(self).settles(ctrl) ==> final(self).scroll_offset == old(
                self,
            ).scroll_offset,
            ctrl matches PageControl::ToggleSortBy(col) ==> final(self).sort_col_idx
                == column_index(col) && final(self).sort_col_dir == (old(self).sort_col_idx
                != column_index(col) || !old(self).sort_col_dir),
            !(ctrl is ToggleSortBy) ==> final(self).sort_col_idx == old(self).sort_col_idx
                && final(self).sort_col_dir == old(self).sort_col_dir,
            final(self).paths_dirty == (old(self).paths_dirty || ctrl is ToggleSortBy
                || ctrl is Update),
            final(self).state_dirty == (old(self).state_dirty || ctrl is Update),
            final(self).base == old(self).base,
            final(self).selection == old(self).selection,
            final(self).highlight == old(self).highlight,
            final(self).render_feedback == old(self).render_feedback,
    {
        match ctrl {
            PageControl::ToggleSortBy(col) => {
                match col {
                    SortColumn::Name => self.toggle_sort_by_column(0),
                    SortColumn::MTime => self.toggle_sort_by_column(1),
                    SortColumn::Size => self.toggle_sort_by_column(2),
                }
                proof {
                    lemma_arranged_len(old(self).paths@, column_index(col), self.sort_col_dir);
                }
            },
            PageControl::Update(records) => {
                let updated = self.update(Ok(records));
                proof {
                    lemma_arranged_len(records@, self.sort_col_idx, self.sort_col_dir);
                }
            },
            PageControl::CursorDown => {
                self.cursor_idx += 1;
            },
            PageControl::CursorUp => {
                if self.cursor_idx > 0 {
                    self.cursor_idx -= 1;
                }
            },
            PageControl::Click((x, y)) => {
                let x1 = self.render_feedback.start_rows.0;
                let x2 = self.render_feedback.end_rows.0;
                let y1 = self.render_feedback.start_rows.1;
                let y2 = self.render_feedback.end_rows.1;
                if !(x >= x1 && x <= x2 && y >= y1 && y <= y2) {
                    return ;
                }
                let y = y - y1;
                let row = y / self.render_feedback.row_height;
                assert(0 <= row <= y) by (nonlinear_arith)
                    requires
                        0 <= y,
                        0 < self.render_feedback.row_height,
                        row == y / self.render_feedback.row_height,
                ;
                self.cursor_idx = self.render_feedback.row_offset + row as usize;
            },
            PageControl::Scroll(amount) => {
                let amount = amount * SCROLL_PADDING as i32;
                if amount < 0 && self.scroll_offset < (-amount) as usize {
                    self.scroll_offset = 0;
                } else if amount < 0 {
                    self.scroll_offset -= (-amount) as usize;
                } else {
                    self.scroll_offset += amount as usize;
                }
                let len = self.paths.len();
                let recent = self.render_feedback.recent_line_count;
                if len <= recent {
                    self.scroll_offset = 0;
                } else {
                    if self.scroll_offset > (len - recent) {
                        self.scroll_offset = len - recent;
                    }
                }
                return ;
            },
            _ => {},
        }
        self.settle();
    }

    fn is_cursor_idx(&self, idx: usize) -> (b: bool)
        ensures
            b == (self.cursor_idx == idx),
    {
        self.cursor_idx == idx
    }

    fn is_selected(&self, idx: usize) -> (b: bool)
        ensures
            b == self.selection@.contains(idx),
    {
        self.selection.contains(&idx)
    }

    fn is_highlighted(&self, idx: usize) -> (b: bool)
        ensures
            b == self.highlight@.contains(idx),
    {
        self.highlight.contains(&idx)
    }

    fn needs_repage(&self) -> (b: bool)
        ensures
            b == self.paths_dirty,
    {
        self.paths_dirty
    }

    fn needs_redraw(&self) -> (b: bool)
        ensures
            b == self.state_dirty,
    {
        self.state_dirty
    }

    /// Orders the rows by column `col_idx`: rising if the rows were
    /// ordered by another column, and the other way round than before if
    /// they were ordered by this one.
    fn sort_by_column(&mut self, col_idx: usize)
        ensures
            final(self).sort_col_idx == col_idx,
            final(self).sort_col_dir == (old(self).sort_col_idx != col_idx || !old(self).sort_col_dir),
            final(self).paths@ == arranged(old(self).paths@, col_idx, final(self).sort_col_dir),
    {
        self.toggle_sort_by_column(col_idx);
    }

    fn set_render_feedback(&mut self, fb: RenderFeedback)
        ensures
            final(self).render_feedback == fb,
            final(self).paths == old(self).paths,
            final(self).cursor_idx == old(self).cursor_idx,
            final(self).scroll_offset == old(self).scroll_offset,
            final(self).selection == old(self).selection,
            final(self).highlight == old(self).highlight,
    {
        self.render_feedback = fb;
    }
}

} // verus!
