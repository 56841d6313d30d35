//! The inventory of the files in a managed directory: a table of the path,
//! the size and the times of each file, with one row per path. The rows are
//! kept in the order in which the files are to leave: the file that was
//! last accessed the longest ago comes first.

use super::paths::{absolute_path, relative_path, relative_to, to_absolute_path};
use vstd::prelude::*;

verus! {

/// A file and what the inventory knows of it. Times are in seconds since
/// the UNIX epoch.
#[derive(Clone, Debug, PartialEq, Eq)]
pub struct FileInfo {
    pub path: String,
    pub size_in_bytes: u64,
    pub creation_time: u64,
    pub last_access_time: u64,
}

/// A row of the inventory as a mathematical value.
pub struct FileRow {
    /// The path of the file as seen from the managed directory.
    pub path: Seq<char>,
    pub size_in_bytes: u64,
    pub creation_time: u64,
    pub last_access_time: u64,
}

impl View for FileInfo {
    type V = FileRow;

    open spec fn view(&self) -> FileRow {
        FileRow {
            path: self.path@,
            size_in_bytes: self.size_in_bytes,
            creation_time: self.creation_time,
            last_access_time: self.last_access_time,
        }
    }
}

/// The rows of a list of files.
pub open spec fn rows_view(files: Seq<FileInfo>) -> Seq<FileRow> {
    files.map_values(|file: FileInfo| file@)
}

/// The texts of a list of strings.
pub open spec fn texts_view(texts: Seq<String>) -> Seq<Seq<char>> {
    texts.map_values(|text: String| text@)
}

/// The index of the first row with the path `path`.
pub open spec fn index_of_path(rows: Seq<FileRow>, path: Seq<char>) -> Option<int>
    decreases rows.len(),
{
    if rows.len() == 0 {
        None
    } else if rows[0].path == path {
        Some(0)
    } else {
        match index_of_path(rows.drop_first(), path) {
            Some(index) => Some(index + 1),
            None => None,
        }
    }
}

/// The rows without the row of `path`.
pub open spec fn without_path(rows: Seq<FileRow>, path: Seq<char>) -> Seq<FileRow> {
    match index_of_path(rows, path) {
        Some(index) => rows.remove(index),
        None => rows,
    }
}

/// The number of rows at the front that were last accessed at or before `time`.
pub open spec fn position_after(rows: Seq<FileRow>, time: u64) -> int
    decreases rows.len(),
{
    if rows.len() == 0 || rows[0].last_access_time > time {
        0
    } else {
        1 + position_after(rows.drop_first(), time)
    }
}

/// The rows with `row` in place of the row of its path, if there was one.
/// The row stands after the rows that were last accessed at or before it.
pub open spec fn with_row(rows: Seq<FileRow>, row: FileRow) -> Seq<FileRow> {
    let others = without_path(rows, row.path);
    others.insert(position_after(others, row.last_access_time), row)
}

/// The sizes of the rows together.
pub open spec fn total_size(rows: Seq<FileRow>) -> int
    decreases rows.len(),
{
    if rows.len() == 0 {
        0
    } else {
        total_size(rows.drop_last()) + rows.last().size_in_bytes
    }
}

/// Whether no two rows have one path.
pub open spec fn distinct_paths(rows: Seq<FileRow>) -> bool {
    forall|i: int, j: int|
        0 <= i < j < rows.len() ==> (#[trigger] rows[i]).path != (#[trigger] rows[j]).path
}

/// Whether the rows are in ascending order of their last access.
pub open spec fn sorted_by_access(rows: Seq<FileRow>) -> bool {
    forall|i: int, j: int|
        0 <= i < j < rows.len() ==> (#[trigger] rows[i]).last_access_time <= (
        #[trigger] rows[j]).last_access_time
}

/// Whether the rows are a table: one row per path, in the order of leaving.
pub open spec fn is_table(rows: Seq<FileRow>) -> bool {
    distinct_paths(rows) && sorted_by_access(rows)
}

/// The number of rows at the front that have to leave to free `excess`
/// bytes: rows leave until those that left hold at least `excess` bytes,
/// and at least one row leaves if there is one.
pub open spec fn eviction_count(rows: Seq<FileRow>, excess: int) -> int
    decreases rows.len(),
{
    if rows.len() == 0 {
        0
    } else if rows[0].size_in_bytes >= excess {
        1
    } else {
        1 + eviction_count(rows.drop_first(), excess - rows[0].size_in_bytes)
    }
}

/// The number of rows at the front that were last accessed before `cutoff`.
pub open spec fn aged_count(rows: Seq<FileRow>, cutoff: int) -> int
    decreases rows.len(),
{
    if rows.len() == 0 || rows[0].last_access_time >= cutoff {
        0
    } else {
        1 + aged_count(rows.drop_first(), cutoff)
    }
}

/// The paths of the rows in full.
pub open spec fn absolute_paths(root: Seq<char>, rows: Seq<FileRow>) -> Seq<Seq<char>> {
    rows.map_values(|row: FileRow| absolute_path(root, row.path))
}

/// An inventory as a mathematical value.
pub struct Inventory {
    /// The managed directory.
    pub root: Seq<char>,
    /// The rows, in the order of leaving.
    pub rows: Seq<FileRow>,
}

impl Inventory {
    /// The inventory after `path` was entered with the given size and times;
    /// unchanged where the path does not lie in the managed directory.
    pub open spec fn entered(
        self,
        path: Seq<char>,
        size_in_bytes: u64,
        creation_time: u64,
        last_access_time: u64,
    ) -> Inventory {
        match relative_to(self.root, path) {
            None => self,
            Some(relative) => Inventory {
                root: self.root,
                rows: with_row(
                    self.rows,
                    FileRow { path: relative, size_in_bytes, creation_time, last_access_time },
                ),
            },
        }
    }

    /// The inventory after each of `files` was entered, in order.
    pub open spec fn entered_all(self, files: Seq<FileRow>) -> Inventory
        decreases files.len(),
    {
        if files.len() == 0 {
            self
        } else {
            let file = files.last();
            self.entered_all(files.drop_last()).entered(
                file.path,
                file.size_in_bytes,
                file.creation_time,
                file.last_access_time,
            )
        }
    }

    /// The inventory after `path` was created at `time`.
    pub open spec fn created(self, path: Seq<char>, size_in_bytes: u64, time: u64) -> Inventory {
        self.entered(path, size_in_bytes, time, time)
    }

    /// The inventory after `path` was accessed at `time`; unchanged where
    /// the inventory has no row for the path.
    pub open spec fn accessed(self, path: Seq<char>, time: u64) -> Inventory {
        match relative_to(self.root, path) {
            None => self,
            Some(relative) => match index_of_path(self.rows, relative) {
                None => self,
                Some(index) => Inventory {
                    root: self.root,
                    rows: with_row(
                        self.rows,
                        FileRow {
                            path: relative,
                            size_in_bytes: self.rows[index].size_in_bytes,
                            creation_time: self.rows[index].creation_time,
                            last_access_time: time,
                        },
                    ),
                },
            },
        }
    }

    /// The inventory after `path` was deleted.
    pub open spec fn deleted(self, path: Seq<char>) -> Inventory {
        match relative_to(self.root, path) {
            None => self,
            Some(relative) => Inventory {
                root: self.root,
                rows: without_path(self.rows, relative),
            },
        }
    }

    /// The size of all files together, as far as a `u64` holds it.
    pub open spec fn total_size_in_bytes(self) -> u64 {
        if total_size(self.rows) > u64::MAX {
            u64::MAX
        } else {
            total_size(self.rows) as u64
        }
    }

    /// The files that have to leave for the total to come down to
    /// `max_size_bytes`: none while the total is below it, else the files
    /// that were last accessed the longest ago, as many as it takes.
    pub open spec fn files_to_delete_for_max_size(self, max_size_bytes: u64) -> Seq<Seq<char>> {
        if self.total_size_in_bytes() < max_size_bytes {
            Seq::empty()
        } else {
            absolute_paths(
                self.root,
                self.rows.take(
                    eviction_count(self.rows, self.total_size_in_bytes() - max_size_bytes),
                ),
            )
        }
    }

    /// The files that were last accessed more than `max_age_seconds` before `now`.
    pub open spec fn files_to_delete_for_max_age(self, max_age_seconds: u64, now: u64) -> Seq<
        Seq<char>,
    > {
        absolute_paths(self.root, self.rows.take(aged_count(self.rows, now - max_age_seconds)))
    }
}

/// `index_of_path` is the index of the one row with the path, in a list
/// where the rows in front of that index have other paths.
pub proof fn lemma_index_of_path_is(rows: Seq<FileRow>, path: Seq<char>, index: int)
    requires
        0 <= index < rows.len(),
        rows[index].path == path,
        forall|i: int| 0 <= i < index ==> (#[trigger] rows[i]).path != path,
    ensures
        index_of_path(rows, path) == Some(index),
    decreases index,
{
    if index > 0 {
        let rest = rows.drop_first();
        assert(rows[0].path != path);
        assert forall|i: int| 0 <= i < index - 1 implies (#[trigger] rest[i]).path != path by {
            assert(rest[i] == rows[i + 1]);
        }
        assert(rest[index - 1] == rows[index]);
        lemma_index_of_path_is(rest, path, index - 1);
    }
}

/// What `index_of_path` finds is a row with the path, and the first one;
/// it finds nothing only where no row has the path.
pub proof fn lemma_index_of_path(rows: Seq<FileRow>, path: Seq<char>)
    ensures
        match index_of_path(rows, path) {
            Some(index) => 0 <= index < rows.len() && rows[index].path == path && forall|i: int|
                0 <= i < index ==> (#[trigger] rows[i]).path != path,
            None => forall|i: int| 0 <= i < rows.len() ==> (#[trigger] rows[i]).path != path,
        },
    decreases rows.len(),
{
    if rows.len() > 0 && rows[0].path != path {
        let rest = rows.drop_first();
        lemma_index_of_path(rest, path);
        match index_of_path(rest, path) {
            Some(index) => {
                assert(rest[index] == rows[index + 1]);
                assert forall|i: int| 0 <= i < index + 1 implies (#[trigger] rows[i]).path
                    != path by {
                    if i > 0 {
                        assert(rest[i - 1] == rows[i]);
                    }
                }
            },
            None => {
                assert forall|i: int| 0 <= i < rows.len() implies (#[trigger] rows[i]).path
                    != path by {
                    if i > 0 {
                        assert(rest[i - 1] == rows[i]);
                    }
                }
            },
        }
    }
}

/// `position_after` is the one index that has only rows accessed at or
/// before the time in front of it and none such at it.
pub proof fn lemma_position_after_is(rows: Seq<FileRow>, time: u64, index: int)
    requires
        0 <= index <= rows.len(),
        forall|i: int| 0 <= i < index ==> (#[trigger] rows[i]).last_access_time <= time,
        index < rows.len() ==> rows[index].last_access_time > time,
    ensures
        position_after(rows, time) == index,
    decreases index,
{
    if index > 0 {
        let rest = rows.drop_first();
        assert(rows[0].last_access_time <= time);
        assert forall|i: int| 0 <= i < index - 1 implies (#[trigger] rest[i]).last_access_time
            <= time by {
            assert(rest[i] == rows[i + 1]);
        }
        if index - 1 < rest.len() {
            assert(rest[index - 1] == rows[index]);
        }
        lemma_position_after_is(rest, time, index - 1);
    }
}

/// In a sorted list, the rows in front of `position_after` were accessed at
/// or before the time, and those from it on after the time.
pub proof fn lemma_position_after_splits(rows: Seq<FileRow>, time: u64)
    requires
        sorted_by_access(rows),
    ensures
        0 <= position_after(rows, time) <= rows.len(),
        forall|i: int|
            0 <= i < position_after(rows, time) ==> (#[trigger] rows[i]).last_access_time <= time,
        forall|i: int|
            position_after(rows, time) <= i < rows.len() ==> (#[trigger] rows[i]).last_access_time
                > time,
    decreases rows.len(),
{
    if rows.len() > 0 {
        let rest = rows.drop_first();
        assert forall|i: int, j: int| 0 <= i < j < rest.len() implies (
        #[trigger] rest[i]).last_access_time <= (#[trigger] rest[j]).last_access_time by {
            assert(rest[i] == rows[i + 1]);
            assert(rest[j] == rows[j + 1]);
        }
        if rows[0].last_access_time > time {
            assert forall|i: int| 0 <= i < rows.len() implies (#[trigger] rows[i]).last_access_time
                > time by {
                if i > 0 {
                    assert(rows[0].last_access_time <= rows[i].last_access_time);
                }
            }
        } else {
            lemma_position_after_splits(rest, time);
            let k = position_after(rest, time);
            assert forall|i: int| 0 <= i < k + 1 implies (#[trigger] rows[i]).last_access_time
                <= time by {
                if i > 0 {
                    assert(rest[i - 1] == rows[i]);
                }
            }
            assert forall|i: int| k + 1 <= i < rows.len() implies (
            #[trigger] rows[i]).last_access_time > time by {
                assert(rest[i - 1] == rows[i]);
            }
        }
    }
}

/// A table without one of its rows is a table, and has no row with the
/// path of that row.
pub proof fn lemma_without_path_is_table(rows: Seq<FileRow>, path: Seq<char>)
    requires
        is_table(rows),
    ensures
        is_table(without_path(rows, path)),
        index_of_path(without_path(rows, path), path) is None,
        forall|i: int|
            0 <= i < without_path(rows, path).len() ==> (#[trigger] without_path(
                rows,
                path,
            )[i]).path != path,
{
    lemma_index_of_path(rows, path);
    let rest = without_path(rows, path);
    match index_of_path(rows, path) {
        Some(index) => {
            assert forall|i: int| 0 <= i < rest.len() implies (#[trigger] rest[i]).path != path by {
                if i < index {
                    assert(rest[i] == rows[i]);
                } else {
                    assert(rest[i] == rows[i + 1]);
                    assert(rows[index].path != rows[i + 1].path);
                }
            }
            assert forall|i: int, j: int| 0 <= i < j < rest.len() implies (#[trigger] rest[i]).path
                != (#[trigger] rest[j]).path && rest[i].last_access_time
                <= rest[j].last_access_time by {
                let a = if i < index {
                    i
                } else {
                    i + 1
                };
                let b = if j < index {
                    j
                } else {
                    j + 1
                };
                assert(rest[i] == rows[a]);
                assert(rest[j] == rows[b]);
            }
        },
        None => {},
    }
    lemma_index_of_path(rest, path);
}

/// A table with a row put in is a table, and has that row and no other
/// with its path.
pub proof fn lemma_with_row_is_table(rows: Seq<FileRow>, row: FileRow)
    requires
        is_table(rows),
    ensures
        is_table(with_row(rows, row)),
        index_of_path(with_row(rows, row), row.path) == Some(
            position_after(without_path(rows, row.path), row.last_access_time),
        ),
        with_row(rows, row)[position_after(without_path(rows, row.path), row.last_access_time)]
            == row,
        total_size(with_row(rows, row)) == total_size(without_path(rows, row.path))
            + row.size_in_bytes,
{
    let others = without_path(rows, row.path);
    lemma_without_path_is_table(rows, row.path);
    lemma_position_after_splits(others, row.last_access_time);
    let at = position_after(others, row.last_access_time);
    let result = with_row(rows, row);
    assert forall|i: int, j: int| 0 <= i < j < result.len() implies (#[trigger] result[i]).path != (
    #[trigger] result[j]).path && result[i].last_access_time <= result[j].last_access_time by {
        if i < at {
            assert(result[i] == others[i]);
        } else if i > at {
            assert(result[i] == others[i - 1]);
        }
        if j < at {
            assert(result[j] == others[j]);
        } else if j > at {
            assert(result[j] == others[j - 1]);
        }
    }
    assert forall|i: int| 0 <= i < at implies (#[trigger] result[i]).path != row.path by {
        assert(result[i] == others[i]);
    }
    lemma_index_of_path_is(result, row.path, at);
    lemma_total_size_insert(others, at, row);
}

/// Putting a row in adds its size to the total.
pub proof fn lemma_total_size_insert(rows: Seq<FileRow>, at: int, row: FileRow)
    requires
        0 <= at <= rows.len(),
    ensures
        total_size(rows.insert(at, row)) == total_size(rows) + row.size_in_bytes,
    decreases rows.len(),
{
    let result = rows.insert(at, row);
    if at == rows.len() {
        assert(result.drop_last() =~= rows);
    } else {
        assert(result.drop_last() =~= rows.drop_last().insert(at, row));
        assert(result.last() == rows.last());
        lemma_total_size_insert(rows.drop_last(), at, row);
    }
}

/// After a file was created, the inventory has exactly one row for it, with
/// the size given, and the total holds that size once: it is the total of
/// the other files and the size given.
pub proof fn lemma_created_file_counts_once(
    inventory: Inventory,
    path: Seq<char>,
    size_in_bytes: u64,
    time: u64,
)
    requires
        is_table(inventory.rows),
        relative_to(inventory.root, path) is Some,
    ensures
        is_table(inventory.created(path, size_in_bytes, time).rows),
        index_of_path(
            inventory.created(path, size_in_bytes, time).rows,
            relative_to(inventory.root, path)->0,
        ) is Some,
        forall|i: int|
            0 <= i < inventory.created(path, size_in_bytes, time).rows.len() && (
            #[trigger] inventory.created(path, size_in_bytes, time).rows[i]).path == relative_to(
                inventory.root,
                path,
            )->0 ==> Some(i) == index_of_path(
                inventory.created(path, size_in_bytes, time).rows,
                relative_to(inventory.root, path)->0,
            ) && inventory.created(path, size_in_bytes, time).rows[i].size_in_bytes
                == size_in_bytes,
        total_size(inventory.created(path, size_in_bytes, time).rows) == total_size(
            without_path(inventory.rows, relative_to(inventory.root, path)->0),
        ) + size_in_bytes,
{
    let relative = relative_to(inventory.root, path)->0;
    let row = FileRow {
        path: relative,
        size_in_bytes,
        creation_time: time,
        last_access_time: time,
    };
    lemma_with_row_is_table(inventory.rows, row);
    let rows = inventory.created(path, size_in_bytes, time).rows;
    lemma_index_of_path(rows, relative);
    let at = index_of_path(rows, relative)->0;
    assert forall|i: int| 0 <= i < rows.len() && (#[trigger] rows[i]).path == relative implies Some(
        i,
    ) == index_of_path(rows, relative) && rows[i].size_in_bytes == size_in_bytes by {
        if i < at {
            assert(rows[i].path != relative);
        } else if i > at {
            assert(rows[at].path != rows[i].path);
        }
    }
}

/// What a `u64` holds of a total: the total, or the largest number where
/// the total is larger.
pub open spec fn held(total: int) -> u64 {
    if total > u64::MAX {
        u64::MAX
    } else if total < 0 {
        0
    } else {
        total as u64
    }
}

/// The total of the rows is not negative.
pub proof fn lemma_total_size_not_negative(rows: Seq<FileRow>)
    ensures
        total_size(rows) >= 0,
    decreases rows.len(),
{
    if rows.len() > 0 {
        lemma_total_size_not_negative(rows.drop_last());
    }
}

/// The count of the rows that leave for an excess, when the first rows are
/// known not to reach it.
pub proof fn lemma_eviction_count_from(rows: Seq<FileRow>, excess: int, first: int)
    requires
        0 <= first < rows.len(),
        forall|i: int| 0 <= i < first ==> total_size(#[trigger] rows.take(i + 1)) < excess,
    ensures
        eviction_count(rows, excess) == first + eviction_count(
            rows.skip(first),
            excess - total_size(rows.take(first)),
        ),
    decreases first,
{
    if first == 0 {
        assert(rows.skip(0) =~= rows);
        assert(rows.take(0) =~= Seq::empty());
    } else {
        let rest = rows.drop_first();
        assert(rows.take(1).drop_last() =~= Seq::empty());
        assert(total_size(rows.take(1)) == rows[0].size_in_bytes) by {
            assert(rows.take(1).last() == rows[0]);
            assert(total_size(rows.take(1).drop_last()) == 0);
        }
        assert forall|i: int| 0 <= i < first - 1 implies total_size(#[trigger] rest.take(i + 1))
            < excess - rows[0].size_in_bytes by {
            lemma_total_size_drop_first(rows.take(i + 2));
            assert(rows.take(i + 2).drop_first() =~= rest.take(i + 1));
            assert(rows.take(i + 2)[0] == rows[0]);
            assert(total_size(rows.take((i + 1) + 1)) < excess);
        }
        lemma_eviction_count_from(rest, excess - rows[0].size_in_bytes, first - 1);
        assert(rest.skip(first - 1) =~= rows.skip(first));
        lemma_total_size_drop_first(rows.take(first));
        assert(rows.take(first).drop_first() =~= rest.take(first - 1));
        assert(rows.take(first)[0] == rows[0]);
    }
}

/// The total of the rows is the size of the first row and the total of the rest.
pub proof fn lemma_total_size_drop_first(rows: Seq<FileRow>)
    requires
        rows.len() > 0,
    ensures
        total_size(rows) == rows[0].size_in_bytes + total_size(rows.drop_first()),
    decreases rows.len(),
{
    if rows.len() == 1 {
        assert(rows.drop_last() =~= Seq::empty());
        assert(rows.drop_first() =~= Seq::empty());
    } else {
        lemma_total_size_drop_first(rows.drop_last());
        assert(rows.drop_last().drop_first() =~= rows.drop_first().drop_last());
        assert(rows.drop_last()[0] == rows[0]);
        assert(rows.drop_first().last() == rows.last());
    }
}

/// The index of the row of `path`.
fn find_path(files: &Vec<FileInfo>, path: &String) -> (found: Option<usize>)
    ensures
        match found {
            Some(index) => index_of_path(rows_view(files@), path@) == Some(index as int) && index
                < files@.len(),
            None => index_of_path(rows_view(files@), path@) is None,
        },
{
    let mut i: usize = 0;
    while i < files.len()
        invariant
            i <= files@.len(),
            forall|k: int| 0 <= k < i ==> (#[trigger] rows_view(files@)[k]).path != path@,
        decreases files@.len() - i,
    {
        if files[i].path == *path {
            proof {
                assert(rows_view(files@)[i as int].path == path@);
                lemma_index_of_path_is(rows_view(files@), path@, i as int);
            }
            return Some(i);
        }
        i = i + 1;
    }
    proof {
        lemma_index_of_path(rows_view(files@), path@);
    }
    None
}

/// Where a row that was last accessed at `time` belongs.
fn position_for(files: &Vec<FileInfo>, time: u64) -> (at: usize)
    ensures
        at == position_after(rows_view(files@), time),
        at <= files@.len(),
{
    let mut at: usize = 0;
    while at < files.len() && files[at].last_access_time <= time
        invariant
            at <= files@.len(),
            forall|k: int|
                0 <= k < at ==> (#[trigger] rows_view(files@)[k]).last_access_time <= time,
        decreases files@.len() - at,
    {
        at = at + 1;
    }
    proof {
        if at < files@.len() {
            assert(rows_view(files@)[at as int].last_access_time > time);
        }
        lemma_position_after_is(rows_view(files@), time, at as int);
    }
    at
}

/// Takes the row of `path` out of `files`.
fn remove_path(files: &mut Vec<FileInfo>, path: &String) -> (removed: Option<FileInfo>)
    ensures
        rows_view(final(files)@) == without_path(rows_view(old(files)@), path@),
        match removed {
            Some(file) => index_of_path(rows_view(old(files)@), path@) matches Some(index)
                && file@ == rows_view(old(files)@)[index],
            None => index_of_path(rows_view(old(files)@), path@) is None,
        },
{
    match find_path(files, path) {
        Some(index) => {
            let ghost before = files@;
            let file = files.remove(index);
            assert(rows_view(files@) =~= rows_view(before).remove(index as int));
            Some(file)
        },
        None => None,
    }
}

/// Puts `file` into `files`, in place of the row of its path if there is one.
fn put_row(files: &mut Vec<FileInfo>, file: FileInfo)
    ensures
        rows_view(final(files)@) == with_row(rows_view(old(files)@), file@),
{
    let _ = remove_path(files, &file.path);
    let at = position_for(files, file.last_access_time);
    let ghost before = files@;
    files.insert(at, file);
    assert(rows_view(files@) =~= rows_view(before).insert(at as int, file@));
}

/// The inventory of the files in one managed directory.
pub struct FileInventory {
    root_path: String,
    files: Vec<FileInfo>,
}

impl View for FileInventory {
    type V = Inventory;

    closed spec fn view(&self) -> Inventory {
        Inventory { root: self.root_path@, rows: rows_view(self.files@) }
    }
}

impl FileInventory {
    #[verifier::type_invariant]
    spec fn is_valid(&self) -> bool {
        is_table(rows_view(self.files@))
    }

    /// The inventory of the directory `root_path`, which holds the files
    /// `existing_files`. Files that do not lie in the directory are left
    /// out; of files that are listed twice, the later listing counts.
    pub fn new(root_path: &str, existing_files: Vec<FileInfo>) -> (inventory: Self)
        ensures
            inventory@ == (Inventory { root: root_path@, rows: Seq::empty() }).entered_all(
                rows_view(existing_files@),
            ),
            is_table(inventory@.rows),
    {
        let mut inventory = FileInventory {
            root_path: String::from_str(root_path),
            files: Vec::new(),
        };
        assert(inventory@.rows =~= Seq::empty());
        let ghost empty = inventory@;
        let mut i: usize = 0;
        assert(rows_view(existing_files@).take(0) =~= Seq::empty());
        while i < existing_files.len()
            invariant
                i <= existing_files@.len(),
                empty == (Inventory { root: root_path@, rows: Seq::empty() }),
                inventory@ == empty.entered_all(rows_view(existing_files@).take(i as int)),
            decreases existing_files@.len() - i,
        {
            let file = &existing_files[i];
            proof {
                let rows = rows_view(existing_files@);
                assert(rows.take(i as int + 1).drop_last() =~= rows.take(i as int));
                assert(rows.take(i as int + 1).last() == file@);
            }
            inventory.insert_file(
                file.path.as_str(),
                file.size_in_bytes,
                file.creation_time,
                file.last_access_time,
            );
            i = i + 1;
        }
        assert(rows_view(existing_files@).take(i as int) =~= rows_view(existing_files@));
        proof {
            use_type_invariant(&inventory);
        }
        inventory
    }

    /// The managed directory.
    pub fn root_path(&self) -> (root: &str)
        ensures
            root@ == self@.root,
    {
        self.root_path.as_str()
    }

    /// The number of files.
    pub fn len(&self) -> (len: usize)
        ensures
            len == self@.rows.len(),
            is_table(self@.rows),
    {
        proof {
            use_type_invariant(self);
        }
        self.files.len()
    }

    /// The file at `index` in the order of leaving; its path is as seen
    /// from the managed directory.
    pub fn get(&self, index: usize) -> (file: Option<&FileInfo>)
        ensures
            match file {
                Some(file) => index < self@.rows.len() && file@ == self@.rows[index as int],
                None => index >= self@.rows.len(),
            },
            is_table(self@.rows),
    {
        proof {
            use_type_invariant(self);
        }
        if index < self.files.len() {
            Some(&self.files[index])
        } else {
            None
        }
    }

    /// Enters `path` with the given size and times, in place of what was
    /// known of it. Does nothing where `path` does not lie in the managed
    /// directory.
    pub fn insert_file(
        &mut self,
        path: &str,
        size_in_bytes: u64,
        creation_time: u64,
        last_access_time: u64,
    )
        ensures
            final(self)@ == old(self)@.entered(
                path@,
                size_in_bytes,
                creation_time,
                last_access_time,
            ),
            is_table(final(self)@.rows),
    {
        proof {
            use_type_invariant(&*self);
        }
        match relative_path(self.root_path.as_str(), path) {
            None => {},
            Some(relative) => {
                let file = FileInfo {
                    path: relative,
                    size_in_bytes,
                    creation_time,
                    last_access_time,
                };
                proof {
                    lemma_with_row_is_table(rows_view(self.files@), file@);
                }
                let mut files: Vec<FileInfo> = Vec::new();
                core::mem::swap(&mut self.files, &mut files);
                put_row(&mut files, file);
                self.files = files;
            },
        }
    }

    /// Takes note that `path` was created at `creation_time` with the given
    /// size; a file that is created again starts anew. Does nothing where
    /// `path` does not lie in the managed directory.
    pub fn on_file_created(&mut self, path: &str, size_in_bytes: u64, creation_time: u64)
        ensures
            final(self)@ == old(self)@.created(path@, size_in_bytes, creation_time),
            is_table(final(self)@.rows),
    {
        self.insert_file(path, size_in_bytes, creation_time, creation_time);
    }

    /// Takes note that `path` was accessed at `access_time`. Does nothing
    /// where the inventory does not know the file.
    pub fn on_file_accessed(&mut self, path: &str, access_time: u64)
        ensures
            final(self)@ == old(self)@.accessed(path@, access_time),
            is_table(final(self)@.rows),
    {
        proof {
            use_type_invariant(&*self);
        }
        match relative_path(self.root_path.as_str(), path) {
            None => {},
            Some(relative) => {
                let ghost before = rows_view(self.files@);
                let mut files: Vec<FileInfo> = Vec::new();
                core::mem::swap(&mut self.files, &mut files);
                match remove_path(&mut files, &relative) {
                    None => {},
                    Some(known) => {
                        let file = FileInfo {
                            path: relative,
                            size_in_bytes: known.size_in_bytes,
                            creation_time: known.creation_time,
                            last_access_time: access_time,
                        };
                        proof {
                            lemma_with_row_is_table(before, file@);
                            lemma_without_path_is_table(before, relative@);
                        }
                        let at = position_for(&files, access_time);
                        let ghost others = files@;
                        files.insert(at, file);
                        assert(rows_view(files@) =~= rows_view(others).insert(at as int, file@));
                    },
                }
                self.files = files;
            },
        }
    }

    /// Takes note that `path` was deleted.
    pub fn on_file_deleted(&mut self, path: &str)
        ensures
            final(self)@ == old(self)@.deleted(path@),
            is_table(final(self)@.rows),
    {
        proof {
            use_type_invariant(&*self);
        }
        match relative_path(self.root_path.as_str(), path) {
            None => {},
            Some(relative) => {
                proof {
                    lemma_without_path_is_table(rows_view(self.files@), relative@);
                }
                let mut files: Vec<FileInfo> = Vec::new();
                core::mem::swap(&mut self.files, &mut files);
                let _ = remove_path(&mut files, &relative);
                self.files = files;
            },
        }
    }

    /// Takes note that `path` turned out not to exist.
    pub fn on_file_found_to_be_absent(&mut self, path: &str)
        ensures
            final(self)@ == old(self)@.deleted(path@),
            is_table(final(self)@.rows),
    {
        self.on_file_deleted(path);
    }

    /// The size of all files together; `u64::MAX` where it is more than that.
    pub fn total_size_in_bytes(&self) -> (total: u64)
        ensures
            total == self@.total_size_in_bytes(),
    {
        let mut total: u64 = 0;
        let mut i: usize = 0;
        assert(rows_view(self.files@).take(0) =~= Seq::empty());
        while i < self.files.len()
            invariant
                i <= self.files@.len(),
                total == held(total_size(rows_view(self.files@).take(i as int))),
            decreases self.files@.len() - i,
        {
            proof {
                let rows = rows_view(self.files@);
                assert(rows.take(i as int + 1).drop_last() =~= rows.take(i as int));
                assert(rows.take(i as int + 1).last() == rows[i as int]);
                lemma_total_size_not_negative(rows.take(i as int));
            }
            total = total.saturating_add(self.files[i].size_in_bytes);
            i = i + 1;
        }
        proof {
            assert(rows_view(self.files@).take(i as int) =~= rows_view(self.files@));
            lemma_total_size_not_negative(rows_view(self.files@));
        }
        total
    }

    /// The files to delete for the total to come down to `max_size_bytes`,
    /// as full paths: none while the total is below `max_size_bytes`; else
    /// the files that were last accessed the longest ago, in that order, up
    /// to the first with which the files listed hold at least the excess.
    pub fn get_files_to_delete_to_enforce_max_size(&self, max_size_bytes: u64) -> (paths: Vec<
        String,
    >)
        ensures
            texts_view(paths@) == self@.files_to_delete_for_max_size(max_size_bytes),
    {
        let total = self.total_size_in_bytes();
        let mut paths: Vec<String> = Vec::new();
        if total < max_size_bytes {
            assert(texts_view(paths@) =~= Seq::empty());
            return paths;
        }
        let excess = total - max_size_bytes;
        let mut left = excess;
        let mut i: usize = 0;
        let ghost rows = rows_view(self.files@);
        assert(rows.take(0) =~= Seq::empty());
        while i < self.files.len()
            invariant
                i <= self.files@.len(),
                rows == rows_view(self.files@),
                self@.total_size_in_bytes() >= max_size_bytes,
                excess == self@.total_size_in_bytes() - max_size_bytes,
                left == excess - total_size(rows.take(i as int)),
                0 <= left <= excess,
                forall|k: int| 0 <= k < i ==> total_size(#[trigger] rows.take(k + 1)) < excess,
                texts_view(paths@) == absolute_paths(self@.root, rows.take(i as int)),
            decreases self.files@.len() - i,
        {
            let file = &self.files[i];
            let ghost listed = paths@;
            paths.push(to_absolute_path(self.root_path.as_str(), file.path.as_str()));
            proof {
                assert(rows.take(i as int + 1).drop_last() =~= rows.take(i as int));
                assert(rows.take(i as int + 1).last() == rows[i as int]);
                assert(texts_view(listed).len() == listed.len());
                assert(absolute_paths(self@.root, rows.take(i as int)).len() == i);
                assert(rows[i as int] == self.files@[i as int]@);
                lemma_listed_one_more(self@.root, rows, listed, paths@, i as int);
            }
            if file.size_in_bytes >= left {
                proof {
                    lemma_eviction_count_from(rows, excess as int, i as int);
                    assert(rows.skip(i as int)[0] == rows[i as int]);
                }
                return paths;
            }
            left = left - file.size_in_bytes;
            i = i + 1;
        }
        proof {
            assert(rows.take(i as int) =~= rows);
            lemma_eviction_count_all(rows, excess as int);
        }
        paths
    }

    /// The files that were last accessed more than `max_age_seconds` before
    /// `now`, as full paths, the one that was accessed the longest ago
    /// first.
    pub fn get_files_to_delete_to_enforce_max_age(&self, max_age_seconds: u64, now: u64) -> (paths:
        Vec<String>)
        ensures
            texts_view(paths@) == self@.files_to_delete_for_max_age(max_age_seconds, now),
    {
        let mut paths: Vec<String> = Vec::new();
        let ghost rows = rows_view(self.files@);
        let ghost cutoff = now - max_age_seconds;
        assert(rows.take(0) =~= Seq::empty());
        assert(rows.skip(0) =~= rows);
        if max_age_seconds >= now {
            proof {
                assert(aged_count(rows, cutoff) == 0);
                assert(texts_view(paths@) =~= absolute_paths(self@.root, rows.take(0)));
            }
            return paths;
        }
        let limit = now - max_age_seconds;
        let mut i: usize = 0;
        assert(texts_view(paths@) =~= absolute_paths(self@.root, rows.take(0)));
        while i < self.files.len() && self.files[i].last_access_time < limit
            invariant
                i <= self.files@.len(),
                rows == rows_view(self.files@),
                limit == cutoff,
                aged_count(rows, cutoff) == i + aged_count(rows.skip(i as int), cutoff),
                texts_view(paths@) == absolute_paths(self@.root, rows.take(i as int)),
            decreases self.files@.len() - i,
        {
            let file = &self.files[i];
            let ghost listed = paths@;
            paths.push(to_absolute_path(self.root_path.as_str(), file.path.as_str()));
            proof {
                assert(rows.skip(i as int)[0] == rows[i as int]);
                assert(rows.skip(i as int).drop_first() =~= rows.skip(i as int + 1));
                assert(texts_view(listed).len() == listed.len());
                assert(absolute_paths(self@.root, rows.take(i as int)).len() == i);
                assert(rows[i as int] == self.files@[i as int]@);
                lemma_listed_one_more(self@.root, rows, listed, paths@, i as int);
            }
            i = i + 1;
        }
        proof {
            if i < rows.len() {
                assert(rows.skip(i as int)[0] == rows[i as int]);
            }
        }
        paths
    }
}

/// A list of the full paths of the first rows, with the full path of the
/// next row pushed, is the list of the full paths of one row more.
proof fn lemma_listed_one_more(
    root: Seq<char>,
    rows: Seq<FileRow>,
    listed: Seq<String>,
    longer: Seq<String>,
    count: int,
)
    requires
        0 <= count < rows.len(),
        texts_view(listed) == absolute_paths(root, rows.take(count)),
        longer.len() == listed.len() + 1,
        forall|k: int| 0 <= k < listed.len() ==> longer[k] == listed[k],
        longer[count]@ == absolute_path(root, rows[count].path),
    ensures
        texts_view(longer) == absolute_paths(root, rows.take(count + 1)),
{
    assert(listed.len() == count) by {
        assert(texts_view(listed).len() == listed.len());
        assert(absolute_paths(root, rows.take(count)).len() == count);
    }
    assert forall|k: int| 0 <= k < count + 1 implies texts_view(longer)[k] == absolute_paths(
        root,
        rows.take(count + 1),
    )[k] by {
        if k < count {
            assert(texts_view(listed)[k] == absolute_paths(root, rows.take(count))[k]);
            assert(rows.take(count)[k] == rows.take(count + 1)[k]);
        }
    }
    assert(texts_view(longer) =~= absolute_paths(root, rows.take(count + 1)));
}

/// Where no row at the front reaches the excess, every row leaves.
pub proof fn lemma_eviction_count_all(rows: Seq<FileRow>, excess: int)
    requires
        forall|i: int| 0 <= i < rows.len() ==> total_size(#[trigger] rows.take(i + 1)) < excess,
    ensures
        eviction_count(rows, excess) == rows.len(),
    decreases rows.len(),
{
    if rows.len() > 0 {
        let rest = rows.drop_first();
        assert(rows.take(1).drop_last() =~= Seq::empty());
        assert(total_size(rows.take(1)) == rows[0].size_in_bytes) by {
            assert(rows.take(1).last() == rows[0]);
            assert(total_size(rows.take(1).drop_last()) == 0);
        }
        assert forall|i: int| 0 <= i < rest.len() implies total_size(#[trigger] rest.take(i + 1))
            < excess - rows[0].size_in_bytes by {
            lemma_total_size_drop_first(rows.take(i + 2));
            assert(rows.take(i + 2).drop_first() =~= rest.take(i + 1));
            assert(rows.take(i + 2)[0] == rows[0]);
            assert(total_size(rows.take((i + 1) + 1)) < excess);
        }
        lemma_eviction_count_all(rest, excess - rows[0].size_in_bytes);
    }
}

} // verus!
