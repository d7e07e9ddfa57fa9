//! A model of the directories that the plans work on, and what the plans
//! do to it.
//!
//! The model knows directories by their paths and, of each, the regular
//! files that lie directly in it. A directory lies in another where its
//! path is the other's path joined with a name. The model keeps nothing
//! else: a name is free for a file whatever directories there are, and a
//! file copied onto itself stays as it is.

use vstd::prelude::*;
use crate::plan::{copy_files_spec, delete_spec, FileEntryView, StepView};
use crate::text::join_spec;

verus! {

/// The regular files of a directory: their names and what they hold.
pub type Folder = Map<Seq<char>, Seq<u8>>;

/// The directories that exist, by path.
pub type Disk = Map<Seq<char>, Folder>;

/// Whether some directory lies directly in `dir`.
pub open spec fn has_subdirectory(disk: Disk, dir: Seq<char>) -> bool {
    exists|name: Seq<char>| disk.dom().contains(#[trigger] join_spec(dir, name))
}

/// What one step makes of the directories, or `None` where the step
/// fails: a copy needs its file and both directories, a removal needs what
/// it removes, and only an empty directory can be removed.
pub open spec fn apply(disk: Disk, step: StepView) -> Option<Disk> {
    match step {
        StepView::CreateDir { dir } => Some(
            if disk.dom().contains(dir) {
                disk
            } else {
                disk.insert(dir, Map::empty())
            },
        ),
        StepView::CopyFile { from, to, name } => if disk.dom().contains(from)
            && disk[from].dom().contains(name) && disk.dom().contains(to) {
            Some(disk.insert(to, disk[to].insert(name, disk[from][name])))
        } else {
            None
        },
        StepView::RemoveFile { dir, name } => if disk.dom().contains(dir)
            && disk[dir].dom().contains(name) {
            Some(disk.insert(dir, disk[dir].remove(name)))
        } else {
            None
        },
        StepView::RemoveDir { dir } => if disk.dom().contains(dir) && disk[dir].dom()
            == Set::<Seq<char>>::empty() && !has_subdirectory(disk, dir) {
            Some(disk.remove(dir))
        } else {
            None
        },
    }
}

/// What a list of steps, done in order, makes of the directories, or
/// `None` where one of them fails.
pub open spec fn run(disk: Disk, steps: Seq<StepView>) -> Option<Disk>
    decreases steps.len(),
{
    if steps.len() == 0 {
        Some(disk)
    } else {
        match run(disk, steps.drop_last()) {
            Some(before) => apply(before, steps.last()),
            None => None,
        }
    }
}

/// The names of the regular files of a listing.
pub open spec fn regular_names(files: Seq<FileEntryView>) -> Set<Seq<char>> {
    Set::new(
        |name: Seq<char>|
            exists|i: int|
                0 <= i < files.len() && (#[trigger] files[i]).is_file && files[i].name == name,
    )
}

/// Whether no two entries of a listing have the same name.
pub open spec fn distinct_names(files: Seq<FileEntryView>) -> bool {
    forall|i: int, j: int|
        0 <= i < j < files.len() ==> (#[trigger] files[i]).name != (#[trigger] files[j]).name
}

/// Whether `files` is a listing of the directory `dir`: the directory
/// exists, its regular files are those of the listing, and no name is
/// listed twice.
pub open spec fn lists(disk: Disk, dir: Seq<char>, files: Seq<FileEntryView>) -> bool {
    &&& disk.dom().contains(dir)
    &&& distinct_names(files)
    &&& disk[dir].dom() == regular_names(files)
}

/// Steps done one list after another.
pub proof fn lemma_run_concat(disk: Disk, first: Seq<StepView>, second: Seq<StepView>)
    ensures
        run(disk, first + second) == match run(disk, first) {
            Some(between) => run(between, second),
            None => None,
        },
    decreases second.len(),
{
    if second.len() > 0 {
        assert((first + second).drop_last() =~= first + second.drop_last());
        lemma_run_concat(disk, first, second.drop_last());
    }
}

/// Steps that have been done up to a point were done from the start.
pub proof fn lemma_run_prefix(disk: Disk, steps: Seq<StepView>, k: int)
    requires
        0 <= k <= steps.len(),
        run(disk, steps) is Some,
    ensures
        run(disk, steps.take(k)) is Some,
    decreases steps.len(),
{
    if k == steps.len() {
        assert(steps.take(k) =~= steps);
    } else {
        assert(steps.drop_last().take(k) =~= steps.take(k));
        lemma_run_prefix(disk, steps.drop_last(), k);
    }
}

/// The regular names of a listing, from those of the listing without its
/// last entry.
pub proof fn lemma_regular_names_last(files: Seq<FileEntryView>)
    requires
        files.len() > 0,
    ensures
        regular_names(files) == if files.last().is_file {
            regular_names(files.drop_last()).insert(files.last().name)
        } else {
            regular_names(files.drop_last())
        },
{
    let front = files.drop_last();
    let expected = if files.last().is_file {
        regular_names(front).insert(files.last().name)
    } else {
        regular_names(front)
    };
    assert forall|name: Seq<char>| regular_names(files).contains(name) implies expected.contains(
        name,
    ) by {
        let i = choose|i: int|
            0 <= i < files.len() && (#[trigger] files[i]).is_file && files[i].name == name;
        if i < front.len() {
            assert(front[i].is_file && front[i].name == name);
        }
    }
}

/// Copying the listed files of one directory into another: the files go
/// over the files of the same names, and nothing else changes.
pub proof fn lemma_copy_files(disk: Disk, from: Seq<char>, to: Seq<char>, files: Seq<FileEntryView>)
    requires
        disk.dom().contains(from),
        disk.dom().contains(to),
        from != to,
        regular_names(files).subset_of(disk[from].dom()),
    ensures
        run(disk, copy_files_spec(from, to, files)) == Some(
            disk.insert(
                to,
                disk[to].union_prefer_right(disk[from].restrict(regular_names(files))),
            ),
        ),
    decreases files.len(),
{
    if files.len() == 0 {
        assert(disk[to].union_prefer_right(disk[from].restrict(regular_names(files)))
            =~= disk[to]);
    } else {
        let front = files.drop_last();
        lemma_regular_names_last(files);
        lemma_copy_files(disk, from, to, front);
        let before = disk.insert(
            to,
            disk[to].union_prefer_right(disk[from].restrict(regular_names(front))),
        );
        if files.last().is_file {
            let name = files.last().name;
            let steps = copy_files_spec(from, to, files);
            assert(steps.drop_last() =~= copy_files_spec(from, to, front));
            assert(before[to].insert(name, before[from][name]) =~= disk[to].union_prefer_right(
                disk[from].restrict(regular_names(files)),
            ));
        }
    }
}

/// Removing the listed files of a directory: they are gone, and nothing
/// else changes.
pub proof fn lemma_delete_files(disk: Disk, dir: Seq<char>, files: Seq<FileEntryView>)
    requires
        disk.dom().contains(dir),
        distinct_names(files),
        regular_names(files).subset_of(disk[dir].dom()),
    ensures
        run(disk, delete_spec(dir, files)) == Some(
            disk.insert(dir, disk[dir].remove_keys(regular_names(files))),
        ),
    decreases files.len(),
{
    if files.len() == 0 {
        assert(disk[dir].remove_keys(regular_names(files)) =~= disk[dir]);
    } else {
        let front = files.drop_last();
        lemma_regular_names_last(files);
        lemma_delete_files(disk, dir, front);
        let before = disk.insert(dir, disk[dir].remove_keys(regular_names(front)));
        if files.last().is_file {
            let name = files.last().name;
            let steps = delete_spec(dir, files);
            assert(steps.drop_last() =~= delete_spec(dir, front));
            assert(before[dir].remove(name) =~= disk[dir].remove_keys(regular_names(files)));
        }
    }
}

/// The files of a directory, none where the directory is not there.
pub open spec fn folder_of(disk: Disk, dir: Seq<char>) -> Folder {
    if disk.dom().contains(dir) {
        disk[dir]
    } else {
        Map::empty()
    }
}

/// Whether every step of a list works on the directory `dir` and on no
/// other: it makes it, removes it, or writes or removes a file in it.
pub open spec fn writes_only(steps: Seq<StepView>, dir: Seq<char>) -> bool {
    forall|i: int|
        0 <= i < steps.len() ==> match #[trigger] steps[i] {
            StepView::CreateDir { dir: d } => d == dir,
            StepView::CopyFile { from, to, name } => to == dir,
            StepView::RemoveFile { dir: d, name } => d == dir,
            StepView::RemoveDir { dir: d } => d == dir,
        }
}

/// Whether a directory is the same in two states of the directories:
/// there with the same files, or not there.
pub open spec fn same_at(before: Disk, after: Disk, dir: Seq<char>) -> bool {
    &&& before.dom().contains(dir) <==> after.dom().contains(dir)
    &&& before.dom().contains(dir) ==> after[dir] == before[dir]
}

/// Whether two states of the directories agree on every directory but
/// `dir`.
pub open spec fn same_but(before: Disk, after: Disk, dir: Seq<char>) -> bool {
    forall|other: Seq<char>| other != dir ==> #[trigger] same_at(before, after, other)
}

/// Steps that work on one directory leave every other directory as it
/// was.
pub proof fn lemma_frame(disk: Disk, steps: Seq<StepView>, dir: Seq<char>)
    requires
        writes_only(steps, dir),
        run(disk, steps) is Some,
    ensures
        same_but(disk, run(disk, steps)->Some_0, dir),
    decreases steps.len(),
{
    if steps.len() > 0 {
        let front = steps.drop_last();
        lemma_frame(disk, front, dir);
        let before = run(disk, front)->Some_0;
        let after = run(disk, steps)->Some_0;
        assert forall|other: Seq<char>| other != dir implies #[trigger] same_at(
            disk,
            after,
            other,
        ) by {
            assert(same_at(disk, before, other));
        }
    }
}

/// A part of steps that work on one directory works on that directory.
pub proof fn lemma_writes_only_take(steps: Seq<StepView>, dir: Seq<char>, k: int)
    requires
        writes_only(steps, dir),
        0 <= k <= steps.len(),
    ensures
        writes_only(steps.take(k), dir),
{
}

} // verus!
