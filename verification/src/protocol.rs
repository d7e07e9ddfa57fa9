//! What the plans do to the directories: the laws of copying, of emptying
//! and of the backup that comes before every loss.

use vstd::prelude::*;
use crate::disk::{
    folder_of, has_subdirectory, lemma_copy_files, lemma_delete_files, lemma_frame,
    lemma_regular_names_last, lemma_run_concat, lemma_run_prefix, lemma_writes_only_take, lists,
    regular_names, run, same_at, same_but, writes_only, Disk, Folder,
};
use crate::plan::{
    all_steps, copy_files_spec, copy_spec, delete_spec, FileEntryView, Operation, StageView,
    StepView,
};
use crate::error::MetadataError;
use crate::metadata::{decode_spec, SaveInfoView};
use crate::repository::{
    backup_and_delete_spec, backup_and_overwrite_spec, backup_dir_spec, backup_name_spec,
    refill_spec, roots_spec, SavesDataView,
};
use crate::save::{SaveView, METADATA_FILE};
use crate::scan::{external_spec, scan_spec, DirEntryView};
use crate::text::join_spec;

verus! {

/// The steps of a copy work on the destination only.
pub proof fn lemma_copy_writes_only(from: Seq<char>, to: Seq<char>, files: Seq<FileEntryView>)
    ensures
        writes_only(copy_files_spec(from, to, files), to),
        writes_only(copy_spec(from, to, files), to),
    decreases files.len(),
{
    if files.len() > 0 {
        lemma_copy_writes_only(from, to, files.drop_last());
    }
}

/// The steps that empty a directory work on that directory only.
pub proof fn lemma_delete_writes_only(dir: Seq<char>, files: Seq<FileEntryView>)
    ensures
        writes_only(delete_spec(dir, files), dir),
    decreases files.len(),
{
    if files.len() > 0 {
        lemma_delete_writes_only(dir, files.drop_last());
    }
}

/// Copying is shallow. Whatever is listed, a copy that succeeds has made
/// no directory but the destination, so nothing that lay deeper in the
/// source is found under the destination; every other directory is as
/// before; and the only files that have come into the destination have
/// the names of listed regular files.
pub proof fn law_copy_is_shallow(
    disk: Disk,
    source: Seq<char>,
    destination: Seq<char>,
    files: Seq<FileEntryView>,
)
    ensures
        run(disk, copy_spec(source, destination, files)) matches Some(after) ==> {
            &&& same_but(disk, after, destination)
            &&& forall|name: Seq<char>|
                after.dom().contains(#[trigger] join_spec(destination, name))
                    ==> disk.dom().contains(join_spec(destination, name))
            &&& folder_of(after, destination).dom().subset_of(
                folder_of(disk, destination).dom().union(regular_names(files)),
            )
        },
{
    let steps = copy_spec(source, destination, files);
    if run(disk, steps) is Some {
        let after = run(disk, steps)->Some_0;
        lemma_copy_writes_only(source, destination, files);
        lemma_frame(disk, steps, destination);
        assert forall|name: Seq<char>|
            after.dom().contains(
                #[trigger] join_spec(destination, name),
            ) implies disk.dom().contains(join_spec(destination, name)) by {
            assert(same_at(disk, after, join_spec(destination, name)));
        }
        let create = seq![StepView::CreateDir { dir: destination }];
        let copies = copy_files_spec(source, destination, files);
        assert(run(disk, create.drop_last()) == Some(disk));
        lemma_run_concat(disk, create, copies);
        let made = run(disk, create)->Some_0;
        lemma_copied_names(made, source, destination, files);
    }
}

/// Copies add to the destination no names but those of the listed regular
/// files.
pub proof fn lemma_copied_names(
    disk: Disk,
    from: Seq<char>,
    to: Seq<char>,
    files: Seq<FileEntryView>,
)
    requires
        run(disk, copy_files_spec(from, to, files)) is Some,
    ensures
        folder_of(run(disk, copy_files_spec(from, to, files))->Some_0, to).dom().subset_of(
            folder_of(disk, to).dom().union(regular_names(files)),
        ),
    decreases files.len(),
{
    if files.len() > 0 {
        let front = files.drop_last();
        lemma_regular_names_last(files);
        assert(files.last().is_file ==> copy_files_spec(from, to, files).drop_last()
            =~= copy_files_spec(from, to, front));
        lemma_copied_names(disk, from, to, front);
    }
}

/// What a copy makes of the directories. A copy of a directory, listed
/// with all its regular files, into another directory succeeds.
/// Afterwards the destination holds the regular files that lay directly in
/// the source, over what it held under other names, and the source and
/// every other directory are as before.
pub proof fn law_copy_copies(
    disk: Disk,
    source: Seq<char>,
    destination: Seq<char>,
    files: Seq<FileEntryView>,
)
    requires
        lists(disk, source, files),
        source != destination,
    ensures
        run(disk, copy_spec(source, destination, files)) == Some(
            disk.insert(
                destination,
                folder_of(disk, destination).union_prefer_right(disk[source]),
            ),
        ),
{
    let made = if disk.dom().contains(destination) {
        disk
    } else {
        disk.insert(destination, Map::empty())
    };
    let create = seq![StepView::CreateDir { dir: destination }];
    assert(run(disk, create.drop_last()) == Some(disk));
    lemma_run_concat(disk, create, copy_files_spec(source, destination, files));
    lemma_copy_files(made, source, destination, files);
    assert(disk[source].restrict(regular_names(files)) =~= disk[source]);
}

/// Emptying a listed directory succeeds. Afterwards the directory is
/// there and holds no file, and every other directory is as before.
pub proof fn law_delete_empties(disk: Disk, dir: Seq<char>, files: Seq<FileEntryView>)
    requires
        lists(disk, dir, files),
    ensures
        run(disk, delete_spec(dir, files)) == Some(disk.insert(dir, Map::empty())),
{
    lemma_delete_files(disk, dir, files);
    assert(disk[dir].remove_keys(regular_names(files)) =~= Map::<Seq<char>, Seq<u8>>::empty());
}

/// The steps of a plan of two stages.
pub proof fn lemma_all_steps_two(first: StageView, second: StageView)
    ensures
        all_steps(seq![first, second]) == first.steps + second.steps,
{
    let both = seq![first, second];
    assert(both.drop_last() =~= seq![first]);
    assert(all_steps(seq![first].drop_last()) =~= Seq::<StepView>::empty());
    assert(all_steps(seq![first]) =~= first.steps);
}

/// The steps of a backup followed by the emptying of the save.
pub proof fn lemma_backup_and_delete_steps(
    data: SavesDataView,
    save: SaveView,
    files: Seq<FileEntryView>,
)
    ensures
        all_steps(backup_and_delete_spec(data, save, files)) == copy_spec(
            save.path,
            backup_dir_spec(data, save),
            files,
        ) + delete_spec(save.path, files),
{
    let stages = backup_and_delete_spec(data, save, files);
    lemma_all_steps_two(stages[0], stages[1]);
}

/// The steps of an overwrite.
pub proof fn lemma_backup_and_overwrite_steps(
    data: SavesDataView,
    source: SaveView,
    source_files: Seq<FileEntryView>,
    destination: SaveView,
    destination_files: Seq<FileEntryView>,
)
    ensures
        all_steps(
            backup_and_overwrite_spec(
                data,
                source,
                source_files,
                destination,
                destination_files,
            ),
        ) == (copy_spec(
            destination.path,
            backup_dir_spec(data, destination),
            destination_files,
        ) + delete_spec(destination.path, destination_files)) + refill_spec(
            source.path,
            destination.path,
            source_files,
        ),
{
    let first = backup_and_delete_spec(data, destination, destination_files);
    let stages = backup_and_overwrite_spec(
        data,
        source,
        source_files,
        destination,
        destination_files,
    );
    lemma_backup_and_delete_steps(data, destination, destination_files);
    assert(stages.drop_last() =~= first);
}

/// A backup followed by the emptying of the save. Where the save's
/// directory is listed, and the new backup's directory is another one
/// that holds no file but under a name of the save's files, the plan
/// succeeds. Afterwards the new backup is there and holds the files that
/// the save held, the save's directory is there and holds no file, and
/// every other directory is as before.
pub proof fn law_backup_and_delete(
    disk: Disk,
    data: SavesDataView,
    save: SaveView,
    files: Seq<FileEntryView>,
)
    requires
        lists(disk, save.path, files),
        backup_dir_spec(data, save) != save.path,
        folder_of(disk, backup_dir_spec(data, save)).dom().subset_of(disk[save.path].dom()),
    ensures
        run(disk, all_steps(backup_and_delete_spec(data, save, files))) == Some(
            disk.insert(backup_dir_spec(data, save), disk[save.path]).insert(
                save.path,
                Map::empty(),
            ),
        ),
{
    let backup = backup_dir_spec(data, save);
    lemma_backup_and_delete_steps(data, save, files);
    let copy = copy_spec(save.path, backup, files);
    let delete = delete_spec(save.path, files);
    lemma_run_concat(disk, copy, delete);
    law_copy_copies(disk, save.path, backup, files);
    let copied = disk.insert(backup, disk[save.path]);
    assert(folder_of(disk, backup).union_prefer_right(disk[save.path]) =~= disk[save.path]);
    law_delete_empties(copied, save.path, files);
}

/// The last stage of an overwrite works on the destination only.
pub proof fn lemma_refill_writes_only(
    source: Seq<char>,
    destination: Seq<char>,
    source_files: Seq<FileEntryView>,
)
    ensures
        writes_only(refill_spec(source, destination, source_files), destination),
{
    lemma_copy_writes_only(source, destination, source_files);
}

/// An overwrite: the backup and the emptying of the destination, then the
/// copy of the source. The destination's directory is listed, and so is
/// the source's where it is another; the new backup's directory is
/// neither of them.
///
/// Then the plan succeeds. Afterwards the new backup holds the files that
/// the destination held. Where the source is another directory, the
/// destination holds the files that the source held, and the source is as
/// before. Where the two are one directory, it holds no file.
pub proof fn law_backup_and_overwrite(
    disk: Disk,
    data: SavesDataView,
    source: SaveView,
    source_files: Seq<FileEntryView>,
    destination: SaveView,
    destination_files: Seq<FileEntryView>,
)
    requires
        lists(disk, destination.path, destination_files),
        source.path != destination.path ==> lists(disk, source.path, source_files),
        backup_dir_spec(data, destination) != source.path,
        backup_dir_spec(data, destination) != destination.path,
    ensures
        ({
            let done = run(
                disk,
                all_steps(
                    backup_and_overwrite_spec(
                        data,
                        source,
                        source_files,
                        destination,
                        destination_files,
                    ),
                ),
            );
            let backup = backup_dir_spec(data, destination);
            &&& done matches Some(after)
            &&& after.dom().contains(backup)
            &&& disk[destination.path].submap_of(after[backup])
            &&& after.dom().contains(destination.path)
            &&& after.dom().contains(source.path)
            &&& if source.path == destination.path {
                after[destination.path] == Map::<Seq<char>, Seq<u8>>::empty()
            } else {
                after[destination.path] == disk[source.path] && after[source.path]
                    == disk[source.path]
            }
        }),
{
    let backup = backup_dir_spec(data, destination);
    let a = copy_spec(destination.path, backup, destination_files);
    let b = delete_spec(destination.path, destination_files);
    let c = refill_spec(source.path, destination.path, source_files);
    lemma_backup_and_overwrite_steps(data, source, source_files, destination, destination_files);
    lemma_run_concat(disk, a, b);
    lemma_run_concat(disk, a + b, c);
    law_copy_copies(disk, destination.path, backup, destination_files);
    let kept = folder_of(disk, backup).union_prefer_right(disk[destination.path]);
    let copied = disk.insert(backup, kept);
    law_delete_empties(copied, destination.path, destination_files);
    let emptied = copied.insert(destination.path, Map::empty());
    if source.path != destination.path {
        law_copy_copies(emptied, source.path, destination.path, source_files);
    } else {
        assert(run(emptied, c.drop_last()) == Some(emptied));
    }
}

/// The backup comes before every loss. The destination of an overwrite is
/// listed, and the new backup's directory is neither the source nor the
/// destination. Then however many steps of the overwrite have been done
/// when it is interrupted, if they have succeeded, the destination is as
/// it was or else the new backup holds the files that the destination
/// held; and the source, where it is not the destination, is as it was.
pub proof fn law_backup_precedes_loss(
    disk: Disk,
    data: SavesDataView,
    source: SaveView,
    source_files: Seq<FileEntryView>,
    destination: SaveView,
    destination_files: Seq<FileEntryView>,
    done: int,
)
    requires
        lists(disk, destination.path, destination_files),
        backup_dir_spec(data, destination) != source.path,
        backup_dir_spec(data, destination) != destination.path,
        0 <= done <= all_steps(
            backup_and_overwrite_spec(
                data,
                source,
                source_files,
                destination,
                destination_files,
            ),
        ).len(),
    ensures
        ({
            let steps = all_steps(
                backup_and_overwrite_spec(
                    data,
                    source,
                    source_files,
                    destination,
                    destination_files,
                ),
            );
            let backup = backup_dir_spec(data, destination);
            run(disk, steps.take(done)) matches Some(now) ==> {
                &&& source.path != destination.path ==> same_at(disk, now, source.path)
                &&& (now.dom().contains(destination.path) && now[destination.path]
                    == disk[destination.path]) || (now.dom().contains(backup)
                    && disk[destination.path].submap_of(now[backup]))
            }
        }),
{
    let backup = backup_dir_spec(data, destination);
    let steps = all_steps(
        backup_and_overwrite_spec(data, source, source_files, destination, destination_files),
    );
    let a = copy_spec(destination.path, backup, destination_files);
    let b = delete_spec(destination.path, destination_files);
    let c = refill_spec(source.path, destination.path, source_files);
    lemma_backup_and_overwrite_steps(data, source, source_files, destination, destination_files);
    if run(disk, steps.take(done)) is Some {
        let now = run(disk, steps.take(done))->Some_0;
        law_copy_copies(disk, destination.path, backup, destination_files);
        let kept = folder_of(disk, backup).union_prefer_right(disk[destination.path]);
        let copied = disk.insert(backup, kept);
        law_delete_empties(copied, destination.path, destination_files);
        let emptied = copied.insert(destination.path, Map::empty());
        lemma_run_concat(disk, a, b);
        lemma_copy_writes_only(destination.path, backup, destination_files);
        lemma_delete_writes_only(destination.path, destination_files);
        lemma_refill_writes_only(source.path, destination.path, source_files);
        if done <= a.len() {
            assert(steps.take(done) =~= a.take(done));
            lemma_writes_only_take(a, backup, done);
            lemma_frame(disk, a.take(done), backup);
            assert(same_at(disk, now, destination.path));
        } else if done <= a.len() + b.len() {
            let part = b.take(done - a.len());
            assert(steps.take(done) =~= a + part);
            lemma_run_concat(disk, a, part);
            lemma_writes_only_take(b, destination.path, done - a.len());
            lemma_frame(copied, part, destination.path);
            assert(same_at(copied, now, backup));
            if source.path != destination.path {
                assert(same_at(copied, now, source.path));
            }
        } else {
            let part = c.take(done - a.len() - b.len());
            assert(steps.take(done) =~= (a + b) + part);
            lemma_run_concat(disk, a + b, part);
            lemma_writes_only_take(c, destination.path, done - a.len() - b.len());
            lemma_frame(emptied, part, destination.path);
            assert(same_at(emptied, now, backup));
            if source.path != destination.path {
                assert(same_at(emptied, now, source.path));
            }
        }
    }
}

/// Where the directories of an overwrite are listed, and the new backup's
/// directory is neither of them, every step of the overwrite succeeds.
pub proof fn law_overwrite_goes_through(
    disk: Disk,
    data: SavesDataView,
    source: SaveView,
    source_files: Seq<FileEntryView>,
    destination: SaveView,
    destination_files: Seq<FileEntryView>,
    done: int,
)
    requires
        lists(disk, destination.path, destination_files),
        source.path != destination.path ==> lists(disk, source.path, source_files),
        backup_dir_spec(data, destination) != source.path,
        backup_dir_spec(data, destination) != destination.path,
        0 <= done <= all_steps(
            backup_and_overwrite_spec(
                data,
                source,
                source_files,
                destination,
                destination_files,
            ),
        ).len(),
    ensures
        run(
            disk,
            all_steps(
                backup_and_overwrite_spec(
                    data,
                    source,
                    source_files,
                    destination,
                    destination_files,
                ),
            ).take(done),
        ) is Some,
{
    law_backup_and_overwrite(disk, data, source, source_files, destination, destination_files);
    lemma_run_prefix(
        disk,
        all_steps(
            backup_and_overwrite_spec(
                data,
                source,
                source_files,
                destination,
                destination_files,
            ),
        ),
        done,
    );
}

/// A removal: the backup and the emptying of a save, then the removal of
/// its directory. Where the save's directory is listed and holds no
/// directory, and the new backup's directory is another one that would
/// not lie in the save's and holds no file but under a name of the save's
/// files, the steps succeed. Afterwards the new backup holds the files
/// that the save held, the save's directory is gone, and every other
/// directory is as before.
pub proof fn law_backup_and_remove(
    disk: Disk,
    data: SavesDataView,
    save: SaveView,
    files: Seq<FileEntryView>,
)
    requires
        lists(disk, save.path, files),
        backup_dir_spec(data, save) != save.path,
        folder_of(disk, backup_dir_spec(data, save)).dom().subset_of(disk[save.path].dom()),
        !has_subdirectory(disk, save.path),
        forall|name: Seq<char>|
            #[trigger] join_spec(save.path, name) != backup_dir_spec(data, save),
    ensures
        run(
            disk,
            all_steps(
                backup_and_delete_spec(data, save, files).push(
                    StageView {
                        operation: Operation::Delete,
                        save: save.name,
                        steps: seq![StepView::RemoveDir { dir: save.path }],
                    },
                ),
            ),
        ) == Some(disk.insert(backup_dir_spec(data, save), disk[save.path]).remove(save.path)),
{
    let backup = backup_dir_spec(data, save);
    let first = backup_and_delete_spec(data, save, files);
    let remove = seq![StepView::RemoveDir { dir: save.path }];
    let stages = first.push(
        StageView { operation: Operation::Delete, save: save.name, steps: remove },
    );
    assert(stages.drop_last() =~= first);
    lemma_run_concat(disk, all_steps(first), remove);
    law_backup_and_delete(disk, data, save, files);
    let emptied = disk.insert(backup, disk[save.path]).insert(save.path, Map::empty());
    assert(run(emptied, remove.drop_last()) == Some(emptied));
    assert(!has_subdirectory(emptied, save.path)) by {
    }
}

/// A refresh only makes what is missing. The steps that come before the
/// listing succeed; afterwards the directories of the external saves and
/// of the backups are there, and every directory that was there is as
/// before.
pub proof fn law_roots_are_made(disk: Disk, data: SavesDataView)
    ensures
        run(disk, roots_spec(data)) matches Some(after) && {
            &&& after.dom() == disk.dom().insert(data.external_saves_dir).insert(
                data.backups_dir,
            )
            &&& forall|dir: Seq<char>|
                disk.dom().contains(dir) ==> #[trigger] after[dir] == disk[dir]
        },
{
    let steps = roots_spec(data);
    let first = seq![steps[0]];
    assert(steps.drop_last() =~= first);
    assert(run(disk, first.drop_last()) == Some(disk));
    let between = run(disk, first)->Some_0;
}

/// The content of the metadata file of a directory, where it holds one.
pub open spec fn metadata_of(folder: Folder) -> Option<Seq<u8>> {
    if folder.dom().contains(METADATA_FILE@) {
        Some(folder[METADATA_FILE@])
    } else {
        None
    }
}

/// Whether `entries` is a listing of the directory `root` of saves: an
/// entry is a directory exactly where the directory of its name lies in
/// `root`, it then comes with the content of that directory's metadata
/// file, every directory in `root` is listed, and no name is listed
/// twice.
pub open spec fn lists_saves(disk: Disk, root: Seq<char>, entries: Seq<DirEntryView>) -> bool {
    &&& forall|i: int|
        0 <= i < entries.len() ==> {
            let entry = #[trigger] entries[i];
            &&& entry.is_dir <==> disk.dom().contains(join_spec(root, entry.name))
            &&& entry.is_dir ==> entry.metadata == metadata_of(disk[join_spec(root, entry.name)])
        }
    &&& forall|i: int, j: int|
        0 <= i < j < entries.len() ==> (#[trigger] entries[i]).name != (#[trigger] entries[j]).name
    &&& forall|name: Seq<char>|
        disk.dom().contains(#[trigger] join_spec(root, name)) ==> exists|i: int|
            0 <= i < entries.len() && (#[trigger] entries[i]).name == name
}

/// The entry that a new backup of a save is listed as.
pub open spec fn backup_entry_spec(
    disk: Disk,
    data: SavesDataView,
    save: SaveView,
) -> DirEntryView {
    DirEntryView {
        name: backup_name_spec(data.backups.len(), save.name),
        is_dir: true,
        metadata: metadata_of(disk[save.path]),
    }
}

/// A backup is found again. The save's directory is listed and is none of
/// the backups; the directory of the backups is listed, and nothing in it
/// has the new backup's name yet. Then after the backup and the emptying
/// of the save, a listing of the directory of the backups is the one from
/// before with one entry more: the new backup, under its name, with the
/// metadata file that the save held. A scan of that listing gives the
/// saves from before and, behind them, the new backup with the decoded
/// metadata of the save; it fails where the scan before failed or that
/// metadata does not decode.
pub proof fn law_backup_is_listed(
    disk: Disk,
    data: SavesDataView,
    save: SaveView,
    files: Seq<FileEntryView>,
    entries: Seq<DirEntryView>,
)
    requires
        lists(disk, save.path, files),
        lists_saves(disk, data.backups_dir, entries),
        forall|name: Seq<char>| #[trigger] join_spec(data.backups_dir, name) != save.path,
        forall|i: int|
            0 <= i < entries.len() ==> (#[trigger] entries[i]).name != backup_name_spec(
                data.backups.len(),
                save.name,
            ),
    ensures
        ({
            let entry = backup_entry_spec(disk, data, save);
            let listed = entries.push(entry);
            &&& run(disk, all_steps(backup_and_delete_spec(data, save, files))) matches Some(after)
                && lists_saves(after, data.backups_dir, listed)
            &&& scan_spec(data.backups_dir, listed) == match scan_spec(data.backups_dir, entries) {
                Err(e) => Err(e),
                Ok(found) => match external_spec(data.backups_dir, entry) {
                    Err(e) => Err(e),
                    Ok(backup) => Ok(found.push(backup)),
                },
            }
            &&& external_spec(data.backups_dir, entry) matches Ok(backup) ==> {
                &&& backup.name == backup_name_spec(data.backups.len(), save.name)
                &&& backup.path == backup_dir_spec(data, save)
                &&& entry.metadata matches Some(text) && decode_spec(text) == Ok::<
                    SaveInfoView,
                    MetadataError,
                >(backup.info->Some_0)
            }
        }),
{
    let root = data.backups_dir;
    let name = backup_name_spec(data.backups.len(), save.name);
    let backup = backup_dir_spec(data, save);
    let entry = backup_entry_spec(disk, data, save);
    let listed = entries.push(entry);
    assert(!disk.dom().contains(backup)) by {
        if disk.dom().contains(join_spec(root, name)) {
            let i = choose|i: int| 0 <= i < entries.len() && (#[trigger] entries[i]).name == name;
            assert(entries[i].name != name);
        }
    }
    law_backup_and_delete(disk, data, save, files);
    let after = disk.insert(backup, disk[save.path]).insert(save.path, Map::empty());
    assert(listed.drop_last() =~= entries);
    assert forall|i: int| 0 <= i < listed.len() implies ({
        let e = #[trigger] listed[i];
        &&& e.is_dir <==> after.dom().contains(join_spec(root, e.name))
        &&& e.is_dir ==> e.metadata == metadata_of(after[join_spec(root, e.name)])
    }) by {
        if i < entries.len() {
            assert(listed[i] == entries[i]);
            lemma_join_tells_names(root, entries[i].name, name);
        }
    }
    assert forall|other: Seq<char>|
        after.dom().contains(#[trigger] join_spec(root, other)) implies exists|i: int|
        0 <= i < listed.len() && (#[trigger] listed[i]).name == other by {
        if disk.dom().contains(join_spec(root, other)) {
            let i = choose|i: int| 0 <= i < entries.len() && (#[trigger] entries[i]).name == other;
            assert(listed[i].name == other);
        } else {
            lemma_join_tells_names(root, other, name);
            assert(listed[entries.len() as int].name == other);
        }
    }
    assert forall|i: int, j: int| 0 <= i < j < listed.len() implies (#[trigger] listed[i]).name
        != (#[trigger] listed[j]).name by {
        if j < entries.len() {
            assert(listed[i] == entries[i] && listed[j] == entries[j]);
        } else {
            assert(listed[i] == entries[i]);
        }
    }
}

/// Two names that are joined to one directory give one path only where
/// they are one name.
pub proof fn lemma_join_tells_names(dir: Seq<char>, one: Seq<char>, other: Seq<char>)
    ensures
        join_spec(dir, one) == join_spec(dir, other) <==> one == other,
{
    if join_spec(dir, one) == join_spec(dir, other) {
        assert(join_spec(dir, one).skip(dir.len() as int + 1) =~= one);
        assert(join_spec(dir, other).skip(dir.len() as int + 1) =~= other);
    }
}

} // verus!
