//! The three collections of saves: the game's slots, the external saves
//! and the backups.

use vstd::prelude::*;
use vstd::string::*;
use crate::error::{RefreshError, RefreshErrorView};
use crate::order::{sort_by_name, sort_by_name_spec, sorted_by_name};
use crate::plan::{
    copy_spec, copy_steps, delete_spec, delete_steps, files_view, stages_view, steps_view,
    FileEntry, FileEntryView, Operation, Stage, StageView, Step, StepView,
};
use crate::save::{all_wf, saves_view, Save, SaveView};
use crate::scan::{
    entries_view, four_slots, four_slots_spec, is_slot_row, lemma_four_slots,
    lemma_live_slots_found, lemma_scan_saves_exist, live_slots, live_slots_spec,
    pattern_accepted, saves_from_dir, scan_spec, DirEntry, DirEntryView,
};
use crate::text::{decimal, decimal_spec, join, join_spec, same_text};

verus! {

/// The saves that are known, and the directories they were found in.
#[derive(Debug, PartialEq, Eq)]
pub struct SavesData {
    /// The directory that the game keeps its slots in.
    pub game_slots_dir: String,
    /// The directory of the external saves.
    pub external_saves_dir: String,
    /// The directory of the backups.
    pub backups_dir: String,
    /// The game's slots.
    pub slots: Vec<Save>,
    /// The external saves.
    pub saves: Vec<Save>,
    /// The backups.
    pub backups: Vec<Save>,
}

/// The mathematical content of a `SavesData`.
pub struct SavesDataView {
    pub game_slots_dir: Seq<char>,
    pub external_saves_dir: Seq<char>,
    pub backups_dir: Seq<char>,
    pub slots: Seq<SaveView>,
    pub saves: Seq<SaveView>,
    pub backups: Seq<SaveView>,
}

impl View for SavesData {
    type V = SavesDataView;

    open spec fn view(&self) -> SavesDataView {
        SavesDataView {
            game_slots_dir: self.game_slots_dir@,
            external_saves_dir: self.external_saves_dir@,
            backups_dir: self.backups_dir@,
            slots: saves_view(self.slots@),
            saves: saves_view(self.saves@),
            backups: saves_view(self.backups@),
        }
    }
}

impl SavesDataView {
    /// Whether every save of the three collections is well formed.
    pub open spec fn wf(self) -> bool {
        all_wf(self.slots) && all_wf(self.saves) && all_wf(self.backups)
    }
}

/// The collections that listings of the three directories give. Nothing of
/// the collections as they were goes into the new ones.
pub open spec fn refresh_spec(
    data: SavesDataView,
    slots: Seq<DirEntryView>,
    saves: Seq<DirEntryView>,
    backups: Seq<DirEntryView>,
) -> Result<SavesDataView, RefreshErrorView> {
    if !pattern_accepted(slots) {
        Err(RefreshErrorView::Pattern)
    } else {
        match scan_spec(data.external_saves_dir, saves) {
            Err(e) => Err(RefreshErrorView::Saves(e)),
            Ok(found_saves) => match scan_spec(data.backups_dir, backups) {
                Err(e) => Err(RefreshErrorView::Backups(e)),
                Ok(found_backups) => Ok(
                    SavesDataView {
                        slots: four_slots_spec(
                            data.game_slots_dir,
                            live_slots_spec(data.game_slots_dir, slots),
                        ),
                        saves: sort_by_name_spec(found_saves),
                        backups: sort_by_name_spec(found_backups),
                        ..data
                    },
                ),
            },
        }
    }
}

/// What a refresh asks of the file system before the directories are
/// listed: the directories of the external saves and of the backups are
/// made where they are missing. A refresh changes nothing else.
pub open spec fn roots_spec(data: SavesDataView) -> Seq<StepView> {
    seq![
        StepView::CreateDir { dir: data.external_saves_dir },
        StepView::CreateDir { dir: data.backups_dir },
    ]
}

/// The name of the next backup of a save: the number of backups there
/// are, an underscore, and the save's name.
pub open spec fn backup_name_spec(count: nat, name: Seq<char>) -> Seq<char> {
    decimal_spec(count) + seq!['_'] + name
}

/// The directory of the next backup of a save.
pub open spec fn backup_dir_spec(data: SavesDataView, save: SaveView) -> Seq<char> {
    join_spec(data.backups_dir, backup_name_spec(data.backups.len(), save.name))
}

/// Backing a save up and emptying it: first every file is copied into a
/// new backup, then the files are removed.
pub open spec fn backup_and_delete_spec(
    data: SavesDataView,
    save: SaveView,
    files: Seq<FileEntryView>,
) -> Seq<StageView> {
    seq![
        StageView {
            operation: Operation::Backup,
            save: save.name,
            steps: copy_spec(save.path, backup_dir_spec(data, save), files),
        },
        StageView {
            operation: Operation::Delete,
            save: save.name,
            steps: delete_spec(save.path, files),
        },
    ]
}

/// The last stage of an overwrite: the copy of the source into the
/// destination. Where the two are one directory, that directory has been
/// emptied by then and nothing is left to copy: the directory is made
/// sure of, and that is all.
pub open spec fn refill_spec(
    source: Seq<char>,
    destination: Seq<char>,
    source_files: Seq<FileEntryView>,
) -> Seq<StepView> {
    if source == destination {
        seq![StepView::CreateDir { dir: destination }]
    } else {
        copy_spec(source, destination, source_files)
    }
}

/// Overwriting a save with another: the destination is backed up and
/// emptied, then what is then in the source is copied into it.
pub open spec fn backup_and_overwrite_spec(
    data: SavesDataView,
    source: SaveView,
    source_files: Seq<FileEntryView>,
    destination: SaveView,
    destination_files: Seq<FileEntryView>,
) -> Seq<StageView> {
    backup_and_delete_spec(data, destination, destination_files).push(
        StageView {
            operation: Operation::Copy,
            save: source.name,
            steps: refill_spec(source.path, destination.path, source_files),
        },
    )
}

impl SavesData {
    /// Collections for the three directories, with nothing in them until
    /// the first refresh.
    pub fn new(game_slots_dir: String, external_saves_dir: String, backups_dir: String) -> (data:
        Self)
        ensures
            data@ == (SavesDataView {
                game_slots_dir: game_slots_dir@,
                external_saves_dir: external_saves_dir@,
                backups_dir: backups_dir@,
                slots: Seq::empty(),
                saves: Seq::empty(),
                backups: Seq::empty(),
            }),
            data@.wf(),
    {
        let data = SavesData {
            game_slots_dir,
            external_saves_dir,
            backups_dir,
            slots: Vec::new(),
            saves: Vec::new(),
            backups: Vec::new(),
        };
        assert(data@.slots =~= Seq::empty());
        data
    }

    /// Makes the collections anew from listings of the three directories.
    ///
    /// The slots become the row of the four slots: for each number the
    /// slot that was found, else its copy from before a point of no return,
    /// else a stand-in that does not exist. An entry of the slots
    /// directory whose metadata is missing or does not decode is passed
    /// over. The external saves and the backups become one save for each
    /// directory of their listings, in ascending order of names; there a
    /// directory whose metadata is missing or does not decode fails the
    /// refresh. A refresh that fails leaves the collections as they were.
    pub fn refresh(
        &mut self,
        slots: &Vec<DirEntry>,
        saves: &Vec<DirEntry>,
        backups: &Vec<DirEntry>,
    ) -> (r: Result<(), RefreshError>)
        ensures
            match refresh_spec(
                old(self)@,
                entries_view(slots@),
                entries_view(saves@),
                entries_view(backups@),
            ) {
                Ok(next) => r is Ok && final(self)@ == next,
                Err(e) => r is Err && r->Err_0@ == e && *final(self) == *old(self),
            },
            r is Ok ==> final(self)@.wf(),
            r is Ok ==> is_slot_row(
                final(self)@.game_slots_dir,
                live_slots_spec(old(self)@.game_slots_dir, entries_view(slots@)),
                final(self)@.slots,
            ),
            r is Ok ==> sorted_by_name(final(self)@.slots),
            r is Ok ==> sorted_by_name(final(self)@.saves),
            r is Ok ==> sorted_by_name(final(self)@.backups),
            r is Ok ==> final(self)@.saves.to_multiset() == scan_spec(
                old(self)@.external_saves_dir,
                entries_view(saves@),
            )->Ok_0.to_multiset(),
            r is Ok ==> final(self)@.backups.to_multiset() == scan_spec(
                old(self)@.backups_dir,
                entries_view(backups@),
            )->Ok_0.to_multiset(),
    {
        let live = match live_slots(self.game_slots_dir.as_str(), slots) {
            Ok(live) => live,
            Err(_) => {
                return Err(RefreshError::Pattern);
            },
        };
        let found_saves = match saves_from_dir(self.external_saves_dir.as_str(), saves) {
            Ok(found) => found,
            Err(e) => {
                return Err(RefreshError::Saves(e));
            },
        };
        let found_backups = match saves_from_dir(self.backups_dir.as_str(), backups) {
            Ok(found) => found,
            Err(e) => {
                return Err(RefreshError::Backups(e));
            },
        };
        let row = four_slots(self.game_slots_dir.as_str(), &live);
        let sorted_saves = sort_by_name(&found_saves);
        let sorted_backups = sort_by_name(&found_backups);
        proof {
            lemma_live_slots_found(self.game_slots_dir@, entries_view(slots@));
            lemma_four_slots(self.game_slots_dir@, saves_view(live@));
            lemma_scan_saves_exist(self.external_saves_dir@, entries_view(saves@));
            lemma_scan_saves_exist(self.backups_dir@, entries_view(backups@));
        }
        self.slots = row;
        self.saves = sorted_saves;
        self.backups = sorted_backups;
        Ok(())
    }

    /// The steps to do before the directories are listed for a refresh:
    /// they make the directories of the external saves and of the backups
    /// where those are missing.
    pub fn create_roots(&self) -> (steps: Vec<Step>)
        ensures
            steps_view(steps@) == roots_spec(self@),
    {
        let mut steps: Vec<Step> = Vec::new();
        steps.push(Step::CreateDir { dir: self.external_saves_dir.clone() });
        steps.push(Step::CreateDir { dir: self.backups_dir.clone() });
        steps
    }

    /// The name of the next backup of a save of the given name.
    pub fn backup_name(&self, name: &str) -> (backup: String)
        ensures
            backup@ == backup_name_spec(self@.backups.len(), name@),
    {
        proof {
            reveal_strlit("_");
        }
        let mut backup = decimal(self.backups.len());
        backup.append("_");
        backup.append(name);
        backup
    }

    /// The plan that backs a save up and then empties it. `files` is the
    /// listing of the save's directory. The backup is done before anything
    /// is removed.
    pub fn backup_and_delete(&self, save: &Save, files: &Vec<FileEntry>) -> (plan: Vec<Stage>)
        ensures
            stages_view(plan@) == backup_and_delete_spec(self@, save@, files_view(files@)),
    {
        let name = self.backup_name(save.name.as_str());
        let backup_dir = join(self.backups_dir.as_str(), name.as_str());
        let backup = Stage {
            operation: Operation::Backup,
            save: save.name.clone(),
            steps: copy_steps(save.path.as_str(), backup_dir.as_str(), files),
        };
        let delete = Stage {
            operation: Operation::Delete,
            save: save.name.clone(),
            steps: delete_steps(save.path.as_str(), files),
        };
        let mut plan: Vec<Stage> = Vec::new();
        plan.push(backup);
        plan.push(delete);
        plan
    }

    /// The plan that overwrites `destination` with `source`: the
    /// destination is backed up, then emptied, then the source is copied
    /// into it. The listings are those of the two saves' directories.
    /// Where the two saves are one directory, the backup is made and the
    /// directory is left empty.
    pub fn backup_and_overwrite(
        &self,
        source: &Save,
        source_files: &Vec<FileEntry>,
        destination: &Save,
        destination_files: &Vec<FileEntry>,
    ) -> (plan: Vec<Stage>)
        ensures
            stages_view(plan@) == backup_and_overwrite_spec(
                self@,
                source@,
                files_view(source_files@),
                destination@,
                files_view(destination_files@),
            ),
    {
        let mut plan = self.backup_and_delete(destination, destination_files);
        let steps = if same_text(source.path.as_str(), destination.path.as_str()) {
            let mut steps: Vec<Step> = Vec::new();
            steps.push(destination.create_dir());
            assert(steps_view(steps@) =~= seq![StepView::CreateDir { dir: destination.path@ }]);
            steps
        } else {
            copy_steps(source.path.as_str(), destination.path.as_str(), source_files)
        };
        let copy = Stage { operation: Operation::Copy, save: source.name.clone(), steps };
        plan.push(copy);
        plan
    }
}

/// A refresh forgets. What it makes of the listings depends on the three
/// directories and on nothing else of the collections as they were.
pub proof fn law_refresh_forgets(
    one: SavesDataView,
    other: SavesDataView,
    slots: Seq<DirEntryView>,
    saves: Seq<DirEntryView>,
    backups: Seq<DirEntryView>,
)
    requires
        one.game_slots_dir == other.game_slots_dir,
        one.external_saves_dir == other.external_saves_dir,
        one.backups_dir == other.backups_dir,
    ensures
        refresh_spec(one, slots, saves, backups) == refresh_spec(other, slots, saves, backups),
{
}

/// A refresh is idempotent. From the same listings a second refresh makes
/// the collections that the first has made.
pub proof fn law_refresh_is_idempotent(
    data: SavesDataView,
    slots: Seq<DirEntryView>,
    saves: Seq<DirEntryView>,
    backups: Seq<DirEntryView>,
)
    ensures
        refresh_spec(data, slots, saves, backups) matches Ok(next) ==> refresh_spec(
            next,
            slots,
            saves,
            backups,
        ) == Ok::<SavesDataView, RefreshErrorView>(next),
{
}

} // verus!
