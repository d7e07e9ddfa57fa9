//! File operations as data: what copying, emptying and removing a save
//! asks of the file system, in the order it is to be done.

use vstd::prelude::*;
use vstd::string::*;
use crate::save::Save;

verus! {

/// One entry of a save's directory, as the caller found it.
#[derive(Clone, Debug, PartialEq, Eq)]
pub struct FileEntry {
    /// The entry's file name.
    pub name: String,
    /// Whether the entry is a regular file.
    pub is_file: bool,
}

/// The mathematical content of a `FileEntry`.
pub struct FileEntryView {
    pub name: Seq<char>,
    pub is_file: bool,
}

impl View for FileEntry {
    type V = FileEntryView;

    open spec fn view(&self) -> FileEntryView {
        FileEntryView { name: self.name@, is_file: self.is_file }
    }
}

/// The views of a directory's entries.
pub open spec fn files_view(files: Seq<FileEntry>) -> Seq<FileEntryView> {
    files.map_values(|f: FileEntry| f@)
}

/// One operation on the file system.
#[derive(Clone, Debug, PartialEq, Eq)]
pub enum Step {
    /// Create the directory, and its parents, unless it is there.
    CreateDir { dir: String },
    /// Copy the file `name` of the directory `from` into the directory
    /// `to`, under the same name.
    CopyFile { from: String, to: String, name: String },
    /// Remove the file `name` of the directory `dir`.
    RemoveFile { dir: String, name: String },
    /// Remove the directory, which must be empty.
    RemoveDir { dir: String },
}

/// The mathematical content of a `Step`.
pub enum StepView {
    CreateDir { dir: Seq<char> },
    CopyFile { from: Seq<char>, to: Seq<char>, name: Seq<char> },
    RemoveFile { dir: Seq<char>, name: Seq<char> },
    RemoveDir { dir: Seq<char> },
}

impl View for Step {
    type V = StepView;

    open spec fn view(&self) -> StepView {
        match self {
            Step::CreateDir { dir } => StepView::CreateDir { dir: dir@ },
            Step::CopyFile { from, to, name } => StepView::CopyFile {
                from: from@,
                to: to@,
                name: name@,
            },
            Step::RemoveFile { dir, name } => StepView::RemoveFile { dir: dir@, name: name@ },
            Step::RemoveDir { dir } => StepView::RemoveDir { dir: dir@ },
        }
    }
}

/// The views of a list of steps.
pub open spec fn steps_view(steps: Seq<Step>) -> Seq<StepView> {
    steps.map_values(|s: Step| s@)
}

/// One copy for each regular file of a listing, in the order of the
/// listing. Entries that are no regular files are left out.
pub open spec fn copy_files_spec(from: Seq<char>, to: Seq<char>, files: Seq<FileEntryView>) -> Seq<
    StepView,
>
    decreases files.len(),
{
    if files.len() == 0 {
        Seq::empty()
    } else {
        let before = copy_files_spec(from, to, files.drop_last());
        if files.last().is_file {
            before.push(StepView::CopyFile { from, to, name: files.last().name })
        } else {
            before
        }
    }
}

/// Copying a save: make the destination, then copy the regular files
/// that lie directly in the source.
pub open spec fn copy_spec(from: Seq<char>, to: Seq<char>, files: Seq<FileEntryView>) -> Seq<
    StepView,
> {
    seq![StepView::CreateDir { dir: to }] + copy_files_spec(from, to, files)
}

/// Emptying a save: one removal for each regular file of a listing, in the
/// order of the listing. The directory itself stays.
pub open spec fn delete_spec(dir: Seq<char>, files: Seq<FileEntryView>) -> Seq<StepView>
    decreases files.len(),
{
    if files.len() == 0 {
        Seq::empty()
    } else {
        let before = delete_spec(dir, files.drop_last());
        if files.last().is_file {
            before.push(StepView::RemoveFile { dir, name: files.last().name })
        } else {
            before
        }
    }
}

/// The steps that copy the regular files of `from`, listed in `files`,
/// into `to`.
pub fn copy_steps(from: &str, to: &str, files: &Vec<FileEntry>) -> (steps: Vec<Step>)
    ensures
        steps_view(steps@) == copy_spec(from@, to@, files_view(files@)),
{
    let ghost all = files_view(files@);
    let mut steps: Vec<Step> = Vec::new();
    steps.push(Step::CreateDir { dir: String::from_str(to) });
    let ghost head = steps_view(steps@);
    let mut i: usize = 0;
    while i < files.len()
        invariant
            all == files_view(files@),
            i <= files@.len(),
            head == seq![StepView::CreateDir { dir: to@ }],
            steps_view(steps@) =~= head + copy_files_spec(from@, to@, all.take(i as int)),
        decreases files@.len() - i,
    {
        proof {
            assert(all.take(i + 1).drop_last() =~= all.take(i as int));
        }
        if files[i].is_file {
            let ghost before = steps@;
            let step = Step::CopyFile {
                from: String::from_str(from),
                to: String::from_str(to),
                name: files[i].name.clone(),
            };
            steps.push(step);
            assert(steps_view(steps@) =~= steps_view(before).push(step@));
        }
        i += 1;
    }
    proof {
        assert(all.take(i as int) =~= all);
    }
    steps
}

/// The steps that remove the regular files of `dir`, listed in `files`.
pub fn delete_steps(dir: &str, files: &Vec<FileEntry>) -> (steps: Vec<Step>)
    ensures
        steps_view(steps@) == delete_spec(dir@, files_view(files@)),
{
    let ghost all = files_view(files@);
    let mut steps: Vec<Step> = Vec::new();
    let mut i: usize = 0;
    while i < files.len()
        invariant
            all == files_view(files@),
            i <= files@.len(),
            steps_view(steps@) =~= delete_spec(dir@, all.take(i as int)),
        decreases files@.len() - i,
    {
        proof {
            assert(all.take(i + 1).drop_last() =~= all.take(i as int));
        }
        if files[i].is_file {
            let step = Step::RemoveFile {
                dir: String::from_str(dir),
                name: files[i].name.clone(),
            };
            steps.push(step);
        }
        i += 1;
    }
    proof {
        assert(all.take(i as int) =~= all);
    }
    steps
}

impl Save {
    /// The steps that copy this save into `destination`: the destination
    /// is made if need be, then every regular file that lies directly in
    /// the save's directory is copied. `files` is the listing of that
    /// directory. Files in directories below it are not copied, and the
    /// save itself is left as it is.
    pub fn copy(&self, destination: &str, files: &Vec<FileEntry>) -> (steps: Vec<Step>)
        ensures
            steps_view(steps@) == copy_spec(self.path@, destination@, files_view(files@)),
    {
        copy_steps(self.path.as_str(), destination, files)
    }

    /// The steps that empty this save: every regular file that lies
    /// directly in its directory is removed, the directory stays. `files`
    /// is the listing of that directory.
    pub fn delete(&self, files: &Vec<FileEntry>) -> (steps: Vec<Step>)
        ensures
            steps_view(steps@) == delete_spec(self.path@, files_view(files@)),
    {
        delete_steps(self.path.as_str(), files)
    }

    /// The step that removes this save's directory, which has to be empty
    /// by then.
    pub fn delete_dir(&self) -> (step: Step)
        ensures
            step@ == (StepView::RemoveDir { dir: self.path@ }),
    {
        Step::RemoveDir { dir: self.path.clone() }
    }

    /// The step that makes this save's directory.
    pub fn create_dir(&self) -> (step: Step)
        ensures
            step@ == (StepView::CreateDir { dir: self.path@ }),
    {
        Step::CreateDir { dir: self.path.clone() }
    }
}

/// What a stage of a plan is for.
#[derive(Clone, Copy, Debug, PartialEq, Eq, Structural)]
pub enum Operation {
    /// Copy a save into a new backup.
    Backup,
    /// Empty a save.
    Delete,
    /// Copy a save into another.
    Copy,
}

/// A stage of a plan: the steps of one operation on one save. Where a step
/// fails, the operation and the save's name say what went wrong.
#[derive(Clone, Debug, PartialEq, Eq)]
pub struct Stage {
    pub operation: Operation,
    /// The name that the save is shown under.
    pub save: String,
    pub steps: Vec<Step>,
}

/// The mathematical content of a `Stage`.
pub struct StageView {
    pub operation: Operation,
    pub save: Seq<char>,
    pub steps: Seq<StepView>,
}

impl View for Stage {
    type V = StageView;

    open spec fn view(&self) -> StageView {
        StageView { operation: self.operation, save: self.save@, steps: steps_view(self.steps@) }
    }
}

impl StageView {
    /// What to say where a step of the stage fails: the operation and the
    /// save's name.
    pub open spec fn failure_spec(self) -> Seq<char> {
        match self.operation {
            Operation::Backup => "failed to back up save "@ + self.save,
            Operation::Delete => "failed to delete save "@ + self.save,
            Operation::Copy => "failed to copy save "@ + self.save,
        }
    }
}

impl Stage {
    /// What to say where a step of the stage fails: the operation and the
    /// save's name.
    pub fn failure_message(&self) -> (text: String)
        ensures
            text@ == self@.failure_spec(),
    {
        let mut text = match self.operation {
            Operation::Backup => String::from_str("failed to back up save "),
            Operation::Delete => String::from_str("failed to delete save "),
            Operation::Copy => String::from_str("failed to copy save "),
        };
        text.append(self.save.as_str());
        text
    }
}

/// The views of a plan's stages.
pub open spec fn stages_view(stages: Seq<Stage>) -> Seq<StageView> {
    stages.map_values(|s: Stage| s@)
}

/// The steps of a plan, stage after stage.
pub open spec fn all_steps(stages: Seq<StageView>) -> Seq<StepView>
    decreases stages.len(),
{
    if stages.len() == 0 {
        Seq::empty()
    } else {
        all_steps(stages.drop_last()) + stages.last().steps
    }
}

} // verus!
