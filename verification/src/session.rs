//! What the user has picked, and what is to be done about it.

use vstd::prelude::*;
use vstd::string::*;
use crate::error::RefreshError;
use crate::plan::{
    copy_spec, copy_steps, files_view, stages_view, steps_view, FileEntry, FileEntryView,
    Operation, Stage, StageView, Step, StepView,
};
use crate::repository::{
    backup_and_delete_spec, backup_and_overwrite_spec, refresh_spec, SavesData, SavesDataView,
};
use crate::save::SaveView;
use crate::scan::{entries_view, find_named, lemma_first_named, DirEntry};
use crate::text::{join, join_spec};

verus! {

/// What can be done with the picked saves.
#[derive(Clone, Copy, Debug, PartialEq, Eq, Structural)]
pub enum Action {
    /// Copy the picked slot into a new external save.
    SaveSlotToNewExternal,
    /// Overwrite the picked slot with the picked external save.
    WriteExternalToSlot,
    /// Overwrite the picked external save with the picked slot.
    WriteSlotToExternal,
    /// Back the picked external save up and remove it.
    DeleteExternal,
}

impl Action {
    /// Whether the plan of the action is made from the listing of the
    /// picked slot: every action but the removal of an external save.
    pub open spec fn reads_slot_spec(self) -> bool {
        self != Action::DeleteExternal
    }

    /// Whether the plan of the action is made from the listing of the
    /// picked external save: every action but the making of a new one.
    pub open spec fn reads_save_spec(self) -> bool {
        self != Action::SaveSlotToNewExternal
    }

    /// What the listing of the picked slot is first read for: the copy
    /// where the slot is the source, the backup where it is overwritten.
    pub open spec fn slot_role_spec(self) -> Option<Operation> {
        match self {
            Action::SaveSlotToNewExternal => Some(Operation::Copy),
            Action::WriteExternalToSlot => Some(Operation::Backup),
            Action::WriteSlotToExternal => Some(Operation::Copy),
            Action::DeleteExternal => None,
        }
    }

    /// What the listing of the picked external save is first read for: the
    /// copy where the save is the source, the backup where it is
    /// overwritten or removed.
    pub open spec fn save_role_spec(self) -> Option<Operation> {
        match self {
            Action::SaveSlotToNewExternal => None,
            Action::WriteExternalToSlot => Some(Operation::Copy),
            Action::WriteSlotToExternal => Some(Operation::Backup),
            Action::DeleteExternal => Some(Operation::Backup),
        }
    }

    /// What the listing of the picked slot is first read for.
    pub fn slot_role(self) -> (role: Option<Operation>)
        ensures
            role == self.slot_role_spec(),
    {
        match self {
            Action::SaveSlotToNewExternal => Some(Operation::Copy),
            Action::WriteExternalToSlot => Some(Operation::Backup),
            Action::WriteSlotToExternal => Some(Operation::Copy),
            Action::DeleteExternal => None,
        }
    }

    /// What the listing of the picked external save is first read for.
    pub fn save_role(self) -> (role: Option<Operation>)
        ensures
            role == self.save_role_spec(),
    {
        match self {
            Action::SaveSlotToNewExternal => None,
            Action::WriteExternalToSlot => Some(Operation::Copy),
            Action::WriteSlotToExternal => Some(Operation::Backup),
            Action::DeleteExternal => Some(Operation::Backup),
        }
    }

    /// Whether the plan of the action is made from the listing of the
    /// picked slot.
    pub fn reads_slot(self) -> (reads: bool)
        ensures
            reads == self.reads_slot_spec(),
    {
        match self {
            Action::DeleteExternal => false,
            _ => true,
        }
    }

    /// Whether the plan of the action is made from the listing of the
    /// picked external save.
    pub fn reads_save(self) -> (reads: bool)
        ensures
            reads == self.reads_save_spec(),
    {
        match self {
            Action::SaveSlotToNewExternal => false,
            _ => true,
        }
    }
}

/// What the user did.
#[derive(Clone, Debug, PartialEq, Eq)]
pub enum Message {
    SlotPicked(usize),
    SavePicked(usize),
    ActionPicked(Action),
    NewSaveNameChanged(String),
    Refresh,
    PerformAction,
}

/// What the host has to do after a message.
#[derive(Clone, Copy, Debug, PartialEq, Eq, Structural)]
pub enum Command {
    /// Nothing.
    Nothing,
    /// List the three directories and refresh.
    Refresh,
    /// Carry out the plan of the picked action, then refresh.
    Perform,
}

/// The saves and what the user has picked among them.
#[derive(Debug, PartialEq, Eq)]
pub struct NineSaves {
    pub data: SavesData,
    /// The position of the picked slot.
    pub slot_selected: Option<usize>,
    /// The position of the picked external save.
    pub external_selected: Option<usize>,
    pub action_selected: Option<Action>,
    /// The name for a new external save.
    pub new_save_name: String,
    /// The first failure of a refresh, in words.
    pub error_status: Option<String>,
}

/// The mathematical content of a `NineSaves`.
pub struct NineSavesView {
    pub data: SavesDataView,
    pub slot_selected: Option<usize>,
    pub external_selected: Option<usize>,
    pub action_selected: Option<Action>,
    pub new_save_name: Seq<char>,
    pub error_status: Option<Seq<char>>,
}

impl View for NineSaves {
    type V = NineSavesView;

    open spec fn view(&self) -> NineSavesView {
        NineSavesView {
            data: self.data@,
            slot_selected: self.slot_selected,
            external_selected: self.external_selected,
            action_selected: self.action_selected,
            new_save_name: self.new_save_name@,
            error_status: match self.error_status {
                Some(text) => Some(text@),
                None => None,
            },
        }
    }
}

impl NineSavesView {
    /// The picked slot, where one is picked that is there.
    pub open spec fn slot(self) -> Option<SaveView> {
        match self.slot_selected {
            Some(i) => if i < self.data.slots.len() {
                Some(self.data.slots[i as int])
            } else {
                None
            },
            None => None,
        }
    }

    /// The picked external save, where one is picked that is there.
    pub open spec fn external(self) -> Option<SaveView> {
        match self.external_selected {
            Some(i) => if i < self.data.saves.len() {
                Some(self.data.saves[i as int])
            } else {
                None
            },
            None => None,
        }
    }

    /// Whether no external save has the name for the new save.
    pub open spec fn name_is_free(self) -> bool {
        forall|k: int|
            0 <= k < self.data.saves.len() ==> (#[trigger] self.data.saves[k]).name
                != self.new_save_name
    }

    /// Whether all that the picked action needs has been picked: a slot
    /// and a name that is not empty and not taken for a new external save,
    /// a slot and an external save for an overwrite, an external save for
    /// a removal.
    pub open spec fn action_ready_spec(self) -> bool {
        match self.action_selected {
            Some(Action::SaveSlotToNewExternal) => self.slot_selected is Some
                && self.new_save_name.len() > 0 && self.name_is_free(),
            Some(Action::WriteExternalToSlot) => self.slot_selected is Some
                && self.external_selected is Some,
            Some(Action::WriteSlotToExternal) => self.slot_selected is Some
                && self.external_selected is Some,
            Some(Action::DeleteExternal) => self.external_selected is Some,
            None => false,
        }
    }

    /// The plan of the picked action, where the action is ready and what
    /// is picked is there. `slot_files` lists the picked slot's directory,
    /// `save_files` that of the picked external save.
    pub open spec fn plan_spec(
        self,
        slot_files: Seq<FileEntryView>,
        save_files: Seq<FileEntryView>,
    ) -> Option<Seq<StageView>> {
        if !self.action_ready_spec() {
            None
        } else {
            match self.action_selected {
                Some(Action::SaveSlotToNewExternal) => match self.slot() {
                    Some(slot) => Some(
                        seq![
                            StageView {
                                operation: Operation::Copy,
                                save: slot.name,
                                steps: copy_spec(
                                    slot.path,
                                    join_spec(self.data.external_saves_dir, self.new_save_name),
                                    slot_files,
                                ),
                            },
                        ],
                    ),
                    None => None,
                },
                Some(Action::WriteExternalToSlot) => match (self.slot(), self.external()) {
                    (Some(slot), Some(save)) => Some(
                        backup_and_overwrite_spec(self.data, save, save_files, slot, slot_files),
                    ),
                    _ => None,
                },
                Some(Action::WriteSlotToExternal) => match (self.slot(), self.external()) {
                    (Some(slot), Some(save)) => Some(
                        backup_and_overwrite_spec(self.data, slot, slot_files, save, save_files),
                    ),
                    _ => None,
                },
                Some(Action::DeleteExternal) => match self.external() {
                    Some(save) => Some(
                        backup_and_delete_spec(self.data, save, save_files).push(
                            StageView {
                                operation: Operation::Delete,
                                save: save.name,
                                steps: seq![StepView::RemoveDir { dir: save.path }],
                            },
                        ),
                    ),
                    None => None,
                },
                None => None,
            }
        }
    }

    /// What to say where the directory of the picked slot, or of the
    /// picked external save, cannot be listed for the picked action: the
    /// operation that the listing is first read for, and the save's name.
    /// There is nothing to say where the action does not read the listing
    /// or nothing is picked that is there.
    pub open spec fn listing_failure_spec(self, of_slot: bool) -> Option<Seq<char>> {
        let role = match self.action_selected {
            Some(action) => if of_slot {
                action.slot_role_spec()
            } else {
                action.save_role_spec()
            },
            None => None,
        };
        let save = if of_slot {
            self.slot()
        } else {
            self.external()
        };
        match (role, save) {
            (Some(operation), Some(save)) => Some(
                (StageView { operation, save: save.name, steps: Seq::empty() }).failure_spec(),
            ),
            _ => None,
        }
    }

    /// The state after a message.
    pub open spec fn update_spec(self, message: MessageView) -> NineSavesView {
        match message {
            MessageView::SlotPicked(i) => NineSavesView { slot_selected: Some(i), ..self },
            MessageView::SavePicked(i) => NineSavesView { external_selected: Some(i), ..self },
            MessageView::ActionPicked(action) => NineSavesView {
                action_selected: Some(action),
                ..self
            },
            MessageView::NewSaveNameChanged(name) => NineSavesView { new_save_name: name, ..self },
            MessageView::Refresh => NineSavesView { error_status: None, ..self },
            MessageView::PerformAction => self,
        }
    }
}

/// The mathematical content of a `Message`.
pub enum MessageView {
    SlotPicked(usize),
    SavePicked(usize),
    ActionPicked(Action),
    NewSaveNameChanged(Seq<char>),
    Refresh,
    PerformAction,
}

impl View for Message {
    type V = MessageView;

    open spec fn view(&self) -> MessageView {
        match self {
            Message::SlotPicked(i) => MessageView::SlotPicked(*i),
            Message::SavePicked(i) => MessageView::SavePicked(*i),
            Message::ActionPicked(action) => MessageView::ActionPicked(*action),
            Message::NewSaveNameChanged(name) => MessageView::NewSaveNameChanged(name@),
            Message::Refresh => MessageView::Refresh,
            Message::PerformAction => MessageView::PerformAction,
        }
    }
}

/// What the host has to do after a message.
pub open spec fn command_spec(message: MessageView) -> Command {
    match message {
        MessageView::Refresh => Command::Refresh,
        MessageView::PerformAction => Command::Perform,
        _ => Command::Nothing,
    }
}

/// The view of a plan that may not be there.
pub open spec fn plan_view(plan: Option<Vec<Stage>>) -> Option<Seq<StageView>> {
    match plan {
        Some(stages) => Some(stages_view(stages@)),
        None => None,
    }
}

impl NineSaves {
    /// A session on the given collections, with nothing picked.
    pub fn new(data: SavesData) -> (session: Self)
        ensures
            session@ == (NineSavesView {
                data: data@,
                slot_selected: None,
                external_selected: None,
                action_selected: None,
                new_save_name: Seq::empty(),
                error_status: None,
            }),
    {
        NineSaves {
            data,
            slot_selected: None,
            external_selected: None,
            action_selected: None,
            new_save_name: String::new(),
            error_status: None,
        }
    }

    /// Whether all that the picked action needs has been picked.
    pub fn action_ready(&self) -> (ready: bool)
        ensures
            ready == self@.action_ready_spec(),
    {
        match self.action_selected {
            Some(Action::SaveSlotToNewExternal) => {
                if self.slot_selected.is_none() || self.new_save_name.as_str().is_empty() {
                    return false;
                }
                proof {
                    lemma_first_named(self@.data.saves, self.new_save_name@);
                }
                match find_named(&self.data.saves, self.new_save_name.as_str()) {
                    Some(i) => {
                        false
                    },
                    None => true,
                }
            },
            Some(Action::WriteExternalToSlot) => self.slot_selected.is_some()
                && self.external_selected.is_some(),
            Some(Action::WriteSlotToExternal) => self.slot_selected.is_some()
                && self.external_selected.is_some(),
            Some(Action::DeleteExternal) => self.external_selected.is_some(),
            None => false,
        }
    }

    /// Keeps the failure of a refresh, in words, to be shown.
    pub fn handle_error(&mut self, result: Result<(), RefreshError>)
        ensures
            final(self)@ == (NineSavesView {
                error_status: match result {
                    Ok(_) => old(self)@.error_status,
                    Err(e) => Some(e@.message_spec()),
                },
                ..old(self)@
            }),
    {
        if let Err(e) = result {
            self.error_status = Some(e.message());
        }
    }

    /// Refreshes the collections from listings of the three directories.
    /// A failure leaves them as they were and is kept to be shown.
    pub fn try_refresh(
        &mut self,
        slots: &Vec<DirEntry>,
        saves: &Vec<DirEntry>,
        backups: &Vec<DirEntry>,
    )
        ensures
            final(self)@ == match refresh_spec(
                old(self)@.data,
                entries_view(slots@),
                entries_view(saves@),
                entries_view(backups@),
            ) {
                Ok(next) => NineSavesView { data: next, ..old(self)@ },
                Err(e) => NineSavesView { error_status: Some(e.message_spec()), ..old(self)@ },
            },
    {
        let result = self.data.refresh(slots, saves, backups);
        self.handle_error(result);
    }

    /// Takes a message in: a pick is kept, and the host is told what it
    /// has to do. A refresh that the user asks for takes the failure that
    /// was shown away; the refresh that follows may bring a new one.
    pub fn update(&mut self, message: Message) -> (command: Command)
        ensures
            final(self)@ == old(self)@.update_spec(message@),
            command == command_spec(message@),
    {
        match message {
            Message::SlotPicked(i) => {
                self.slot_selected = Some(i);
                Command::Nothing
            },
            Message::SavePicked(i) => {
                self.external_selected = Some(i);
                Command::Nothing
            },
            Message::ActionPicked(action) => {
                self.action_selected = Some(action);
                Command::Nothing
            },
            Message::NewSaveNameChanged(name) => {
                self.new_save_name = name;
                Command::Nothing
            },
            Message::Refresh => {
                self.error_status = None;
                Command::Refresh
            },
            Message::PerformAction => Command::Perform,
        }
    }

    /// The plan of the picked action. `slot_files` lists the directory of
    /// the picked slot, `save_files` that of the picked external save; a
    /// listing that the action has no use for is not looked at. There is
    /// no plan where the action is not ready or what is picked is not
    /// there.
    pub fn plan_action(&self, slot_files: &Vec<FileEntry>, save_files: &Vec<FileEntry>) -> (plan:
        Option<Vec<Stage>>)
        ensures
            plan_view(plan) == self@.plan_spec(files_view(slot_files@), files_view(save_files@)),
    {
        if !self.action_ready() {
            return None;
        }
        let slot = match self.slot_selected {
            Some(i) => if i < self.data.slots.len() {
                Some(&self.data.slots[i])
            } else {
                None
            },
            None => None,
        };
        let save = match self.external_selected {
            Some(i) => if i < self.data.saves.len() {
                Some(&self.data.saves[i])
            } else {
                None
            },
            None => None,
        };
        match self.action_selected {
            Some(Action::SaveSlotToNewExternal) => match slot {
                Some(slot) => {
                    let destination = join(
                        self.data.external_saves_dir.as_str(),
                        self.new_save_name.as_str(),
                    );
                    let stage = Stage {
                        operation: Operation::Copy,
                        save: slot.name.clone(),
                        steps: copy_steps(slot.path.as_str(), destination.as_str(), slot_files),
                    };
                    let mut plan: Vec<Stage> = Vec::new();
                    plan.push(stage);
                    Some(plan)
                },
                None => None,
            },
            Some(Action::WriteExternalToSlot) => match (slot, save) {
                (Some(slot), Some(save)) => Some(
                    self.data.backup_and_overwrite(save, save_files, slot, slot_files),
                ),
                _ => None,
            },
            Some(Action::WriteSlotToExternal) => match (slot, save) {
                (Some(slot), Some(save)) => Some(
                    self.data.backup_and_overwrite(slot, slot_files, save, save_files),
                ),
                _ => None,
            },
            Some(Action::DeleteExternal) => match save {
                Some(save) => {
                    let mut plan = self.data.backup_and_delete(save, save_files);
                    let mut steps: Vec<Step> = Vec::new();
                    steps.push(save.delete_dir());
                    assert(steps_view(steps@) =~= seq![StepView::RemoveDir { dir: save.path@ }]);
                    let stage = Stage {
                        operation: Operation::Delete,
                        save: save.name.clone(),
                        steps,
                    };
                    plan.push(stage);
                    Some(plan)
                },
                None => None,
            },
            None => None,
        }
    }

    /// What to say where the directory of the picked slot (`of_slot`) or
    /// of the picked external save cannot be listed for the picked action.
    pub fn listing_failure(&self, of_slot: bool) -> (text: Option<String>)
        ensures
            match text {
                Some(t) => self@.listing_failure_spec(of_slot) == Some(t@),
                None => self@.listing_failure_spec(of_slot) is None,
            },
    {
        let role = match self.action_selected {
            Some(action) => if of_slot {
                action.slot_role()
            } else {
                action.save_role()
            },
            None => None,
        };
        let picked = if of_slot {
            match self.slot_selected {
                Some(i) => if i < self.data.slots.len() {
                    Some(&self.data.slots[i])
                } else {
                    None
                },
                None => None,
            }
        } else {
            match self.external_selected {
                Some(i) => if i < self.data.saves.len() {
                    Some(&self.data.saves[i])
                } else {
                    None
                },
                None => None,
            }
        };
        match (role, picked) {
            (Some(operation), Some(save)) => {
                let stage = Stage { operation, save: save.name.clone(), steps: Vec::new() };
                assert(stage@.steps =~= Seq::empty());
                Some(stage.failure_message())
            },
            _ => None,
        }
    }

    /// Keeps the failure of an action, in words, to be shown. Nothing else
    /// changes: what was picked stays picked.
    pub fn action_failed(&mut self, message: String)
        ensures
            final(self)@ == (NineSavesView { error_status: Some(message@), ..old(self)@ }),
    {
        self.error_status = Some(message);
    }

    /// Takes note that the plan of the picked action has been carried out:
    /// after a removal no external save is picked.
    pub fn action_done(&mut self)
        ensures
            final(self)@ == (NineSavesView {
                external_selected: if old(self)@.action_selected == Some(Action::DeleteExternal) {
                    None
                } else {
                    old(self)@.external_selected
                },
                ..old(self)@
            }),
    {
        if let Some(Action::DeleteExternal) = self.action_selected {
            self.external_selected = None;
        }
    }
}

/// A plan is made from the listings that its action reads, and from no
/// other.
pub proof fn law_plan_reads_what_the_action_reads(
    session: NineSavesView,
    slot_files: Seq<FileEntryView>,
    save_files: Seq<FileEntryView>,
    other_slot_files: Seq<FileEntryView>,
    other_save_files: Seq<FileEntryView>,
)
    requires
        session.action_selected matches Some(action) ==> {
            &&& action.reads_slot_spec() ==> slot_files == other_slot_files
            &&& action.reads_save_spec() ==> save_files == other_save_files
        },
    ensures
        session.plan_spec(slot_files, save_files) == session.plan_spec(
            other_slot_files,
            other_save_files,
        ),
{
}

} // verus!
