//! From the listing of a directory to the saves it holds.

use vstd::prelude::*;
use vstd::string::*;
use crate::error::{LoadError, PatternError, ScanError, ScanErrorView};
use crate::metadata::{decode_spec, SaveInfo};
use crate::order::sorted_by_name;
use crate::save::{saves_view, Save, SaveView};
use crate::slot::{
    lemma_slot_names_ascend, lemma_slot_names_differ, slot_dir, slot_dir_spec, slot_name,
    slot_name_spec, slot_of_name, slot_tag_spec, SlotTag, SLOT_COUNT,
};
use crate::text::{join, join_spec, name_le, same_text};

verus! {

/// One entry of a listed directory, as the caller found it.
#[derive(Clone, Debug, PartialEq, Eq)]
pub struct DirEntry {
    /// The entry's file name.
    pub name: String,
    /// Whether the entry is a directory.
    pub is_dir: bool,
    /// The content of the metadata file inside the entry, where there is
    /// one that could be read.
    pub metadata: Option<Vec<u8>>,
}

/// The mathematical content of a `DirEntry`.
pub struct DirEntryView {
    pub name: Seq<char>,
    pub is_dir: bool,
    pub metadata: Option<Seq<u8>>,
}

impl View for DirEntry {
    type V = DirEntryView;

    open spec fn view(&self) -> DirEntryView {
        DirEntryView {
            name: self.name@,
            is_dir: self.is_dir,
            metadata: match self.metadata {
                Some(data) => Some(data@),
                None => None,
            },
        }
    }
}

/// The views of a listing.
pub open spec fn entries_view(entries: Seq<DirEntry>) -> Seq<DirEntryView> {
    entries.map_values(|e: DirEntry| e@)
}

/// Whether the slot pattern is accepted on every name of a listing.
pub open spec fn pattern_accepted(entries: Seq<DirEntryView>) -> bool {
    forall|i: int| 0 <= i < entries.len() ==> slot_tag_spec(#[trigger] entries[i].name) is Some
}

/// The slot that an entry of the slots directory gives: its name must be
/// that of a slot and its metadata must decode.
pub open spec fn live_slot_spec(root: Seq<char>, entry: DirEntryView) -> Option<SaveView> {
    match slot_tag_spec(entry.name) {
        Some(Some(tag)) => match entry.metadata {
            Some(data) => match decode_spec(data) {
                Ok(info) => Some(
                    SaveView {
                        name: slot_name_spec(tag),
                        path: join_spec(root, entry.name),
                        nrp_backup: tag.nrp_backup,
                        exists: true,
                        info: Some(info),
                    },
                ),
                Err(_) => None,
            },
            None => None,
        },
        _ => None,
    }
}

/// The slots that a listing of the slots directory gives, in the order of
/// the listing.
pub open spec fn live_slots_spec(root: Seq<char>, entries: Seq<DirEntryView>) -> Seq<SaveView>
    decreases entries.len(),
{
    if entries.len() == 0 {
        Seq::empty()
    } else {
        let before = live_slots_spec(root, entries.drop_last());
        match live_slot_spec(root, entries.last()) {
            Some(save) => before.push(save),
            None => before,
        }
    }
}

/// The slots found in a listing of the slots directory. An entry whose
/// name is not that of a slot, or whose metadata is missing or does not
/// decode, is passed over.
pub fn live_slots(root: &str, entries: &Vec<DirEntry>) -> (r: Result<Vec<Save>, PatternError>)
    ensures
        match r {
            Ok(found) => pattern_accepted(entries_view(entries@)) && saves_view(found@)
                == live_slots_spec(root@, entries_view(entries@)),
            Err(_) => !pattern_accepted(entries_view(entries@)),
        },
{
    let ghost all = entries_view(entries@);
    let mut found: Vec<Save> = Vec::new();
    let mut i: usize = 0;
    while i < entries.len()
        invariant
            all == entries_view(entries@),
            i <= entries@.len(),
            pattern_accepted(all.take(i as int)),
            saves_view(found@) =~= live_slots_spec(root@, all.take(i as int)),
        decreases entries@.len() - i,
    {
        let entry = &entries[i];
        proof {
            assert(all.take(i + 1).drop_last() =~= all.take(i as int));
        }
        match slot_of_name(entry.name.as_str()) {
            Err(e) => {
                assert(slot_tag_spec(all[i as int].name) is None);
                return Err(e);
            },
            Ok(None) => {},
            Ok(Some(tag)) => {
                match &entry.metadata {
                    None => {},
                    Some(data) => {
                        match SaveInfo::decrypt_from(data.as_slice()) {
                            Err(_) => {},
                            Ok(info) => {
                                let save = Save {
                                    name: slot_name(tag),
                                    path: join(root, entry.name.as_str()),
                                    nrp_backup: tag.nrp_backup,
                                    exists: true,
                                    info: Some(info),
                                };
                                found.push(save);
                            },
                        }
                    },
                }
            },
        }
        i += 1;
    }
    proof {
        assert(all.take(i as int) =~= all);
    }
    Ok(found)
}

/// The first save of a list that is shown under the given name.
pub open spec fn first_named(saves: Seq<SaveView>, name: Seq<char>) -> Option<SaveView>
    decreases saves.len(),
{
    if saves.len() == 0 {
        None
    } else if saves[0].name == name {
        Some(saves[0])
    } else {
        first_named(saves.drop_first(), name)
    }
}

/// A list whose first `k` saves have other names is searched as its
/// remainder is.
pub proof fn lemma_first_named_skip(saves: Seq<SaveView>, name: Seq<char>, k: int)
    requires
        0 <= k <= saves.len(),
        forall|i: int| 0 <= i < k ==> saves[i].name != name,
    ensures
        first_named(saves, name) == first_named(saves.skip(k), name),
    decreases k,
{
    if k == 0 {
        assert(saves.skip(0) =~= saves);
    } else {
        lemma_first_named_skip(saves.drop_first(), name, k - 1);
        assert(saves.drop_first().skip(k - 1) =~= saves.skip(k));
    }
}

/// The stand-in for a slot that the game has not written yet.
pub open spec fn placeholder_spec(root: Seq<char>, index: u8) -> SaveView {
    SaveView {
        name: slot_name_spec(SlotTag { index, nrp_backup: false }),
        path: join_spec(root, slot_dir_spec(index)),
        nrp_backup: false,
        exists: false,
        info: None,
    }
}

/// The save that stands at a slot's position: the first found slot of that
/// number, before it the first found copy from before a point of no
/// return, and the stand-in where neither was found.
pub open spec fn slot_at_spec(root: Seq<char>, live: Seq<SaveView>, index: u8) -> SaveView {
    match first_named(live, slot_name_spec(SlotTag { index, nrp_backup: false })) {
        Some(save) => save,
        None => match first_named(live, slot_name_spec(SlotTag { index, nrp_backup: true })) {
            Some(save) => save,
            None => placeholder_spec(root, index),
        },
    }
}

/// The four slots, in the order of their numbers.
pub open spec fn four_slots_spec(root: Seq<char>, live: Seq<SaveView>) -> Seq<SaveView> {
    Seq::new(SLOT_COUNT as nat, |i: int| slot_at_spec(root, live, i as u8))
}

/// The position of the first save of a list that is shown under the given
/// name.
pub fn find_named(saves: &Vec<Save>, name: &str) -> (found: Option<usize>)
    ensures
        match found {
            Some(i) => i < saves@.len() && first_named(saves_view(saves@), name@) == Some(
                saves@[i as int]@,
            ),
            None => first_named(saves_view(saves@), name@) is None,
        },
{
    let ghost all = saves_view(saves@);
    let mut i: usize = 0;
    while i < saves.len()
        invariant
            all == saves_view(saves@),
            i <= saves@.len(),
            forall|k: int| 0 <= k < i ==> all[k].name != name@,
        decreases saves@.len() - i,
    {
        if same_text(saves[i].name.as_str(), name) {
            proof {
                lemma_first_named_skip(all, name@, i as int);
            }
            return Some(i);
        }
        i += 1;
    }
    proof {
        lemma_first_named_skip(all, name@, i as int);
    }
    None
}

/// The stand-in for a slot that the game has not written yet.
pub fn placeholder(root: &str, index: u8) -> (save: Save)
    ensures
        save@ == placeholder_spec(root@, index),
{
    let dir = slot_dir(index);
    Save {
        name: slot_name(SlotTag { index, nrp_backup: false }),
        path: join(root, dir.as_str()),
        nrp_backup: false,
        exists: false,
        info: None,
    }
}

/// The save that stands at a slot's position.
pub fn slot_at(root: &str, live: &Vec<Save>, index: u8) -> (save: Save)
    ensures
        save@ == slot_at_spec(root@, saves_view(live@), index),
{
    let plain = slot_name(SlotTag { index, nrp_backup: false });
    match find_named(live, plain.as_str()) {
        Some(i) => live[i].clone(),
        None => {
            let copy = slot_name(SlotTag { index, nrp_backup: true });
            match find_named(live, copy.as_str()) {
                Some(i) => live[i].clone(),
                None => placeholder(root, index),
            }
        },
    }
}

/// The four slots, in the order of their numbers.
pub fn four_slots(root: &str, live: &Vec<Save>) -> (slots: Vec<Save>)
    ensures
        saves_view(slots@) == four_slots_spec(root@, saves_view(live@)),
{
    let mut slots: Vec<Save> = Vec::new();
    let mut index: u8 = 0;
    while index < 4
        invariant
            index <= 4,
            slots@.len() == index,
            forall|k: int|
                0 <= k < index ==> (#[trigger] slots@[k])@ == slot_at_spec(
                    root@,
                    saves_view(live@),
                    k as u8,
                ),
        decreases 4 - index,
    {
        let save = slot_at(root, live, index);
        slots.push(save);
        index += 1;
    }
    slots
}

/// The save that a directory of external saves or of backups gives.
pub open spec fn external_spec(root: Seq<char>, entry: DirEntryView) -> Result<
    SaveView,
    ScanErrorView,
> {
    match entry.metadata {
        None => Err(ScanErrorView { name: entry.name, cause: LoadError::Unreadable }),
        Some(data) => match decode_spec(data) {
            Err(e) => Err(ScanErrorView { name: entry.name, cause: LoadError::Decode(e) }),
            Ok(info) => Ok(
                SaveView {
                    name: entry.name,
                    path: join_spec(root, entry.name),
                    nrp_backup: false,
                    exists: true,
                    info: Some(info),
                },
            ),
        },
    }
}

/// The saves that a listing of external saves or of backups gives: one for
/// each directory, in the order of the listing, or the failure of the
/// first directory that cannot be loaded.
pub open spec fn scan_spec(root: Seq<char>, entries: Seq<DirEntryView>) -> Result<
    Seq<SaveView>,
    ScanErrorView,
>
    decreases entries.len(),
{
    if entries.len() == 0 {
        Ok(Seq::empty())
    } else {
        match scan_spec(root, entries.drop_last()) {
            Err(e) => Err(e),
            Ok(before) => if entries.last().is_dir {
                match external_spec(root, entries.last()) {
                    Ok(save) => Ok(before.push(save)),
                    Err(e) => Err(e),
                }
            } else {
                Ok(before)
            },
        }
    }
}

/// The view of a scan's result.
pub open spec fn scan_result_view(r: Result<Vec<Save>, ScanError>) -> Result<
    Seq<SaveView>,
    ScanErrorView,
> {
    match r {
        Ok(saves) => Ok(saves_view(saves@)),
        Err(e) => Err(e@),
    }
}

/// Loads every directory of a listing of external saves or of backups.
/// Entries that are no directories are passed over; the first directory
/// whose metadata is missing or does not decode ends the scan with its
/// name.
pub fn saves_from_dir(root: &str, entries: &Vec<DirEntry>) -> (r: Result<Vec<Save>, ScanError>)
    ensures
        scan_result_view(r) == scan_spec(root@, entries_view(entries@)),
{
    let ghost all = entries_view(entries@);
    let mut found: Vec<Save> = Vec::new();
    let mut i: usize = 0;
    while i < entries.len()
        invariant
            all == entries_view(entries@),
            i <= entries@.len(),
            scan_spec(root@, all.take(i as int)) is Ok,
            scan_spec(root@, all.take(i as int))->Ok_0 =~= saves_view(found@),
        decreases entries@.len() - i,
    {
        let entry = &entries[i];
        proof {
            assert(all.take(i + 1).drop_last() =~= all.take(i as int));
        }
        if entry.is_dir {
            match &entry.metadata {
                None => {
                    proof {
                        lemma_scan_failure_stays(root@, all, i + 1);
                    }
                    return Err(
                        ScanError { name: entry.name.clone(), cause: LoadError::Unreadable },
                    );
                },
                Some(data) => match SaveInfo::decrypt_from(data.as_slice()) {
                    Err(e) => {
                        proof {
                            lemma_scan_failure_stays(root@, all, i + 1);
                        }
                        return Err(
                            ScanError { name: entry.name.clone(), cause: LoadError::Decode(e) },
                        );
                    },
                    Ok(info) => {
                        let save = Save {
                            name: entry.name.clone(),
                            path: join(root, entry.name.as_str()),
                            nrp_backup: false,
                            exists: true,
                            info: Some(info),
                        };
                        found.push(save);
                    },
                },
            }
        }
        i += 1;
    }
    proof {
        assert(all.take(i as int) =~= all);
    }
    Ok(found)
}

/// A scan that has failed on the first `k` entries fails in the same way
/// on the whole listing.
pub proof fn lemma_scan_failure_stays(root: Seq<char>, entries: Seq<DirEntryView>, k: int)
    requires
        0 <= k <= entries.len(),
        scan_spec(root, entries.take(k)) is Err,
    ensures
        scan_spec(root, entries) == scan_spec(root, entries.take(k)),
    decreases entries.len() - k,
{
    if k == entries.len() {
        assert(entries.take(k) =~= entries);
    } else {
        assert(entries.take(k + 1).drop_last() =~= entries.take(k));
        lemma_scan_failure_stays(root, entries, k + 1);
    }
}

/// What holds of every slot that was found: it exists, it has its
/// metadata, and it is shown under the name of one of the four slots or of
/// its copy from before a point of no return.
pub open spec fn is_found_slot(save: SaveView) -> bool {
    &&& save.exists
    &&& save.info is Some
    &&& exists|index: u8|
        index < SLOT_COUNT && save.name == #[trigger] slot_name_spec(
            SlotTag { index, nrp_backup: save.nrp_backup },
        )
}

/// Whether a name is that of the slot of the given number, or of its copy
/// from before a point of no return.
pub open spec fn names_slot(name: Seq<char>, index: u8) -> bool {
    name == slot_name_spec(SlotTag { index, nrp_backup: false }) || name == slot_name_spec(
        SlotTag { index, nrp_backup: true },
    )
}

/// What holds of the save at a slot's position: it is shown under the
/// slot's name, and it is either one of the found slots, with its
/// metadata, or, where no found slot has the slot's number, the stand-in
/// without metadata.
pub open spec fn is_slot_cell(
    root: Seq<char>,
    live: Seq<SaveView>,
    index: u8,
    save: SaveView,
) -> bool {
    &&& save.name == slot_name_spec(SlotTag { index, nrp_backup: save.nrp_backup })
    &&& if save.exists {
        save.info is Some && live.contains(save)
    } else {
        &&& save == placeholder_spec(root, index)
        &&& forall|k: int| 0 <= k < live.len() ==> !names_slot((#[trigger] live[k]).name, index)
    }
}

/// Whether a list is the row of the four slots, one for each number, in
/// the order of the numbers.
pub open spec fn is_slot_row(root: Seq<char>, live: Seq<SaveView>, slots: Seq<SaveView>) -> bool {
    &&& slots.len() == SLOT_COUNT
    &&& forall|i: int|
        0 <= i < SLOT_COUNT ==> is_slot_cell(root, live, i as u8, #[trigger] slots[i])
}

/// Every slot of a scan is a found slot.
pub proof fn lemma_live_slots_found(root: Seq<char>, entries: Seq<DirEntryView>)
    ensures
        forall|k: int|
            0 <= k < live_slots_spec(root, entries).len() ==> is_found_slot(
                #[trigger] live_slots_spec(root, entries)[k],
            ),
    decreases entries.len(),
{
    if entries.len() > 0 {
        lemma_live_slots_found(root, entries.drop_last());
        let before = live_slots_spec(root, entries.drop_last());
        match live_slot_spec(root, entries.last()) {
            Some(save) => {
                let tag = slot_tag_spec(entries.last().name)->Some_0->Some_0;
                assert(save.name == slot_name_spec(
                    SlotTag { index: tag.index, nrp_backup: save.nrp_backup },
                ));
            },
            None => {},
        }
    }
}

/// What a search by name finds is in the list and has the name; where it
/// finds nothing, no save of the list has the name.
pub proof fn lemma_first_named(saves: Seq<SaveView>, name: Seq<char>)
    ensures
        match first_named(saves, name) {
            Some(save) => saves.contains(save) && save.name == name,
            None => forall|k: int| 0 <= k < saves.len() ==> (#[trigger] saves[k]).name != name,
        },
    decreases saves.len(),
{
    if saves.len() > 0 {
        if saves[0].name != name {
            let rest = saves.drop_first();
            lemma_first_named(rest, name);
            match first_named(rest, name) {
                Some(save) => {
                    let k = choose|k: int| 0 <= k < rest.len() && rest[k] == save;
                    assert(saves[k + 1] == save);
                },
                None => {
                    assert forall|k: int| 0 <= k < saves.len() implies (#[trigger] saves[k]).name
                        != name by {
                        if k > 0 {
                            assert(rest[k - 1] == saves[k]);
                        }
                    }
                },
            }
        }
    }
}

/// The save at a slot's position is what `is_slot_cell` asks for.
pub proof fn lemma_slot_at(root: Seq<char>, live: Seq<SaveView>, index: u8)
    requires
        index < SLOT_COUNT,
        forall|k: int| 0 <= k < live.len() ==> is_found_slot(#[trigger] live[k]),
    ensures
        is_slot_cell(root, live, index, slot_at_spec(root, live, index)),
{
    let plain = SlotTag { index, nrp_backup: false };
    let copy = SlotTag { index, nrp_backup: true };
    lemma_first_named(live, slot_name_spec(plain));
    lemma_first_named(live, slot_name_spec(copy));
    let save = slot_at_spec(root, live, index);
    if first_named(live, slot_name_spec(plain)) is Some || first_named(
        live,
        slot_name_spec(copy),
    ) is Some {
        let other = choose|other: u8|
            other < SLOT_COUNT && save.name == #[trigger] slot_name_spec(
                SlotTag { index: other, nrp_backup: save.nrp_backup },
            );
        let tag = SlotTag { index: other, nrp_backup: save.nrp_backup };
        if first_named(live, slot_name_spec(plain)) is Some {
            lemma_slot_names_differ(tag, plain);
        } else {
            lemma_slot_names_differ(tag, copy);
        }
    }
}

/// The four slots of a scan are a slot row, and they are in ascending
/// order of their names.
pub proof fn lemma_four_slots(root: Seq<char>, live: Seq<SaveView>)
    requires
        forall|k: int| 0 <= k < live.len() ==> is_found_slot(#[trigger] live[k]),
    ensures
        is_slot_row(root, live, four_slots_spec(root, live)),
        sorted_by_name(four_slots_spec(root, live)),
{
    let slots = four_slots_spec(root, live);
    assert forall|i: int| 0 <= i < SLOT_COUNT implies is_slot_cell(
        root,
        live,
        i as u8,
        #[trigger] slots[i],
    ) by {
        lemma_slot_at(root, live, i as u8);
    }
    assert forall|i: int, j: int| 0 <= i < j < slots.len() implies name_le(
        #[trigger] slots[i].name,
        #[trigger] slots[j].name,
    ) by {
        lemma_slot_at(root, live, i as u8);
        lemma_slot_at(root, live, j as u8);
        lemma_slot_names_ascend(
            SlotTag { index: i as u8, nrp_backup: slots[i].nrp_backup },
            SlotTag { index: j as u8, nrp_backup: slots[j].nrp_backup },
        );
    }
}

/// The directories of a listing, in the order of the listing.
pub open spec fn directories(entries: Seq<DirEntryView>) -> Seq<DirEntryView>
    decreases entries.len(),
{
    if entries.len() == 0 {
        Seq::empty()
    } else {
        let before = directories(entries.drop_last());
        if entries.last().is_dir {
            before.push(entries.last())
        } else {
            before
        }
    }
}

/// A scan gives one save for each directory of the listing, in the order
/// of the listing, and nothing else; a scan that fails gives the failure
/// of the first directory that cannot be loaded.
pub proof fn law_scan_one_per_directory(root: Seq<char>, entries: Seq<DirEntryView>)
    ensures
        match scan_spec(root, entries) {
            Ok(found) => {
                &&& found.len() == directories(entries).len()
                &&& forall|k: int|
                    0 <= k < found.len() ==> external_spec(root, directories(entries)[k]) == Ok::<
                        SaveView,
                        ScanErrorView,
                    >(#[trigger] found[k])
            },
            Err(e) => exists|k: int|
                {
                    &&& 0 <= k < directories(entries).len()
                    &&& #[trigger] external_spec(root, directories(entries)[k]) == Err::<
                        SaveView,
                        ScanErrorView,
                    >(e)
                    &&& forall|j: int|
                        0 <= j < k ==> (#[trigger] external_spec(
                            root,
                            directories(entries)[j],
                        )) is Ok
                },
        },
    decreases entries.len(),
{
    if entries.len() > 0 {
        let front = entries.drop_last();
        law_scan_one_per_directory(root, front);
        let dirs = directories(entries);
        match scan_spec(root, front) {
            Err(e) => {
                let k = choose|k: int|
                    {
                        &&& 0 <= k < directories(front).len()
                        &&& #[trigger] external_spec(root, directories(front)[k]) == Err::<
                            SaveView,
                            ScanErrorView,
                        >(e)
                        &&& forall|j: int|
                            0 <= j < k ==> (#[trigger] external_spec(
                                root,
                                directories(front)[j],
                            )) is Ok
                    };
                assert(dirs[k] == directories(front)[k]);
            },
            Ok(before) => {
                if entries.last().is_dir {
                    match external_spec(root, entries.last()) {
                        Ok(_) => {},
                        Err(e) => {
                            let k = before.len() as int;
                            assert(dirs[k] == entries.last());
                            assert forall|j: int| 0 <= j < k implies (#[trigger] external_spec(
                                root,
                                dirs[j],
                            )) is Ok by {
                                assert(external_spec(root, directories(front)[j]) == Ok::<
                                    SaveView,
                                    ScanErrorView,
                                >(before[j]));
                            }
                        },
                    }
                }
            },
        }
    }
}

/// Every save of a scan exists and has its metadata.
pub proof fn lemma_scan_saves_exist(root: Seq<char>, entries: Seq<DirEntryView>)
    ensures
        scan_spec(root, entries) matches Ok(found) ==> forall|k: int|
            0 <= k < found.len() ==> (#[trigger] found[k]).exists && found[k].info is Some,
{
    law_scan_one_per_directory(root, entries);
}

} // verus!
