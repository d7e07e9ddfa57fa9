use nine_saves::scan::{find_named, four_slots, live_slots, placeholder, slot_at, DirEntry};
use nine_saves::save::Save;
use nine_saves::error::PatternError;
use nine_saves::slot::{
    slot_dir, slot_name, slot_of_groups, slot_of_name, tag_by_pattern, SlotTag, SLOT_COUNT,
    SLOT_PATTERN,
};

const SMALL: &str = "RXBsno0mVcB5yrtIuH+Wq/aJAnBZN04+DOgaSsRh0RefyPY2Gbl1al4vNT8NixonZKSpSZ9nnq7tlhFxxuSq0kDSdfoXb+98JO87kjoaBuQ=";
const MISSING_GOLD: &str = "RXBsno0mVcB5yrtIuH+Wq6X05VcgLvuMipEWFet4oFxlxld+nKhCf2/xA1oQ85eCxwGE4QLu9fHRA8LJsdUzxw==";

fn entry(name: &str, metadata: Option<&str>) -> DirEntry {
    DirEntry {
        name: name.to_string(),
        is_dir: true,
        metadata: metadata.map(|m| m.as_bytes().to_vec()),
    }
}

fn tag(index: u8, nrp_backup: bool) -> SlotTag {
    SlotTag { index, nrp_backup }
}

fn names(saves: &Vec<Save>) -> Vec<String> {
    saves.iter().map(|s| s.name.clone()).collect()
}

#[test]
fn the_pattern_and_the_count() {
    assert_eq!(SLOT_PATTERN, "saveslot([0-3])(_BeforeNoReturnPoint)?$");
    assert_eq!(SLOT_COUNT, 4);
}

#[test]
fn slot_directories_are_told_by_their_names() {
    assert_eq!(slot_of_name("saveslot0"), Ok(Some(tag(0, false))));
    assert_eq!(slot_of_name("saveslot1"), Ok(Some(tag(1, false))));
    assert_eq!(slot_of_name("saveslot2"), Ok(Some(tag(2, false))));
    assert_eq!(slot_of_name("saveslot3"), Ok(Some(tag(3, false))));
    assert_eq!(slot_of_name("saveslot0_BeforeNoReturnPoint"), Ok(Some(tag(0, true))));
    assert_eq!(slot_of_name("saveslot3_BeforeNoReturnPoint"), Ok(Some(tag(3, true))));
}

#[test]
fn other_names_are_no_slots() {
    for name in [
        "",
        "saveslot",
        "saveslot4",
        "saveslot9",
        "saveslot1x",
        "saveslot1 ",
        "saveslot10",
        "saveslot1_",
        "saveslot1_BeforeNoReturnPointX",
        "saveslot1_beforenoreturnpoint",
        "Saveslot1",
        "save slot1",
        "meta.txt",
        "saveslot1\n",
    ] {
        assert_eq!(slot_of_name(name), Ok(None), "{:?}", name);
    }
}

#[test]
fn the_pattern_is_looked_for_at_the_end_of_the_name() {
    assert_eq!(slot_of_name("old_saveslot2"), Ok(Some(tag(2, false))));
    assert_eq!(slot_of_name("saveslot1saveslot3"), Ok(Some(tag(3, false))));
    assert_eq!(slot_of_name("x/saveslot0_BeforeNoReturnPoint"), Ok(Some(tag(0, true))));
}

#[test]
fn slot_of_groups_reads_the_digit_and_the_suffix() {
    let groups = vec![Some("saveslot2".to_string()), Some("2".to_string()), None];
    assert_eq!(slot_of_groups(&groups), Some(tag(2, false)));
    let groups = vec![
        Some("saveslot0_BeforeNoReturnPoint".to_string()),
        Some("0".to_string()),
        Some("_BeforeNoReturnPoint".to_string()),
    ];
    assert_eq!(slot_of_groups(&groups), Some(tag(0, true)));
    // a pattern with one group only
    let groups = vec![Some("saveslot3".to_string()), Some("3".to_string())];
    assert_eq!(slot_of_groups(&groups), Some(tag(3, false)));
}

#[test]
fn slot_of_groups_refuses_what_is_no_slot_digit() {
    assert_eq!(slot_of_groups(&vec![]), None);
    assert_eq!(slot_of_groups(&vec![Some("saveslot1".to_string())]), None);
    assert_eq!(slot_of_groups(&vec![Some("x".to_string()), None, None]), None);
    for digit in ["4", "9", "", "01", "1 ", "one", "-1"] {
        let groups = vec![Some("x".to_string()), Some(digit.to_string()), None];
        assert_eq!(slot_of_groups(&groups), None, "{:?}", digit);
    }
}

#[test]
fn slots_are_shown_under_their_numbers_from_one() {
    assert_eq!(slot_name(tag(0, false)), "Slot 1");
    assert_eq!(slot_name(tag(1, false)), "Slot 2");
    assert_eq!(slot_name(tag(3, false)), "Slot 4");
    assert_eq!(slot_name(tag(0, true)), "Slot 1 (Before NRP)");
    assert_eq!(slot_name(tag(3, true)), "Slot 4 (Before NRP)");
    assert_eq!(slot_name(tag(255, false)), "Slot 256");
}

#[test]
fn slot_directories_are_named_by_their_index() {
    assert_eq!(slot_dir(0), "saveslot0");
    assert_eq!(slot_dir(3), "saveslot3");
    assert_eq!(slot_dir(12), "saveslot12");
}

#[test]
fn placeholder_stands_for_a_slot_that_is_not_there() {
    let save = placeholder("/game", 2);
    assert_eq!(
        save,
        Save {
            name: "Slot 3".to_string(),
            path: "/game/saveslot2".to_string(),
            nrp_backup: false,
            exists: false,
            info: None,
        }
    );
}

#[test]
fn live_slots_takes_slots_whose_metadata_decodes() {
    let entries = vec![
        entry("saveslot1", Some(SMALL)),
        entry("notes", Some(SMALL)),
        entry("saveslot0", Some(MISSING_GOLD)),
        entry("saveslot2", None),
        entry("saveslot3_BeforeNoReturnPoint", Some(SMALL)),
    ];
    let live = live_slots("/game", &entries).unwrap();
    assert_eq!(names(&live), vec!["Slot 2", "Slot 4 (Before NRP)"]);
    assert_eq!(live[0].path, "/game/saveslot1");
    assert!(!live[0].nrp_backup);
    assert!(live[0].exists);
    assert_eq!(live[0].info.as_ref().unwrap().gold, 1234);
    assert_eq!(live[1].path, "/game/saveslot3_BeforeNoReturnPoint");
    assert!(live[1].nrp_backup);
    assert!(live[1].exists);
    assert!(live[1].info.is_some());
}

#[test]
fn live_slots_does_not_ask_whether_an_entry_is_a_directory() {
    let mut file = entry("saveslot0", Some(SMALL));
    file.is_dir = false;
    let live = live_slots("/game", &vec![file]).unwrap();
    assert_eq!(names(&live), vec!["Slot 1"]);
}

#[test]
fn find_named_gives_the_first_of_a_name() {
    let entries = vec![
        entry("saveslot1", Some(SMALL)),
        entry("old_saveslot1", Some(SMALL)),
        entry("saveslot0", Some(SMALL)),
    ];
    let live = live_slots("/game", &entries).unwrap();
    assert_eq!(find_named(&live, "Slot 2"), Some(0));
    assert_eq!(find_named(&live, "Slot 1"), Some(2));
    assert_eq!(find_named(&live, "Slot 3"), None);
    assert_eq!(find_named(&vec![], "Slot 1"), None);
}

#[test]
fn slot_at_prefers_the_slot_to_its_copy_and_the_copy_to_the_stand_in() {
    let entries = vec![
        entry("saveslot0_BeforeNoReturnPoint", Some(SMALL)),
        entry("saveslot0", Some(SMALL)),
        entry("saveslot1_BeforeNoReturnPoint", Some(SMALL)),
    ];
    let live = live_slots("/game", &entries).unwrap();
    let first = slot_at("/game", &live, 0);
    assert_eq!(first.name, "Slot 1");
    assert_eq!(first.path, "/game/saveslot0");
    let second = slot_at("/game", &live, 1);
    assert_eq!(second.name, "Slot 2 (Before NRP)");
    assert_eq!(second.path, "/game/saveslot1_BeforeNoReturnPoint");
    assert!(second.nrp_backup);
    let third = slot_at("/game", &live, 2);
    assert_eq!(third, placeholder("/game", 2));
}

#[test]
fn four_slots_is_always_a_row_of_four() {
    let none = four_slots("/game", &vec![]);
    assert_eq!(names(&none), vec!["Slot 1", "Slot 2", "Slot 3", "Slot 4"]);
    for (i, save) in none.iter().enumerate() {
        assert!(!save.exists);
        assert!(save.info.is_none());
        assert!(!save.nrp_backup);
        assert_eq!(save.path, format!("/game/saveslot{}", i));
    }
    let entries = vec![
        entry("saveslot3", Some(SMALL)),
        entry("saveslot3_BeforeNoReturnPoint", Some(SMALL)),
        entry("saveslot2_BeforeNoReturnPoint", Some(SMALL)),
        entry("saveslot1", Some(MISSING_GOLD)),
        entry("copy of saveslot3", Some(SMALL)),
    ];
    let live = live_slots("/game", &entries).unwrap();
    let row = four_slots("/game", &live);
    assert_eq!(names(&row), vec!["Slot 1", "Slot 2", "Slot 3 (Before NRP)", "Slot 4"]);
    assert!(!row[0].exists);
    assert!(!row[1].exists);
    assert!(row[2].exists && row[2].nrp_backup);
    assert!(row[3].exists && !row[3].nrp_backup);
    assert_eq!(row[3].path, "/game/saveslot3");
}

#[test]
fn a_pattern_that_does_not_compile_is_an_error() {
    assert_eq!(tag_by_pattern("saveslot([0-3]", "saveslot1"), Err(PatternError));
    assert_eq!(tag_by_pattern("(", ""), Err(PatternError));
}

#[test]
fn tag_by_pattern_reads_the_first_two_groups() {
    assert_eq!(tag_by_pattern(SLOT_PATTERN, "saveslot2"), Ok(Some(tag(2, false))));
    assert_eq!(tag_by_pattern("^s(.)(x)?$", "s1"), Ok(Some(tag(1, false))));
    assert_eq!(tag_by_pattern("^s(.)(x)?$", "s3x"), Ok(Some(tag(3, true))));
    assert_eq!(tag_by_pattern("^s(.)(x)?$", "s7"), Ok(None));
    assert_eq!(tag_by_pattern("^s(.)(x)?$", "t1"), Ok(None));
    assert_eq!(tag_by_pattern("^s.$", "s1"), Ok(None));
    assert_eq!(tag_by_pattern("^s(.)$", "s0"), Ok(Some(tag(0, false))));
}
