use nine_saves::error::{LoadError, MetadataError, RefreshError, ScanError};
use nine_saves::order::sort_by_name;
use nine_saves::repository::SavesData;
use nine_saves::save::{Save, SaveInfo, METADATA_FILE};
use nine_saves::scan::{saves_from_dir, DirEntry};

const SMALL: &str = "RXBsno0mVcB5yrtIuH+Wq/aJAnBZN04+DOgaSsRh0RefyPY2Gbl1al4vNT8NixonZKSpSZ9nnq7tlhFxxuSq0kDSdfoXb+98JO87kjoaBuQ=";
const INT_PLAYTIME: &str = "kPoPTQ3G3t3UQQbAlOFO7YLBXYy1eWhqBUfNjOXoJhnd/Ort88UlfDpR8zsDWsGJQAgRDnq97eT1XaM8JHpAFEJGGotDQwodLZN5b7u3q18=";
const MISSING_GOLD: &str = "RXBsno0mVcB5yrtIuH+Wq6X05VcgLvuMipEWFet4oFxlxld+nKhCf2/xA1oQ85eCxwGE4QLu9fHRA8LJsdUzxw==";

fn dir(name: &str, metadata: Option<&str>) -> DirEntry {
    DirEntry {
        name: name.to_string(),
        is_dir: true,
        metadata: metadata.map(|m| m.as_bytes().to_vec()),
    }
}

fn file(name: &str) -> DirEntry {
    DirEntry { name: name.to_string(), is_dir: false, metadata: None }
}

fn small_info() -> SaveInfo {
    SaveInfo {
        level: 7,
        playtime: 12.5f64.to_bits(),
        gold: 1234,
        gamemode: 1,
        atsceneguid: "abc".to_string(),
    }
}

fn named(name: &str) -> Save {
    Save {
        name: name.to_string(),
        path: format!("/x/{}", name),
        nrp_backup: false,
        exists: true,
        info: None,
    }
}

fn names(saves: &Vec<Save>) -> Vec<String> {
    saves.iter().map(|s| s.name.clone()).collect()
}

fn fresh() -> SavesData {
    SavesData::new("/game".to_string(), "/data/saves".to_string(), "/data/backups".to_string())
}

#[test]
fn the_metadata_file_has_a_fixed_name() {
    assert_eq!(METADATA_FILE, "meta.txt");
}

#[test]
fn new_collections_are_empty() {
    let data = fresh();
    assert_eq!(data.game_slots_dir, "/game");
    assert_eq!(data.external_saves_dir, "/data/saves");
    assert_eq!(data.backups_dir, "/data/backups");
    assert!(data.slots.is_empty());
    assert!(data.saves.is_empty());
    assert!(data.backups.is_empty());
}

#[test]
fn with_decrypted_info_fills_the_metadata_in() {
    let save = named("first");
    let loaded = save.with_decrypted_info(SMALL.as_bytes()).unwrap();
    assert_eq!(loaded.name, "first");
    assert_eq!(loaded.path, "/x/first");
    assert!(loaded.exists);
    assert!(!loaded.nrp_backup);
    assert_eq!(loaded.info, Some(small_info()));
    assert_eq!(
        named("first").with_decrypted_info(MISSING_GOLD.as_bytes()),
        Err(MetadataError::Field)
    );
    assert_eq!(named("first").with_decrypted_info(b"*"), Err(MetadataError::Base64));
}

#[test]
fn saves_from_dir_gives_one_save_for_each_directory() {
    let entries = vec![
        dir("second", Some(SMALL)),
        file("notes.txt"),
        dir("first", Some(INT_PLAYTIME)),
    ];
    let saves = saves_from_dir("/data/saves", &entries).unwrap();
    assert_eq!(names(&saves), vec!["second", "first"]);
    assert_eq!(saves[0].path, "/data/saves/second");
    assert_eq!(saves[1].path, "/data/saves/first");
    for save in &saves {
        assert!(save.exists);
        assert!(!save.nrp_backup);
        assert!(save.info.is_some());
    }
    assert_eq!(saves[0].info, Some(small_info()));
    assert_eq!(saves_from_dir("/data/saves", &vec![]), Ok(vec![]));
}

#[test]
fn saves_from_dir_fails_on_the_first_directory_that_cannot_be_loaded() {
    let entries = vec![
        dir("good", Some(SMALL)),
        dir("unreadable", None),
        dir("broken", Some(MISSING_GOLD)),
    ];
    assert_eq!(
        saves_from_dir("/data/saves", &entries),
        Err(ScanError { name: "unreadable".to_string(), cause: LoadError::Unreadable })
    );
    let entries = vec![dir("broken", Some(MISSING_GOLD)), dir("unreadable", None)];
    assert_eq!(
        saves_from_dir("/data/saves", &entries),
        Err(ScanError {
            name: "broken".to_string(),
            cause: LoadError::Decode(MetadataError::Field),
        })
    );
    let entries = vec![dir("garbled", Some("AAAA"))];
    assert_eq!(
        saves_from_dir("/data/saves", &entries),
        Err(ScanError {
            name: "garbled".to_string(),
            cause: LoadError::Decode(MetadataError::BlockLength),
        })
    );
}

#[test]
fn saves_from_dir_passes_over_files_even_with_bad_metadata() {
    let mut entry = dir("file", Some(MISSING_GOLD));
    entry.is_dir = false;
    assert_eq!(saves_from_dir("/data/saves", &vec![entry]), Ok(vec![]));
}

#[test]
fn sort_by_name_orders_by_bytes_and_keeps_ties_in_place() {
    let mut twin = named("b");
    twin.path = "/other/b".to_string();
    let saves = vec![named("b"), named("a"), named("B"), twin, named("10"), named("9"), named("")];
    let sorted = sort_by_name(&saves);
    assert_eq!(names(&sorted), vec!["", "10", "9", "B", "a", "b", "b"]);
    assert_eq!(sorted[5].path, "/x/b");
    assert_eq!(sorted[6].path, "/other/b");
    assert_eq!(sort_by_name(&vec![]), vec![]);
    assert_eq!(names(&sort_by_name(&vec![named("only")])), vec!["only"]);
}

#[test]
fn sort_by_name_agrees_with_the_stable_sort() {
    let saves: Vec<Save> = ["pear", "Apple", "fig", "apple", "fig", "", "Zoo", "\u{e9}clair", "0"]
        .iter()
        .enumerate()
        .map(|(i, n)| {
            let mut save = named(n);
            save.path = format!("/x/{}", i);
            save
        })
        .collect();
    let sorted = sort_by_name(&saves);
    let mut expected: Vec<(String, String)> =
        saves.iter().map(|s| (s.name.clone(), s.path.clone())).collect();
    expected.sort_by(|a, b| a.0.cmp(&b.0));
    let got: Vec<(String, String)> =
        sorted.iter().map(|s| (s.name.clone(), s.path.clone())).collect();
    assert_eq!(got, expected);
}

#[test]
fn refresh_of_empty_directories_gives_four_empty_slots() {
    let mut data = fresh();
    assert_eq!(data.refresh(&vec![], &vec![], &vec![]), Ok(()));
    assert_eq!(names(&data.slots), vec!["Slot 1", "Slot 2", "Slot 3", "Slot 4"]);
    for (i, slot) in data.slots.iter().enumerate() {
        assert!(!slot.exists);
        assert!(slot.info.is_none());
        assert_eq!(slot.path, format!("/game/saveslot{}", i));
    }
    assert!(data.saves.is_empty());
    assert!(data.backups.is_empty());
}

#[test]
fn refresh_gives_one_slot_for_each_number() {
    let slots = vec![
        dir("saveslot2_BeforeNoReturnPoint", Some(SMALL)),
        dir("saveslot0", Some(SMALL)),
        dir("saveslot0_BeforeNoReturnPoint", Some(INT_PLAYTIME)),
        dir("saveslot1", Some(MISSING_GOLD)),
        dir("saveslot3", None),
        file("player.log"),
        dir("saveslot7", Some(SMALL)),
    ];
    let mut data = fresh();
    assert_eq!(data.refresh(&slots, &vec![], &vec![]), Ok(()));
    assert_eq!(data.slots.len(), 4);
    assert_eq!(names(&data.slots), vec!["Slot 1", "Slot 2", "Slot 3 (Before NRP)", "Slot 4"]);
    assert_eq!(
        data.slots[0],
        Save {
            name: "Slot 1".to_string(),
            path: "/game/saveslot0".to_string(),
            nrp_backup: false,
            exists: true,
            info: Some(small_info()),
        }
    );
    assert_eq!(
        data.slots[1],
        Save {
            name: "Slot 2".to_string(),
            path: "/game/saveslot1".to_string(),
            nrp_backup: false,
            exists: false,
            info: None,
        }
    );
    assert_eq!(
        data.slots[2],
        Save {
            name: "Slot 3 (Before NRP)".to_string(),
            path: "/game/saveslot2_BeforeNoReturnPoint".to_string(),
            nrp_backup: true,
            exists: true,
            info: Some(small_info()),
        }
    );
    assert!(!data.slots[3].exists);
    assert_eq!(data.slots[3].path, "/game/saveslot3");
    for slot in &data.slots {
        assert!(slot.exists || slot.info.is_none());
    }
}

#[test]
fn refresh_sorts_the_saves_and_the_backups() {
    let saves = vec![dir("second", Some(SMALL)), file("x"), dir("First", Some(SMALL)), dir("first", Some(SMALL))];
    let backups = vec![dir("1_Slot 2", Some(SMALL)), dir("10_a", Some(SMALL)), dir("0_Slot 1", Some(SMALL))];
    let mut data = fresh();
    assert_eq!(data.refresh(&vec![], &saves, &backups), Ok(()));
    assert_eq!(names(&data.saves), vec!["First", "first", "second"]);
    assert_eq!(names(&data.backups), vec!["0_Slot 1", "10_a", "1_Slot 2"]);
    assert_eq!(data.saves[2].path, "/data/saves/second");
    assert_eq!(data.backups[0].path, "/data/backups/0_Slot 1");
    assert_eq!(data.saves[0].info, Some(small_info()));
}

#[test]
fn refresh_replaces_what_was_there() {
    let mut data = fresh();
    let first = vec![dir("a", Some(SMALL)), dir("b", Some(SMALL))];
    assert_eq!(data.refresh(&vec![dir("saveslot0", Some(SMALL))], &first, &first), Ok(()));
    assert_eq!(names(&data.saves), vec!["a", "b"]);
    assert!(data.slots[0].exists);
    let second = vec![dir("c", Some(SMALL))];
    assert_eq!(data.refresh(&vec![], &second, &vec![]), Ok(()));
    assert_eq!(names(&data.saves), vec!["c"]);
    assert!(data.backups.is_empty());
    assert!(!data.slots[0].exists);
}

#[test]
fn a_failed_refresh_leaves_everything_as_it_was() {
    let mut data = fresh();
    let good = vec![dir("a", Some(SMALL))];
    assert_eq!(data.refresh(&vec![dir("saveslot1", Some(SMALL))], &good, &good), Ok(()));
    let before = format!("{:?}", data);

    let bad = vec![dir("z", Some(SMALL)), dir("broken", Some(MISSING_GOLD))];
    let new_slots = vec![dir("saveslot2", Some(SMALL))];
    assert_eq!(
        data.refresh(&new_slots, &bad, &vec![]),
        Err(RefreshError::Saves(ScanError {
            name: "broken".to_string(),
            cause: LoadError::Decode(MetadataError::Field),
        }))
    );
    assert_eq!(format!("{:?}", data), before);

    let unreadable = vec![dir("lost", None)];
    assert_eq!(
        data.refresh(&new_slots, &vec![dir("z", Some(SMALL))], &unreadable),
        Err(RefreshError::Backups(ScanError {
            name: "lost".to_string(),
            cause: LoadError::Unreadable,
        }))
    );
    assert_eq!(format!("{:?}", data), before);
}

#[test]
fn the_saves_are_looked_at_before_the_backups() {
    let mut data = fresh();
    let bad = vec![dir("broken", Some(MISSING_GOLD))];
    assert!(matches!(data.refresh(&vec![], &bad, &bad), Err(RefreshError::Saves(_))));
}

#[test]
fn refreshing_twice_gives_the_same() {
    let slots = vec![dir("saveslot3", Some(SMALL)), dir("saveslot1_BeforeNoReturnPoint", Some(SMALL))];
    let saves = vec![dir("b", Some(SMALL)), dir("a", Some(INT_PLAYTIME))];
    let backups = vec![dir("0_b", Some(SMALL))];
    let mut data = fresh();
    assert_eq!(data.refresh(&slots, &saves, &backups), Ok(()));
    let first = format!("{:?}", data);
    assert_eq!(data.refresh(&slots, &saves, &backups), Ok(()));
    assert_eq!(format!("{:?}", data), first);
    let mut other = fresh();
    other.saves.push(named("left over"));
    assert_eq!(other.refresh(&slots, &saves, &backups), Ok(()));
    assert_eq!(other, data);
}

#[test]
fn failures_are_told_in_words() {
    assert_eq!(
        RefreshError::Pattern.message(),
        "couldn't compile the pattern of the slot names"
    );
    let e = ScanError { name: "mine".to_string(), cause: LoadError::Unreadable };
    assert_eq!(
        e.message(),
        "couldn't decrypt info for save mine: the metadata file could not be read"
    );
    assert_eq!(
        RefreshError::Saves(e.clone()).message(),
        "failed to load external saves: couldn't decrypt info for save mine: the metadata file could not be read"
    );
    let e = ScanError { name: "0_x".to_string(), cause: LoadError::Decode(MetadataError::Base64) };
    assert_eq!(
        RefreshError::Backups(e).message(),
        "failed to load backups: couldn't decrypt info for save 0_x: the metadata is not base64 text"
    );
    assert_eq!(
        MetadataError::BlockLength.reason(),
        "the ciphertext is not a whole number of blocks"
    );
    assert_eq!(
        LoadError::Decode(MetadataError::Payload).reason(),
        "the decrypted metadata is not a JSON object"
    );
    assert_eq!(
        MetadataError::Padding.reason(),
        "the decrypted metadata is not padded as it should be"
    );
    assert_eq!(
        MetadataError::Field.reason(),
        "a field of the metadata is missing, repeated or mistyped"
    );
}
