use savegame_editor::error::{ErrorKind, SaveError};
use savegame_editor::struct_data::ItemTypeEnum;
use savegame_editor::unlockables::{
    analize_unlockable_items_data, find_unlockable_offsets, get_full_string, read_name,
    sort_offsets,
};

const ROOT: &[u8] = b"Main\x01\x00\x00\x00\x05\x00Other";

fn region(names: &[&[u8]]) -> Vec<u8> {
    let mut buffer: Vec<u8> = b"\x02\x02".to_vec();
    buffer.extend_from_slice(ROOT);
    for name in names {
        buffer.extend_from_slice(&[0x02, 0x00]);
        buffer.extend_from_slice(name);
        buffer.push(0x00);
    }
    buffer
}

#[test]
fn unlockables_come_in_file_order() {
    let buffer = region(&[
        b"Craftplan_Medkit",
        b"Collectable_Tape_01",
        b"ToolSkin_Glider_Red",
        b"Collectable_Tape_02",
        b"Craftplan_Molotov",
    ]);
    let items = analize_unlockable_items_data(&buffer).unwrap();
    let names: Vec<&str> = items.iter().map(|i| i.name.as_str()).collect();
    assert_eq!(
        names,
        vec![
            "Craftplan_Medkit",
            "Collectable_Tape_01",
            "ToolSkin_Glider_Red",
            "Collectable_Tape_02",
            "Craftplan_Molotov"
        ]
    );
    for pair in items.windows(2) {
        assert!(pair[0].index < pair[1].index);
        assert!(pair[0].index + pair[0].size <= pair[1].index);
    }
    for item in &items {
        assert_eq!(item.size, item.name.len());
        assert_eq!(&buffer[item.index..item.index + item.size], item.name.as_bytes());
        assert_eq!(item.sgd_data, item.name.as_bytes().to_vec());
    }
    assert_eq!(items[0].index, 2 + 15 + 2);
}

#[test]
fn last_copy_of_the_marker_opens_the_region() {
    let mut buffer = region(&[b"Collectable_Decoy"]);
    buffer.extend_from_slice(&region(&[b"Craftplan_Real", b"ToolSkin_Real"]));
    let items = analize_unlockable_items_data(&buffer).unwrap();
    let names: Vec<&str> = items.iter().map(|i| i.name.as_str()).collect();
    assert_eq!(names, vec!["Craftplan_Real", "ToolSkin_Real"]);
}

#[test]
fn prefix_needs_its_underscore() {
    let buffer = region(&[b"hint_collectable", b"Collectable", b"CraftplanX", b"ToolSkin_A"]);
    let items = analize_unlockable_items_data(&buffer).unwrap();
    assert_eq!(items.len(), 1);
    assert_eq!(items[0].name, "ToolSkin_A");
}

#[test]
fn control_byte_is_stripped_from_the_name() {
    let buffer = region(&[b"Collectable_\x01Tape\x01"]);
    let items = analize_unlockable_items_data(&buffer).unwrap();
    assert_eq!(items[0].name, "Collectable_Tape");
    assert_eq!(items[0].size, 16);
}

#[test]
fn name_at_the_very_end_of_the_buffer_is_found() {
    let mut buffer: Vec<u8> = b"\x02".to_vec();
    buffer.extend_from_slice(ROOT);
    buffer.extend_from_slice(b"\x00Collectable_");
    let items = analize_unlockable_items_data(&buffer).unwrap();
    assert_eq!(items.len(), 1);
    assert_eq!(items[0].name, "Collectable_");
    assert_eq!(items[0].index + items[0].size, buffer.len());
}

#[test]
fn missing_marker_is_an_error() {
    assert_eq!(
        analize_unlockable_items_data(b"Collectable_A\x00").unwrap_err(),
        SaveError::UnlockablesStartMissing
    );
    assert_eq!(
        analize_unlockable_items_data(b"").unwrap_err(),
        SaveError::UnlockablesStartMissing
    );
    assert_eq!(SaveError::UnlockablesStartMissing.kind(), ErrorKind::StructuralMismatch);
}

#[test]
fn region_without_names_is_an_error() {
    let mut buffer: Vec<u8> = b"Collectable_Before\x00".to_vec();
    buffer.extend_from_slice(ROOT);
    buffer.extend_from_slice(b"\x00nothing\x00");
    assert_eq!(analize_unlockable_items_data(&buffer).unwrap_err(), SaveError::NoUnlockables);
    assert_eq!(SaveError::NoUnlockables.kind(), ErrorKind::EmptyExtraction);
}

#[test]
fn nested_prefix_makes_two_items_that_overlap() {
    let buffer = region(&[b"Collectable_Craftplan_x"]);
    let items = analize_unlockable_items_data(&buffer).unwrap();
    assert_eq!(items.len(), 2);
    assert_eq!(items[0].name, "Collectable_Craftplan_x");
    assert_eq!(items[1].name, "Craftplan_x");
    assert!(items[0].index < items[1].index);
    assert!(items[0].index + items[0].size > items[1].index);
}

#[test]
fn full_string_runs_up_to_the_next_nul() {
    assert_eq!(get_full_string(b"..Name_A\x00Name_B\x00", 2), "Name_A");
    assert_eq!(get_full_string(b"..Name_A\x00Name_B\x00", 9), "Name_B");
    assert_eq!(get_full_string(b"..Name_A", 2), "Name_A");
    assert_eq!(get_full_string(b"..Na\x01me", 2), "Name");
    assert_eq!(get_full_string(b"..\x00", 2), "");
    assert_eq!(get_full_string(b"..", 2), "");
    assert_eq!(get_full_string(b"..", 7), "");
    assert_eq!(read_name(b"ab\x01c\x00d", 1), b"bc".to_vec());
}

#[test]
fn bytes_that_are_no_text_are_replaced() {
    assert_eq!(get_full_string(b"A\xFFB\x00", 0), "A\u{FFFD}B");
}

#[test]
fn offsets_are_sorted_ascending() {
    assert_eq!(sort_offsets(&vec![5, 1, 4, 1, 3]), vec![1, 1, 3, 4, 5]);
    assert_eq!(sort_offsets(&vec![]), Vec::<usize>::new());
    assert_eq!(sort_offsets(&vec![7]), vec![7]);
    assert_eq!(sort_offsets(&vec![3, 2, 1]), vec![1, 2, 3]);
    assert_eq!(sort_offsets(&vec![1, 2, 3]), vec![1, 2, 3]);
    let data = b"ToolSkin_A Craftplan_B Collectable_C Craftplan_D";
    assert_eq!(find_unlockable_offsets(data), vec![0, 11, 23, 37]);
}

#[test]
fn kinds_have_their_prefixes() {
    assert_eq!(ItemTypeEnum::Collectable.prefix(), b"Collectable_");
    assert_eq!(ItemTypeEnum::Craftplan.prefix(), b"Craftplan_");
    assert_eq!(ItemTypeEnum::ToolSkin.prefix(), b"ToolSkin_");
}
