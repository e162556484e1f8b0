use savegame_editor::error::SaveError;
use savegame_editor::file_analyser::{
    counted_message, export_save_for_pc, load_inventory, load_save, load_save_file,
    load_save_file_pc,
};
use savegame_editor::logger::ConsoleLogger;
use savegame_editor::mutation::{change_items_amount, edit_inventory_item_chunk};
use savegame_editor::struct_data::{IdData, InventoryChunk, SaveFile, UnlockableItem};

fn chunk_bytes(level: u16, seed: u16, amount: u32, durability: f32) -> Vec<u8> {
    let mut bytes: Vec<u8> = Vec::new();
    bytes.extend_from_slice(&level.to_le_bytes());
    bytes.extend_from_slice(&seed.to_le_bytes());
    bytes.extend_from_slice(&amount.to_le_bytes());
    bytes.extend_from_slice(&durability.to_le_bytes());
    bytes.extend_from_slice(&[0x11; 24]);
    bytes.push(0x00);
    bytes.extend_from_slice(b"SGDs");
    bytes
}

fn token_bytes(name: &[u8]) -> Vec<u8> {
    let mut bytes: Vec<u8> = ((name.len() - 4) as u16).to_le_bytes().to_vec();
    bytes.extend_from_slice(name);
    bytes
}

fn skills_part() -> Vec<u8> {
    let mut buffer: Vec<u8> = vec![0x00, 0x02];
    buffer.extend_from_slice(b"Skills::SkillInstance");
    for (name, points) in [("Dash_skill", 1u16), ("LP_Health_skill", 250), ("Jump_skill", 2)] {
        buffer.extend_from_slice(&[0x09, 0x00]);
        buffer.extend_from_slice(name.as_bytes());
        buffer.extend_from_slice(&points.to_le_bytes());
        buffer.extend_from_slice(&[0x00, 0xFF]);
    }
    buffer.extend_from_slice(b"ProgressionState::EElementVersion");
    buffer.extend_from_slice(&[0x00, 0x00]);
    buffer
}

fn unlockables_part() -> Vec<u8> {
    let mut buffer: Vec<u8> = Vec::new();
    buffer.extend_from_slice(b"Main\x01\x00\x00\x00\x05\x00Other");
    for name in [&b"Craftplan_Medkit"[..], b"Collectable_Tape_01", b"ToolSkin_Glider_Red"] {
        buffer.extend_from_slice(&[0x02, 0x00]);
        buffer.extend_from_slice(name);
        buffer.push(0x00);
    }
    buffer
}

fn inventory_part() -> Vec<u8> {
    let mut buffer: Vec<u8> = vec![0x02; 12];
    buffer.extend_from_slice(&chunk_bytes(1, 11, 10, 1.0));
    buffer.extend_from_slice(&chunk_bytes(2, 22, 20, 2.0));
    buffer.extend_from_slice(&[0x02; 6]);
    buffer.extend_from_slice(&token_bytes(b"wpn_AxeSGDs"));
    buffer.extend_from_slice(&[0x02; 30]);
    buffer.extend_from_slice(&token_bytes(b"Mod_ScopeSGDs"));
    buffer.extend_from_slice(&[0x02; 30]);
    buffer.extend_from_slice(&token_bytes(b"wpn_SawSGDs"));
    buffer.extend_from_slice(&[0x02; 90]);
    buffer.extend_from_slice(&chunk_bytes(3, 33, 30, 3.0));
    buffer.extend_from_slice(&[0x02; 6]);
    buffer.extend_from_slice(&token_bytes(b"Medkit_SmallSGDs"));
    buffer.extend_from_slice(&[0x02; 100]);
    buffer
}

fn save_bytes() -> Vec<u8> {
    let mut buffer = skills_part();
    buffer.extend_from_slice(&unlockables_part());
    buffer.extend_from_slice(&inventory_part());
    buffer
}

fn ids() -> Vec<IdData> {
    vec![
        IdData::new("Melee".to_string(), vec!["wpn_".to_string()]),
        IdData::new("Medkit".to_string(), vec!["Medkit".to_string()]),
    ]
}

fn load(buffer: Vec<u8>) -> SaveFile {
    let mut logger = ConsoleLogger::new();
    load_save_file("saves/a.sav", buffer, ids(), &mut logger, false).unwrap()
}

#[test]
fn whole_save_is_analysed() {
    let buffer = save_bytes();
    let mut logger = ConsoleLogger::new();
    let save = load_save_file("saves/a.sav", buffer.clone(), ids(), &mut logger, false).unwrap();
    assert_eq!(save.path, "saves/a.sav");
    assert_eq!(save.file_content, buffer);
    assert!(!save.is_compressed);

    let base: Vec<(&str, u16)> =
        save.skills.base_skills.iter().map(|s| (s.name.as_str(), s.points_value)).collect();
    assert_eq!(base, vec![("Dash_skill", 1), ("Jump_skill", 2)]);
    assert_eq!(save.skills.legend_skills.len(), 1);
    assert_eq!(save.skills.legend_skills[0].name, "LP_Health_skill");

    let unlockables: Vec<&str> = save.unlockable_items.iter().map(|u| u.name.as_str()).collect();
    assert_eq!(unlockables, vec!["Craftplan_Medkit", "Collectable_Tape_01", "ToolSkin_Glider_Red"]);

    assert_eq!(save.items.len(), 2);
    assert_eq!(save.items[0].name, "Weapons");
    assert_eq!(save.items[1].name, "Consumables");
    let first = &save.items[0].inventory_items;
    assert_eq!(first.len(), 2);
    assert_eq!(first[0].name, "wpn_Axe");
    assert_eq!(first[0].chunk_data.level_value, 2);
    assert_eq!(first[0].mod_data.len(), 1);
    assert_eq!(first[0].mod_data[0].name, "Mod_ScopeSGDs");
    assert_eq!(first[1].name, "wpn_Saw");
    assert_eq!(first[1].chunk_data.level_value, 1);
    let second = &save.items[1].inventory_items;
    assert_eq!(second.len(), 1);
    assert_eq!(second[0].name, "Medkit_Small");
    assert_eq!(second[0].chunk_data.amount_value, 30);
    assert_eq!(f32::from_bits(second[0].chunk_data.durability_bits), 3.0);

    assert_eq!(save.log_history, logger.log_history);
    assert_eq!(save.log_history.len(), 5);
    assert_eq!(save.log_history[0], "3 Skills got validated");
    assert_eq!(save.log_history[1], "3 Unlockables got validated.");
    assert!(save.log_history[2].starts_with("[2] inventory chunks found."));
    assert!(save.log_history[3].starts_with("[1] inventory chunks found."));
    assert_eq!(save.log_history[4], "2 Tabs from inventory got validated.");
}

#[test]
fn every_offset_points_at_its_record() {
    let buffer = save_bytes();
    let save = load(buffer.clone());
    for skill in save.skills.base_skills.iter().chain(save.skills.legend_skills.iter()) {
        assert_eq!(&buffer[skill.index..skill.index + skill.size], skill.name.as_bytes());
    }
    for unlockable in &save.unlockable_items {
        assert_eq!(
            &buffer[unlockable.index..unlockable.index + unlockable.size],
            unlockable.name.as_bytes()
        );
    }
    for row in &save.items {
        for item in &row.inventory_items {
            assert_eq!(&buffer[item.index..item.index + item.size], &item.sgd_data[..]);
            let chunk: &InventoryChunk = &item.chunk_data;
            assert_eq!(&buffer[chunk.index..chunk.index + 2], &chunk.level[..]);
            assert_eq!(&buffer[chunk.index + 37..chunk.index + 41], b"SGDs");
            for attachment in &item.mod_data {
                assert_eq!(
                    &buffer[attachment.index..attachment.index + attachment.name.len()],
                    attachment.name.as_bytes()
                );
            }
        }
    }
}

#[test]
fn success_always_has_a_base_skill() {
    let save = load(save_bytes());
    assert!(!save.skills.base_skills.is_empty());
    let mut without_base: Vec<u8> = vec![0x00, 0x02];
    without_base.extend_from_slice(b"Skills::SkillInstance");
    without_base.extend_from_slice(b"\x00LP_Health_skill\x01\x00");
    without_base.extend_from_slice(b"ProgressionState::EElementVersion");
    without_base.extend_from_slice(&unlockables_part());
    without_base.extend_from_slice(&inventory_part());
    let mut logger = ConsoleLogger::new();
    let result = load_save_file("a.sav", without_base, ids(), &mut logger, false);
    assert_eq!(result.unwrap_err(), SaveError::NoSkillValidated);
    assert!(logger.log_history.is_empty());
}

#[test]
fn first_failing_stage_ends_the_analysis() {
    let mut logger = ConsoleLogger::new();
    let no_skills = load_save_file("a.sav", inventory_part(), ids(), &mut logger, false);
    assert_eq!(no_skills.unwrap_err(), SaveError::StructureMismatch);
    assert!(logger.log_history.is_empty());

    let mut no_root = skills_part();
    no_root.extend_from_slice(&inventory_part());
    let result = load_save_file("a.sav", no_root, ids(), &mut logger, false);
    assert_eq!(result.unwrap_err(), SaveError::UnlockablesStartMissing);
    assert_eq!(logger.log_history, vec!["3 Skills got validated".to_string()]);

    let mut no_names = skills_part();
    no_names.extend_from_slice(b"Main\x01\x00\x00\x00\x05\x00Other\x00\x00");
    let mut second = ConsoleLogger::new();
    let result = load_save_file("a.sav", no_names, ids(), &mut second, false);
    assert_eq!(result.unwrap_err(), SaveError::NoUnlockables);
}

#[test]
fn save_without_inventory_has_no_rows() {
    let mut buffer = skills_part();
    buffer.extend_from_slice(&unlockables_part());
    let save = load(buffer);
    assert!(save.items.is_empty());
    assert_eq!(save.log_history.last().unwrap(), "0 Tabs from inventory got validated.");
}

#[test]
fn inventory_needs_an_unlockable_to_start_from() {
    let none: Vec<UnlockableItem> = Vec::new();
    let mut logger = ConsoleLogger::new();
    let result = load_inventory(&inventory_part(), &ids(), &none, &mut logger);
    assert_eq!(result.err(), Some(SaveError::InventoryStartMissing));
    assert!(logger.log_history.is_empty());
}

#[test]
fn earlier_messages_stay_in_front() {
    let mut logger = ConsoleLogger::new();
    logger.log_message("started");
    let save = load_save_file("a.sav", save_bytes(), ids(), &mut logger, false).unwrap();
    assert_eq!(save.log_history[0], "started");
    assert_eq!(save.log_history.len(), 6);
}

#[test]
fn compressed_save_is_analysed_like_its_content() {
    let buffer = save_bytes();
    let compressed = export_save_for_pc(&buffer).unwrap();
    let mut logger = ConsoleLogger::new();
    let save = load_save_file_pc("a.sav", compressed.clone(), ids(), &mut logger).unwrap();
    assert!(save.is_compressed);
    assert_eq!(save.file_content, buffer);
    assert_eq!(save.items.len(), 2);
    let plain = load(buffer.clone());
    assert_eq!(save.log_history, plain.log_history);

    let mut other = ConsoleLogger::new();
    let dispatched = load_save("a.sav", compressed, ids(), &mut other).unwrap();
    assert!(dispatched.is_compressed);
    let direct = load_save("a.sav", buffer, ids(), &mut other).unwrap();
    assert!(!direct.is_compressed);
    assert_eq!(direct.items.len(), 2);
}

#[test]
fn edited_item_is_parsed_back() {
    let buffer = save_bytes();
    let save = load(buffer.clone());
    let item = save.items[0].inventory_items[1].clone();
    let edited = edit_inventory_item_chunk(
        item.index,
        "wpn_Bat".to_string(),
        item.chunk_data.index,
        item.size,
        40,
        41,
        42,
        0.5f32.to_bits(),
        buffer.clone(),
    );
    assert_eq!(edited.len(), buffer.len());
    let again = load(edited);
    let changed = &again.items[0].inventory_items[1];
    assert_eq!(changed.name, "wpn_Bat");
    assert_eq!(changed.index, item.index);
    assert_eq!(changed.chunk_data.index, item.chunk_data.index);
    assert_eq!(changed.chunk_data.level_value, 40);
    assert_eq!(changed.chunk_data.seed_value, 41);
    assert_eq!(changed.chunk_data.amount_value, 42);
    assert_eq!(f32::from_bits(changed.chunk_data.durability_bits), 0.5);
    // Nothing else has changed.
    let other = &again.items[0].inventory_items[0];
    assert_eq!(other.name, "wpn_Axe");
    assert_eq!(other.chunk_data.level_value, 2);
    assert_eq!(other.chunk_data.amount_value, 20);
    assert_eq!(again.items[1].inventory_items[0].name, "Medkit_Small");
    assert_eq!(again.skills.base_skills[0].points_value, 1);
    assert_eq!(again.unlockable_items.len(), 3);
}

#[test]
fn amounts_of_a_row_are_parsed_back() {
    let buffer = save_bytes();
    let save = load(buffer.clone());
    let chunks: Vec<InventoryChunk> =
        save.items[0].inventory_items.iter().map(|item| item.chunk_data.clone()).collect();
    let (_, edited) = change_items_amount(chunks, 9999999, buffer);
    let again = load(edited);
    for item in &again.items[0].inventory_items {
        assert_eq!(item.chunk_data.amount_value, 9999999);
    }
    assert_eq!(again.items[0].inventory_items[0].chunk_data.level_value, 2);
    assert_eq!(again.items[1].inventory_items[0].chunk_data.amount_value, 30);
}

#[test]
fn messages_start_with_their_number() {
    assert_eq!(counted_message(12, " Skills got validated"), "12 Skills got validated");
    assert_eq!(counted_message(0, ""), "0");
}
