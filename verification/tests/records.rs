use savegame_editor::error::{ErrorKind, SaveError};
use savegame_editor::logger::ConsoleLogger;
use savegame_editor::struct_data::{
    IdData, InventoryChunk, InventoryItem, InventoryItemRow, ItemTypeEnum, Mod, OutpostSave,
    PatchedItems, SaveFile, SkillItem, Skills, UnlockableItem,
};

fn chunk() -> InventoryChunk {
    InventoryChunk::new(
        vec![3, 0],
        vec![7, 0],
        vec![100, 0, 0, 0],
        1.0f32.to_le_bytes().to_vec(),
        vec![0xAB; 25],
        1234,
    )
}

#[test]
fn chunk_decodes_its_numbers() {
    let chunk = chunk();
    assert_eq!(chunk.level_value, 3);
    assert_eq!(chunk.seed_value, 7);
    assert_eq!(chunk.amount_value, 100);
    assert_eq!(format!("{:.1}", f32::from_bits(chunk.durability_bits)), "1.0");
    assert_eq!(chunk.index, 1234);
    assert_eq!(chunk.space, vec![0xAB; 25]);
    assert_eq!(chunk.level, vec![3, 0]);
}

#[test]
fn skill_decodes_its_points() {
    let skill = SkillItem::new("Dash_skill".to_string(), 10, 10, b"Dash_skill".to_vec(), vec![0x2C, 0x01]);
    assert_eq!(skill.points_value, 300);
    assert_eq!(skill.points_data, vec![0x2C, 0x01]);
    assert_eq!(skill.name, "Dash_skill");
    assert_eq!(skill.index, 10);
    assert_eq!(skill.size, 10);
    let skills = Skills::new(vec![skill.clone()], Vec::new());
    assert_eq!(skills.base_skills.len(), 1);
    assert!(skills.legend_skills.is_empty());
}

#[test]
fn mod_dumps_its_payload() {
    let attachment = Mod::new("Mod_Scope".to_string(), 5, vec![0x00, 0x1F, 0xA0]);
    assert_eq!(attachment.data_string, "00 1F A0");
    assert_eq!(attachment.data_content, vec![0x00, 0x1F, 0xA0]);
    assert_eq!(attachment.name, "Mod_Scope");
    assert_eq!(attachment.index, 5);
    assert_eq!(Mod::new(String::new(), 0, Vec::new()).data_string, "");
}

#[test]
fn records_keep_what_they_are_given() {
    let item = InventoryItem::new(
        "wpn_Axe".to_string(),
        50,
        11,
        b"wpn_AxeSGDs".to_vec(),
        chunk(),
        vec![Mod::new("Mod_A".to_string(), 70, vec![1])],
    );
    assert_eq!(item.name, "wpn_Axe");
    assert_eq!(item.index, 50);
    assert_eq!(item.size, 11);
    assert_eq!(item.chunk_data.amount_value, 100);
    assert_eq!(item.mod_data[0].data_string, "01");
    let row = InventoryItemRow::new("Weapons".to_string(), vec![item]);
    assert_eq!(row.name, "Weapons");
    assert_eq!(row.inventory_items.len(), 1);
    let unlockable = UnlockableItem::new("ToolSkin_A".to_string(), 9, 10, b"ToolSkin_A".to_vec());
    assert_eq!((unlockable.index, unlockable.size), (9, 10));
    let ids = IdData::new("melee".to_string(), vec!["wpn_".to_string()]);
    assert_eq!(ids.filename, "melee");
    assert_eq!(ids.ids, vec!["wpn_".to_string()]);
    let patched = PatchedItems::new(vec!["a".to_string()], vec!["b".to_string(), "c".to_string()]);
    assert_eq!(patched.not_dropable.len(), 1);
    assert_eq!(patched.not_shareable.len(), 2);
    let save = SaveFile::new(
        "a.sav".to_string(),
        vec![1, 2, 3],
        Skills::new(Vec::new(), Vec::new()),
        vec![unlockable],
        vec![row],
        vec!["line".to_string()],
        true,
    );
    assert_eq!(save.file_content, vec![1, 2, 3]);
    assert!(save.is_compressed);
    let outpost = OutpostSave::new(
        "Base".to_string(),
        "Owner".to_string(),
        "A save".to_string(),
        vec!["all skills".to_string()],
        "1.2".to_string(),
        save,
    );
    assert_eq!(outpost.name, "Base");
    assert_eq!(outpost.owner, "Owner");
    assert_eq!(outpost.description, "A save");
    assert_eq!(outpost.features, vec!["all skills".to_string()]);
    assert_eq!(outpost.version, "1.2");
    assert_eq!(outpost.save_file.path, "a.sav");
    assert_ne!(ItemTypeEnum::Craftplan, ItemTypeEnum::ToolSkin);
}

#[test]
fn logger_keeps_its_messages_in_order() {
    let mut logger = ConsoleLogger::new();
    assert!(logger.log_history.is_empty());
    logger.log_message("first");
    logger.log_error("broken");
    logger.log_message("");
    assert_eq!(
        logger.log_history,
        vec!["first".to_string(), "Error: broken".to_string(), String::new()]
    );
    assert_eq!(logger.history(), logger.log_history);
}

#[test]
fn every_error_has_its_message_and_its_family() {
    let all = [
        (SaveError::StructureMismatch, ErrorKind::StructuralMismatch, "does not fit the save file structure"),
        (SaveError::NoSkillValidated, ErrorKind::EmptyExtraction, "could not validate a single skill"),
        (SaveError::UnlockablesStartMissing, ErrorKind::StructuralMismatch, "Start pattern(s) for unlockables"),
        (SaveError::NoUnlockables, ErrorKind::EmptyExtraction, "No matching unlockable item strings"),
        (SaveError::InventoryStartMissing, ErrorKind::StructuralMismatch, "start index of the inventory"),
        (SaveError::StartIndexOutOfRange, ErrorKind::StructuralMismatch, "must not be greater than the content length"),
        (SaveError::NoChunksFound, ErrorKind::EmptyExtraction, "No matches found"),
        (SaveError::NotCompressed, ErrorKind::DecompressionFailure, "actually compressed"),
        (SaveError::PatternRejected, ErrorKind::StructuralMismatch, "pattern"),
        (SaveError::CompressionFailed, ErrorKind::CompressionFailure, "compressed"),
    ];
    for (error, kind, part) in all {
        assert_eq!(error.kind(), kind);
        assert!(error.message().contains(part), "{:?}", error);
    }
    assert_eq!(
        SaveError::StructureMismatch.message(),
        "It appears the file provided does not fit the save file structure. Please check if the path is set to a valid save file."
    );
}
