use savegame_editor::chunks::read_chunk;
use savegame_editor::classifier::{find_amount_of_matches, NameToken, TokenKind};
use savegame_editor::error::SaveError;
use savegame_editor::inventory::{
    chunk_for, chunks_message, collect_items, finish_row, get_all_items, make_item, make_mod,
    next_row_index, scan_row, RowStep,
};
use savegame_editor::logger::ConsoleLogger;
use savegame_editor::struct_data::{IdData, InventoryChunk, InventoryItem, Mod};

fn chunk_bytes(level: u16, seed: u16, amount: u32, durability: f32) -> Vec<u8> {
    let mut bytes: Vec<u8> = Vec::new();
    bytes.extend_from_slice(&level.to_le_bytes());
    bytes.extend_from_slice(&seed.to_le_bytes());
    bytes.extend_from_slice(&amount.to_le_bytes());
    bytes.extend_from_slice(&durability.to_le_bytes());
    bytes.extend_from_slice(&[0x11; 24]);
    bytes.push(0x00);
    bytes.extend_from_slice(b"SGDs");
    bytes
}

fn token_bytes(name: &[u8]) -> Vec<u8> {
    let mut bytes: Vec<u8> = ((name.len() - 4) as u16).to_le_bytes().to_vec();
    bytes.extend_from_slice(name);
    bytes
}

fn chunk(level: u16) -> InventoryChunk {
    let bytes = chunk_bytes(level, 0, 1, 1.0);
    read_chunk(&bytes, 0)
}

fn name_token(text: &[u8], index: usize, kind: TokenKind) -> NameToken {
    NameToken { text: text.to_vec(), index, kind }
}

fn ids() -> Vec<IdData> {
    vec![
        IdData::new("Melee".to_string(), vec!["wpn_".to_string()]),
        IdData::new("Medkit".to_string(), vec!["Medkit".to_string(), "Bandage".to_string()]),
    ]
}

/// One row: two chunks, then two items, the first of them with a mod.
fn row_bytes(levels: (u16, u16), names: (&[u8], &[u8], &[u8])) -> Vec<u8> {
    let mut bytes: Vec<u8> = Vec::new();
    bytes.extend_from_slice(&chunk_bytes(levels.0, 1, 10, 1.0));
    bytes.extend_from_slice(&chunk_bytes(levels.1, 2, 20, 2.0));
    bytes.extend_from_slice(&[0x02; 6]);
    bytes.extend_from_slice(&token_bytes(names.0));
    bytes.extend_from_slice(&[0x02; 30]);
    bytes.extend_from_slice(&token_bytes(names.1));
    bytes.extend_from_slice(&[0x02; 30]);
    bytes.extend_from_slice(&token_bytes(names.2));
    bytes
}

#[test]
fn mod_is_attached_to_the_item_before_it() {
    let mut buffer: Vec<u8> = vec![0x02; 3];
    buffer.extend_from_slice(&token_bytes(b"wpn_AxeSGDs"));
    buffer.extend_from_slice(&token_bytes(b"Mod_ScopeSGDs"));
    buffer.extend_from_slice(&token_bytes(b"wpn_SawSGDs"));
    let tokens = find_amount_of_matches(&buffer, 0, 2).unwrap();
    let chunks = vec![chunk(1), chunk(2)];
    let items = collect_items(&buffer, &chunks, &tokens);
    assert_eq!(items.len(), 2);
    assert_eq!(items[0].name, "wpn_Axe");
    assert_eq!(items[0].mod_data.len(), 1);
    assert_eq!(items[0].mod_data[0].name, "Mod_ScopeSGDs");
    assert_eq!(items[0].mod_data[0].index, 18);
    assert_eq!(items[1].name, "wpn_Saw");
    assert!(items[1].mod_data.is_empty());
    assert!(items.iter().all(|item| !item.name.contains("Mod")));
}

#[test]
fn items_take_their_chunks_from_the_end_of_the_run() {
    let tokens = vec![
        name_token(b"Item_OneSGDs", 10, TokenKind::NewItem),
        name_token(b"Item_TwoSGDs", 50, TokenKind::NewItem),
        name_token(b"Item_ThreeSGDs", 90, TokenKind::NewItem),
    ];
    let chunks = vec![chunk(1), chunk(2), chunk(3)];
    let items = collect_items(&[0u8; 200], &chunks, &tokens);
    let paired: Vec<(&str, u16)> =
        items.iter().map(|item| (item.name.as_str(), item.chunk_data.level_value)).collect();
    assert_eq!(paired, vec![("Item_One", 3), ("Item_Two", 2), ("Item_Three", 1)]);
    assert_eq!(chunk_for(&chunks, 0).level_value, 3);
    assert_eq!(chunk_for(&chunks, 2).level_value, 1);
    assert_eq!(chunk_for(&chunks, 3).level_value, 1);
}

#[test]
fn as_many_items_as_item_tokens() {
    let tokens = vec![
        name_token(b"Mod_EarlySGDs", 5, TokenKind::Mod),
        name_token(b"Item_OneSGDs", 10, TokenKind::NewItem),
        name_token(b"Mod_ASGDs", 30, TokenKind::Mod),
        name_token(b"Outfit_BSGDs", 50, TokenKind::TransmogContinuation),
        name_token(b"Item_TwoSGDs", 70, TokenKind::NewItem),
        name_token(b"Mod_CSGDs", 90, TokenKind::Mod),
    ];
    let chunks = vec![chunk(1), chunk(2)];
    let items = collect_items(&[0u8; 200], &chunks, &tokens);
    assert_eq!(items.len(), 2);
    let mods: Vec<Vec<&str>> = items
        .iter()
        .map(|item| item.mod_data.iter().map(|m| m.name.as_str()).collect())
        .collect();
    // An attachment in front of the first item belongs to nothing.
    assert_eq!(mods, vec![vec!["Mod_ASGDs", "Outfit_BSGDs"], vec!["Mod_CSGDs"]]);
    let none: Vec<NameToken> = Vec::new();
    assert!(collect_items(&[0u8; 200], &chunks, &none).is_empty());
    let only_mods = vec![name_token(b"Mod_ASGDs", 30, TokenKind::Mod)];
    assert!(collect_items(&[0u8; 200], &chunks, &only_mods).is_empty());
}

#[test]
fn item_keeps_its_token_and_a_clean_name() {
    let token = name_token(b"wpn_Axe\x00\x01\x00SGDsSGDs", 44, TokenKind::NewItem);
    let item = make_item(&token, &chunk(9), Vec::new());
    assert_eq!(item.name, "wpn_Axe");
    assert_eq!(item.index, 44);
    assert_eq!(item.size, 18);
    assert_eq!(item.sgd_data, b"wpn_Axe\x00\x01\x00SGDsSGDs".to_vec());
    assert_eq!(item.chunk_data.level_value, 9);
}

#[test]
fn mod_keeps_thirty_bytes_from_its_name_on() {
    let mut buffer: Vec<u8> = vec![0x02; 4];
    buffer.extend_from_slice(b"Mod_ScopeSGDs");
    buffer.extend((0u8..40).collect::<Vec<u8>>());
    let attachment = make_mod(&buffer, &name_token(b"Mod_ScopeSGDs", 4, TokenKind::Mod));
    assert_eq!(attachment.name, "Mod_ScopeSGDs");
    assert_eq!(attachment.index, 4);
    assert_eq!(attachment.data_content, buffer[4..34].to_vec());
    assert_eq!(attachment.data_string.len(), 30 * 3 - 1);
    assert!(attachment.data_string.starts_with("4D 6F 64 5F"));
    // Close to the end of the buffer there are fewer bytes to keep.
    let short = make_mod(b"..Mod_ASGDs", &name_token(b"Mod_ASGDs", 2, TokenKind::Mod));
    assert_eq!(short.data_content, b"Mod_ASGDs".to_vec());
    let beyond = make_mod(b"..", &name_token(b"Mod_ASGDs", 9, TokenKind::Mod));
    assert!(beyond.data_content.is_empty());
    assert_eq!(beyond.data_string, "");
}

#[test]
fn next_row_is_searched_behind_the_last_name() {
    let plain = InventoryItem::new(
        "wpn_Axe".to_string(),
        100,
        11,
        b"wpn_AxeSGDs".to_vec(),
        chunk(1),
        Vec::new(),
    );
    assert_eq!(next_row_index(&vec![plain.clone()]), Some(175));
    let with_mod = InventoryItem::new(
        "wpn_Saw".to_string(),
        200,
        11,
        b"wpn_SawSGDs".to_vec(),
        chunk(1),
        vec![
            Mod::new("Mod_ASGDs".to_string(), 220, Vec::new()),
            Mod::new("Mod_ScopeSGDs".to_string(), 300, Vec::new()),
        ],
    );
    assert_eq!(next_row_index(&vec![plain.clone(), with_mod]), Some(300 + 13 + 75));
    let far = InventoryItem::new(
        "x".to_string(),
        usize::MAX - 3,
        1,
        Vec::new(),
        chunk(1),
        Vec::new(),
    );
    assert_eq!(next_row_index(&vec![far]), None);
}

#[test]
fn message_for_a_run_of_chunks() {
    assert_eq!(
        chunks_message(3, 1234),
        "[3] inventory chunks found. The new index is: [1234]"
    );
    assert_eq!(chunks_message(0, 0), "[0] inventory chunks found. The new index is: [0]");
}

#[test]
fn one_row_of_two_items() {
    let mut buffer: Vec<u8> = vec![0x02; 5];
    buffer.extend_from_slice(&row_bytes((1, 2), (b"wpn_AxeSGDs", b"Mod_ScopeSGDs", b"wpn_SawSGDs")));
    let mut logger = ConsoleLogger::new();
    let rows = get_all_items(&buffer, 5, &ids(), &mut logger).unwrap();
    assert_eq!(rows.len(), 1);
    assert_eq!(rows[0].name, "Weapons");
    let items = &rows[0].inventory_items;
    assert_eq!(items.len(), 2);
    assert_eq!(items[0].name, "wpn_Axe");
    assert_eq!(items[0].chunk_data.level_value, 2);
    assert_eq!(items[0].chunk_data.amount_value, 20);
    assert_eq!(items[0].mod_data.len(), 1);
    assert_eq!(items[1].name, "wpn_Saw");
    assert_eq!(items[1].chunk_data.level_value, 1);
    assert_eq!(items[1].chunk_data.index, 5);
    assert_eq!(&buffer[items[1].index..items[1].index + items[1].size], b"wpn_SawSGDs");
    assert_eq!(
        logger.log_history,
        vec!["[2] inventory chunks found. The new index is: [87]".to_string()]
    );
}

#[test]
fn two_rows_seventy_five_bytes_apart() {
    let mut buffer: Vec<u8> = vec![0x02; 5];
    buffer.extend_from_slice(&row_bytes((1, 2), (b"wpn_AxeSGDs", b"Mod_ScopeSGDs", b"wpn_SawSGDs")));
    let last_name = buffer.len() - b"wpn_SawSGDs".len();
    buffer.extend_from_slice(&[0x02; 80]);
    let second_row = buffer.len();
    buffer.extend_from_slice(&row_bytes(
        (3, 4),
        (b"Medkit_SmallSGDs", b"Lucky_Charm_1SGDs", b"Bandage_BigSGDs"),
    ));
    let mut logger = ConsoleLogger::new();
    logger.log_message("before");
    let rows = get_all_items(&buffer, 5, &ids(), &mut logger).unwrap();
    assert_eq!(rows.len(), 2);
    assert_eq!(rows[0].name, "Weapons");
    assert_eq!(rows[1].name, "Consumables");
    assert!(last_name + 75 <= second_row);
    let names: Vec<&str> = rows[1].inventory_items.iter().map(|i| i.name.as_str()).collect();
    assert_eq!(names, vec!["Medkit_Small", "Bandage_Big"]);
    assert_eq!(rows[1].inventory_items[0].mod_data[0].name, "Lucky_Charm_1SGDs");
    assert_eq!(rows[1].inventory_items[0].chunk_data.level_value, 4);
    assert_eq!(rows[1].inventory_items[1].chunk_data.level_value, 3);
    assert_eq!(logger.log_history.len(), 3);
    assert_eq!(logger.log_history[0], "before");
    assert_eq!(
        logger.log_history[2],
        format!("[2] inventory chunks found. The new index is: [{}]", second_row + 82)
    );
}

#[test]
fn no_rows_where_no_chunks_are() {
    let mut logger = ConsoleLogger::new();
    let rows = get_all_items(b"nothing of interest", 0, &ids(), &mut logger).unwrap();
    assert!(rows.is_empty());
    assert!(logger.log_history.is_empty());
    let behind = get_all_items(b"short", 99, &ids(), &mut logger).unwrap();
    assert!(behind.is_empty());
}

#[test]
fn run_of_chunks_without_items_ends_the_rows() {
    let mut buffer: Vec<u8> = Vec::new();
    buffer.extend_from_slice(&chunk_bytes(1, 1, 1, 1.0));
    buffer.extend_from_slice(&[0x02; 20]);
    let mut logger = ConsoleLogger::new();
    let rows = get_all_items(&buffer, 0, &ids(), &mut logger).unwrap();
    assert!(rows.is_empty());
    assert_eq!(logger.log_history.len(), 1);
    match scan_row(&buffer, 0, &ids(), &mut logger) {
        RowStep::Ended => {}
        _ => panic!("a run without items ends the scan"),
    }
}

#[test]
fn fewer_items_than_chunks_when_the_names_run_out() {
    let mut buffer: Vec<u8> = Vec::new();
    buffer.extend_from_slice(&chunk_bytes(1, 1, 1, 1.0));
    buffer.extend_from_slice(&chunk_bytes(2, 1, 1, 1.0));
    buffer.extend_from_slice(&chunk_bytes(3, 1, 1, 1.0));
    buffer.extend_from_slice(&[0x02; 6]);
    buffer.extend_from_slice(&token_bytes(b"wpn_AxeSGDs"));
    let mut logger = ConsoleLogger::new();
    let rows = get_all_items(&buffer, 0, &ids(), &mut logger).unwrap();
    assert_eq!(rows.len(), 1);
    assert_eq!(rows[0].inventory_items.len(), 1);
    assert_eq!(rows[0].inventory_items[0].chunk_data.level_value, 3);
}

#[test]
fn row_is_the_last_one_when_the_next_would_start_behind_the_buffer() {
    let item = InventoryItem::new(
        "wpn_Axe".to_string(),
        10,
        11,
        b"wpn_AxeSGDs".to_vec(),
        chunk(1),
        Vec::new(),
    );
    match finish_row(&[0u8; 84], 0, vec![item.clone()], &ids()) {
        RowStep::Last(row) => assert_eq!(row.name, "Weapons"),
        _ => panic!("the next row would start behind the buffer"),
    }
    match finish_row(&[0u8; 85], 0, vec![item.clone()], &ids()) {
        RowStep::More(row, next) => {
            assert_eq!(row.inventory_items.len(), 1);
            assert_eq!(next, 85);
        }
        _ => panic!("the next row starts at the end of the buffer"),
    }
    match finish_row(&[0u8; 200], 85, vec![item], &ids()) {
        RowStep::Last(_) => {}
        _ => panic!("the scan only moves forward"),
    }
    match finish_row(&[0u8; 200], 0, Vec::new(), &ids()) {
        RowStep::Ended => {}
        _ => panic!("no items, no row"),
    }
}

#[test]
fn pattern_errors_are_the_only_errors_of_the_rows() {
    // Every pattern of the library is accepted by the engine.
    let mut logger = ConsoleLogger::new();
    assert_ne!(
        get_all_items(b"", 0, &ids(), &mut logger).err(),
        Some(SaveError::PatternRejected)
    );
}
