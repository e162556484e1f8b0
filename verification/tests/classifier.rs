use savegame_editor::classifier::{
    classify_token, collect_tokens, find_amount_of_matches, next_token, read_full_text,
    validate_item_or_mod, validate_item_or_transmog, validate_transmog, NameToken, RunState,
    TokenKind,
};

fn state_after(established: &[u8], previous: &[u8], previous_end: usize, mods: usize) -> RunState {
    RunState {
        cursor: previous_end,
        established: established.to_vec(),
        previous: previous.to_vec(),
        mods,
        items: 1,
    }
}

fn token(prefix: u16, name: &[u8]) -> Vec<u8> {
    let mut bytes: Vec<u8> = prefix.to_le_bytes().to_vec();
    bytes.extend_from_slice(name);
    bytes
}

fn kinds(tokens: &[NameToken]) -> Vec<TokenKind> {
    tokens.iter().map(|t| t.kind).collect()
}

fn texts(tokens: &[NameToken]) -> Vec<&[u8]> {
    tokens.iter().map(|t| &t.text[..]).collect()
}

#[test]
fn mod_and_charm_never_name_an_item() {
    assert!(!validate_item_or_mod(b"wpn_Mod_ScopeSGDs"));
    assert!(!validate_item_or_mod(b"wpn_MODIFIERSGDs"));
    assert!(!validate_item_or_mod(b"Lucky_charm_01SGDs"));
    assert!(!validate_item_or_mod(b"Lucky_Charm_01SGDs"));
    assert!(validate_item_or_mod(b"wpn_AxeSGDs"));
    assert!(validate_item_or_mod(b"SGDs"));
}

#[test]
fn ammunition_belongs_to_the_weapon_before_it() {
    assert!(validate_item_or_transmog(b"Bullet_PistolSGDs", b"wpn_Crossbow_01SGDs"));
    assert!(validate_item_or_transmog(b"Craftplan_ArrowSGDs", b"wpn_HarpoonSGDs"));
    assert!(validate_item_or_transmog(b"bullet_9mmSGDs", b"Firearm_PistolSGDs"));
    assert!(validate_item_or_transmog(b"Bullet_ShellSGDs", b"wpn_ShotGUN_02SGDs"));
    // A bullet is no weapon for another bullet.
    assert!(!validate_item_or_transmog(b"Bullet_ASGDs", b"Firearm_Bullet_BSGDs"));
    // Neither bullet nor craft plan.
    assert!(!validate_item_or_transmog(b"wpn_AxeSGDs", b"wpn_BowSGDs"));
    // The item before it has no slot.
    assert!(!validate_item_or_transmog(b"Bullet_ASGDs", b"wpn_AxeSGDs"));
    assert!(!validate_item_or_transmog(b"Bullet_ASGDs", b""));
}

#[test]
fn outfits_close_together_are_overrides() {
    assert!(validate_transmog(b"Outfit_Red_HeadSGDs", 130, b"Outfit_Blue_HeadSGDs", 100));
    assert!(validate_transmog(b"outfit_aSGDs", 100, b"OUTFIT_bSGDs", 100));
    assert!(!validate_transmog(b"Outfit_Red_HeadSGDs", 131, b"Outfit_Blue_HeadSGDs", 100));
    assert!(!validate_transmog(b"Outfit_Red_HeadSGDs", 99, b"Outfit_Blue_HeadSGDs", 100));
    assert!(!validate_transmog(b"wpn_AxeSGDs", 110, b"Outfit_Blue_HeadSGDs", 100));
    assert!(!validate_transmog(b"Outfit_Red_HeadSGDs", 110, b"wpn_AxeSGDs", 100));
}

#[test]
fn decision_table_takes_the_first_rule_that_applies() {
    let state = state_after(b"wpn_BowSGDs", b"wpn_BowSGDs", 100, 0);
    let classify = |text: &[u8], savegame: bool| classify_token(text, text, 120, &state, 5, savegame);
    assert_eq!(classify(b"wpn_AxeSGDs", false), TokenKind::NewItem);
    assert_eq!(classify(b"wpn_AxeSGDs", true), TokenKind::EndOfRun);
    assert_eq!(classify(b"Mod_ScopeSGDs", false), TokenKind::Mod);
    assert_eq!(classify(b"Mod_ScopeSGDs", true), TokenKind::EndOfRun);
    assert_eq!(classify(b"Bullet_ArrowSGDs", false), TokenKind::Mod);
    assert_eq!(classify(b"SGDs", false), TokenKind::EndOfRun);
    let outfit = state_after(b"Outfit_ASGDs", b"Outfit_ASGDs", 100, 0);
    assert_eq!(
        classify_token(b"Outfit_BSGDs", b"Outfit_BSGDs", 120, &outfit, 5, false),
        TokenKind::TransmogContinuation
    );
    assert_eq!(
        classify_token(b"Outfit_BSGDs", b"Outfit_BSGDs", 131, &outfit, 5, false),
        TokenKind::NewItem
    );
    // A mod outfit is a mod first.
    assert_eq!(
        classify_token(b"Outfit_ModSGDs", b"Outfit_ModSGDs", 120, &outfit, 5, false),
        TokenKind::Mod
    );
}

#[test]
fn run_is_full_when_it_holds_as_many_items_as_chunks() {
    let state = state_after(b"wpn_AxeSGDs", b"wpn_AxeSGDs", 100, 0);
    assert_eq!(
        classify_token(b"wpn_SawSGDs", b"wpn_SawSGDs", 120, &state, 1, false),
        TokenKind::EndOfRun
    );
    assert_eq!(
        classify_token(b"wpn_SawSGDs", b"wpn_SawSGDs", 120, &state, 2, false),
        TokenKind::NewItem
    );
    // Attachments of the last item are still taken.
    assert_eq!(
        classify_token(b"Mod_ASGDs", b"Mod_ASGDs", 120, &state, 1, false),
        TokenKind::Mod
    );
}

#[test]
fn bare_sgds_is_a_slot_only_behind_four_attachments() {
    for mods in 0..8 {
        let state = state_after(b"wpn_AxeSGDs", b"Mod_ASGDs", 100, mods);
        let expected = if mods == 4 { TokenKind::Mod } else { TokenKind::EndOfRun };
        assert_eq!(classify_token(b"SGDs", b"SGDs", 120, &state, 5, false), expected);
    }
}

#[test]
fn full_text_follows_the_declared_size() {
    // The pattern missed "My " in front of the match.
    let mut buffer: Vec<u8> = vec![0x02, 0x02];
    buffer.extend_from_slice(&14u16.to_le_bytes());
    buffer.extend_from_slice(b"Item_One Two 3SGDs");
    assert_eq!(read_full_text(&buffer, 4, b"Item_One"), b"Item_One Two 3SGDs".to_vec());
    // A declared size that is not larger than the match changes nothing.
    let mut fits: Vec<u8> = 7u16.to_le_bytes().to_vec();
    fits.extend_from_slice(b"Foo_BarSGDs");
    assert_eq!(read_full_text(&fits, 2, b"Foo_BarSGDs"), b"Foo_BarSGDs".to_vec());
    // A declared size that reaches beyond the buffer changes nothing.
    let mut beyond: Vec<u8> = 500u16.to_le_bytes().to_vec();
    beyond.extend_from_slice(b"Foo_BarSGDs");
    assert_eq!(read_full_text(&beyond, 2, b"Foo_BarSGDs"), b"Foo_BarSGDs".to_vec());
    // No two bytes in front of the token.
    assert_eq!(read_full_text(b"xFoo_BarSGDs", 1, b"Foo_BarSGDs"), b"Foo_BarSGDs".to_vec());
    // A bare "SGDs" is always its own text.
    let mut bare: Vec<u8> = 6u16.to_le_bytes().to_vec();
    bare.extend_from_slice(b"SGDs and more bytes");
    assert_eq!(read_full_text(&bare, 2, b"SGDs"), b"SGDs".to_vec());
}

#[test]
fn token_is_looked_up_from_the_cursor() {
    let buffer = b"..wpn_AxeSGDs....wpn_AxeSGDs..";
    let mut state = RunState::new(0);
    let first = next_token(buffer, 0, 5, &state, b"wpn_AxeSGDs").unwrap();
    assert_eq!(first.index, 2);
    assert_eq!(first.kind, TokenKind::NewItem);
    state.accept(&first);
    assert_eq!(state.cursor, 13);
    assert_eq!(state.items, 1);
    assert_eq!(state.mods, 0);
    assert_eq!(state.established, b"wpn_AxeSGDs".to_vec());
    let second = next_token(buffer, 0, 5, &state, b"wpn_AxeSGDs").unwrap();
    assert_eq!(second.index, 17);
    state.accept(&second);
    assert!(next_token(buffer, 0, 5, &state, b"wpn_AxeSGDs").is_none());
}

#[test]
fn mod_behind_an_item_is_an_attachment() {
    let mut buffer: Vec<u8> = vec![0x02; 3];
    buffer.extend_from_slice(&token(7, b"wpn_AxeSGDs"));
    buffer.extend_from_slice(&token(9, b"Mod_ScopeSGDs"));
    buffer.extend_from_slice(&token(7, b"wpn_SawSGDs"));
    let tokens = find_amount_of_matches(&buffer, 0, 2).unwrap();
    assert_eq!(kinds(&tokens), vec![TokenKind::NewItem, TokenKind::Mod, TokenKind::NewItem]);
    assert_eq!(
        texts(&tokens),
        vec![&b"wpn_AxeSGDs"[..], &b"Mod_ScopeSGDs"[..], &b"wpn_SawSGDs"[..]]
    );
    let offsets: Vec<usize> = tokens.iter().map(|t| t.index).collect();
    assert_eq!(offsets, vec![5, 18, 33]);
}

#[test]
fn tokens_end_when_the_run_is_full() {
    let mut buffer: Vec<u8> = vec![0x02; 3];
    buffer.extend_from_slice(&token(7, b"wpn_AxeSGDs"));
    buffer.extend_from_slice(&token(9, b"Mod_ScopeSGDs"));
    buffer.extend_from_slice(&token(7, b"wpn_SawSGDs"));
    buffer.extend_from_slice(&token(9, b"Mod_GripSGDs"));
    buffer.extend_from_slice(&token(7, b"wpn_BatSGDs"));
    buffer.extend_from_slice(&token(9, b"Mod_TapeSGDs"));
    let tokens = find_amount_of_matches(&buffer, 0, 2).unwrap();
    assert_eq!(
        kinds(&tokens),
        vec![TokenKind::NewItem, TokenKind::Mod, TokenKind::NewItem, TokenKind::Mod]
    );
    let one = find_amount_of_matches(&buffer, 0, 1).unwrap();
    assert_eq!(kinds(&one), vec![TokenKind::NewItem, TokenKind::Mod]);
    let none = find_amount_of_matches(&buffer, 0, 0).unwrap();
    assert!(none.is_empty());
    let all = find_amount_of_matches(&buffer, 0, 10).unwrap();
    assert_eq!(all.len(), 6);
}

#[test]
fn tokens_end_at_a_bare_sgds() {
    let mut buffer: Vec<u8> = vec![0x02; 3];
    buffer.extend_from_slice(&token(7, b"wpn_AxeSGDs"));
    buffer.extend_from_slice(&[0x02, 0x02, 0x00]);
    buffer.extend_from_slice(b"SGDs");
    buffer.extend_from_slice(&token(7, b"wpn_SawSGDs"));
    let tokens = find_amount_of_matches(&buffer, 0, 5).unwrap();
    assert_eq!(kinds(&tokens), vec![TokenKind::NewItem]);
}

#[test]
fn bare_sgds_behind_four_mods_is_a_fifth_slot() {
    let mut buffer: Vec<u8> = vec![0x02; 3];
    buffer.extend_from_slice(&token(7, b"wpn_AxeSGDs"));
    for name in [&b"Mod_OneSGDs"[..], b"Mod_TwoSGDs", b"Mod_ThreeSGDs", b"Mod_FourSGDs"] {
        buffer.extend_from_slice(&token(8, name));
    }
    buffer.extend_from_slice(&[0x02, 0x02, 0x00]);
    buffer.extend_from_slice(b"SGDs");
    buffer.extend_from_slice(&token(7, b"wpn_SawSGDs"));
    let tokens = find_amount_of_matches(&buffer, 0, 5).unwrap();
    assert_eq!(
        kinds(&tokens),
        vec![
            TokenKind::NewItem,
            TokenKind::Mod,
            TokenKind::Mod,
            TokenKind::Mod,
            TokenKind::Mod,
            TokenKind::Mod,
            TokenKind::NewItem
        ]
    );
    assert_eq!(tokens[5].text, b"SGDs".to_vec());
}

#[test]
fn tokens_end_behind_savegame() {
    let mut buffer: Vec<u8> = vec![0x02; 3];
    buffer.extend_from_slice(&token(7, b"wpn_AxeSGDs"));
    buffer.extend_from_slice(b"\x00Savegame\x00");
    buffer.extend_from_slice(&token(9, b"Mod_ScopeSGDs"));
    let tokens = find_amount_of_matches(&buffer, 0, 5).unwrap();
    assert_eq!(kinds(&tokens), vec![TokenKind::NewItem]);
}

#[test]
fn ammunition_and_outfits_in_a_run() {
    let mut buffer: Vec<u8> = vec![0x02; 3];
    buffer.extend_from_slice(&token(7, b"wpn_BowSGDs"));
    buffer.extend_from_slice(&token(12, b"Bullet_ArrowSGDs"));
    buffer.extend_from_slice(&token(13, b"Outfit_Blue_TSGDs"));
    buffer.extend_from_slice(&token(12, b"Outfit_Red_TSGDs"));
    buffer.extend_from_slice(&[0x02; 40]);
    buffer.extend_from_slice(&token(14, b"Outfit_Green_TSGDs"));
    buffer.extend_from_slice(&token(12, b"Bullet_ArrowSGDs"));
    let tokens = find_amount_of_matches(&buffer, 0, 9).unwrap();
    assert_eq!(
        kinds(&tokens),
        vec![
            TokenKind::NewItem,
            TokenKind::Mod,
            TokenKind::NewItem,
            TokenKind::TransmogContinuation,
            TokenKind::NewItem,
            TokenKind::NewItem
        ]
    );
}

#[test]
fn names_padded_with_nul_are_one_token() {
    let mut buffer: Vec<u8> = vec![0x02; 3];
    buffer.extend_from_slice(&token(7, b"wpn_Axe\x00\x00SGDs"));
    let tokens = find_amount_of_matches(&buffer, 0, 2).unwrap();
    assert_eq!(texts(&tokens), vec![&b"wpn_Axe\x00\x00SGDs"[..]]);
    assert_eq!(tokens[0].index, 5);
}

#[test]
fn no_tokens_behind_the_end_of_the_buffer() {
    assert!(find_amount_of_matches(b"wpn_AxeSGDs", 12, 3).unwrap().is_empty());
    assert!(find_amount_of_matches(b"wpn_AxeSGDs", 11, 3).unwrap().is_empty());
    assert!(find_amount_of_matches(b"", 0, 3).unwrap().is_empty());
}

#[test]
fn matches_that_cannot_be_found_end_the_run() {
    let buffer = b"..wpn_AxeSGDs..";
    let matches: Vec<Vec<u8>> =
        vec![b"wpn_AxeSGDs".to_vec(), b"wpn_SawSGDs".to_vec(), b"wpn_AxeSGDs".to_vec()];
    let tokens = collect_tokens(buffer, 0, 5, &matches);
    assert_eq!(tokens.len(), 1);
    assert_eq!(tokens[0].index, 2);
}
