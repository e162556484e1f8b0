use savegame_editor::error::{ErrorKind, SaveError};
use savegame_editor::mutation::edit_skill;
use savegame_editor::skills::{
    analize_skill_data, find_base_skill_matches, find_legend_skill_matches, keep_base_skills,
    load_skills,
};
use savegame_editor::struct_data::{SaveFile, SkillItem, Skills};

const END_MARKER: &[u8] = b"ProgressionState::EElementVersion";

fn skill_buffer(skills: &[(&str, u16)]) -> Vec<u8> {
    let mut buffer: Vec<u8> = vec![0x00, 0x02];
    buffer.extend_from_slice(b"Skills::SkillInstance");
    buffer.extend_from_slice(&[0x00, 0x03, 0x00]);
    for (name, points) in skills {
        buffer.extend_from_slice(&[0x09, 0x00]);
        buffer.extend_from_slice(name.as_bytes());
        buffer.extend_from_slice(&points.to_le_bytes());
        buffer.extend_from_slice(&[0x00, 0x00, 0xFF]);
    }
    buffer.extend_from_slice(END_MARKER);
    buffer.extend_from_slice(&[0x00, 0x00]);
    buffer
}

#[test]
fn one_skill_with_five_points() {
    let mut buffer: Vec<u8> = vec![0x00];
    buffer.extend_from_slice(b"Skills::SkillInstance");
    buffer.extend_from_slice(&[0x00]);
    buffer.extend_from_slice(b"foo_skill");
    buffer.extend_from_slice(&[0x05, 0x00]);
    buffer.extend_from_slice(END_MARKER);
    let skills = load_skills(&buffer).unwrap();
    assert_eq!(skills.base_skills.len(), 1);
    assert_eq!(skills.legend_skills.len(), 0);
    let skill = &skills.base_skills[0];
    assert_eq!(skill.name, "foo_skill");
    assert_eq!(skill.points_value, 5);
    assert_eq!(skill.index, 23);
    assert_eq!(skill.size, 9);
    assert_eq!(skill.sgd_data, b"foo_skill".to_vec());
    assert_eq!(skill.points_data, vec![0x05, 0x00]);
}

#[test]
fn base_and_legend_skills_come_in_file_order() {
    let buffer = skill_buffer(&[
        ("Dash_skill", 1),
        ("LP_Health_skill", 250),
        ("Power_Attack_skill", 300),
        ("LP_Stamina_skill", 65535),
    ]);
    let skills = load_skills(&buffer).unwrap();
    let base: Vec<(&str, u16)> =
        skills.base_skills.iter().map(|s| (s.name.as_str(), s.points_value)).collect();
    let legend: Vec<(&str, u16)> =
        skills.legend_skills.iter().map(|s| (s.name.as_str(), s.points_value)).collect();
    assert_eq!(base, vec![("Dash_skill", 1), ("Power_Attack_skill", 300)]);
    assert_eq!(legend, vec![("LP_Health_skill", 250), ("LP_Stamina_skill", 65535)]);
    for skill in skills.base_skills.iter().chain(skills.legend_skills.iter()) {
        assert_eq!(&buffer[skill.index..skill.index + skill.size], skill.name.as_bytes());
        assert_eq!(
            &buffer[skill.index + skill.size..skill.index + skill.size + 2],
            &skill.points_data[..]
        );
    }
    assert!(skills.base_skills[0].index < skills.base_skills[1].index);
}

#[test]
fn missing_markers_are_a_structure_mismatch() {
    assert_eq!(load_skills(b"no markers here").unwrap_err(), SaveError::StructureMismatch);
    let mut only_start: Vec<u8> = vec![0x00];
    only_start.extend_from_slice(b"Skills::SkillInstance");
    only_start.extend_from_slice(b"foo_skill");
    only_start.extend_from_slice(&[0x05, 0x00]);
    assert_eq!(load_skills(&only_start).unwrap_err(), SaveError::StructureMismatch);
    assert_eq!(load_skills(b"").unwrap_err(), SaveError::StructureMismatch);
    assert_eq!(SaveError::StructureMismatch.kind(), ErrorKind::StructuralMismatch);
}

#[test]
fn opening_marker_at_offset_zero_counts_as_absent() {
    let mut buffer: Vec<u8> = Vec::new();
    buffer.extend_from_slice(b"Skills::SkillInstance");
    buffer.extend_from_slice(&[0x00]);
    buffer.extend_from_slice(b"foo_skill");
    buffer.extend_from_slice(&[0x05, 0x00]);
    buffer.extend_from_slice(END_MARKER);
    assert_eq!(load_skills(&buffer).unwrap_err(), SaveError::StructureMismatch);
}

#[test]
fn section_without_base_skill_is_an_error() {
    let buffer = skill_buffer(&[]);
    assert_eq!(load_skills(&buffer).unwrap_err(), SaveError::NoSkillValidated);
    let only_legend = skill_buffer(&[("LP_Health_skill", 3)]);
    assert_eq!(load_skills(&only_legend).unwrap_err(), SaveError::NoSkillValidated);
    assert_eq!(SaveError::NoSkillValidated.kind(), ErrorKind::EmptyExtraction);
}

#[test]
fn skill_without_points_is_a_structure_mismatch() {
    let names: Vec<Vec<u8>> = vec![b"foo_skill".to_vec()];
    let none: Vec<Vec<u8>> = Vec::new();
    assert_eq!(
        analize_skill_data(b"..foo_skill\x05", &names, &none).unwrap_err(),
        SaveError::StructureMismatch
    );
    assert_eq!(
        analize_skill_data(b"..bar_skill\x05\x00", &names, &none).unwrap_err(),
        SaveError::StructureMismatch
    );
    let found = analize_skill_data(b"..foo_skill\x05\x01", &names, &none).unwrap();
    assert_eq!(found.base_skills[0].points_value, 261);
    assert_eq!(found.base_skills[0].index, 2);
}

#[test]
fn a_name_is_searched_from_where_the_one_before_was_found() {
    let names: Vec<Vec<u8>> = vec![b"b_skill".to_vec(), b"a_skill".to_vec()];
    let none: Vec<Vec<u8>> = Vec::new();
    let data = b"a_skill\x01\x00b_skill\x02\x00a_skill\x03\x00";
    let found = analize_skill_data(data, &names, &none).unwrap();
    assert_eq!(found.base_skills[0].index, 9);
    assert_eq!(found.base_skills[1].index, 18);
    assert_eq!(found.base_skills[1].points_value, 3);
}

#[test]
fn skill_patterns_match_word_characters_before_the_suffix() {
    let region = b"\x00Dash_skill\x01\x00 LP_Health_skill\x02 x_skillet _skill ab-cd_skill";
    let base = find_base_skill_matches(region).unwrap();
    assert_eq!(base, vec![b"Dash_skill".to_vec(), b"x_skill".to_vec(), b"cd_skill".to_vec()]);
    let legend = find_legend_skill_matches(region).unwrap();
    assert_eq!(legend, vec![b"LP_Health_skill".to_vec()]);
}

#[test]
fn legend_skills_are_kept_out_of_the_base_skills() {
    let matches: Vec<Vec<u8>> = vec![
        b"Dash_skill".to_vec(),
        b"LP_Health_skill".to_vec(),
        b"xLP_y_skill".to_vec(),
        b"lp_low_skill".to_vec(),
    ];
    assert_eq!(
        keep_base_skills(&matches),
        vec![b"Dash_skill".to_vec(), b"lp_low_skill".to_vec()]
    );
}

#[test]
fn edited_points_are_parsed_back_at_the_same_offset() {
    let buffer = skill_buffer(&[("Dash_skill", 1), ("LP_Health_skill", 250), ("Jump_skill", 2)]);
    let skills = load_skills(&buffer).unwrap();
    let before: SkillItem = skills.base_skills[1].clone();
    let save = SaveFile::new(
        "a.sav".to_string(),
        buffer.clone(),
        skills,
        Vec::new(),
        Vec::new(),
        Vec::new(),
        false,
    );
    let edited = edit_skill(before.clone(), 1, true, 10, save);
    assert_eq!(edited.skills.base_skills[1].points_value, 10);
    assert_eq!(edited.skills.base_skills[1].points_data, vec![10, 0]);
    assert_eq!(edited.skills.base_skills[1].name, "Jump_skill");
    assert_eq!(edited.skills.base_skills[0].points_value, 1);
    assert_eq!(edited.file_content.len(), buffer.len());

    let again: Skills = load_skills(&edited.file_content).unwrap();
    assert_eq!(again.base_skills.len(), 2);
    assert_eq!(again.base_skills[1].points_value, 10);
    assert_eq!(again.base_skills[1].index, before.index);
    assert_eq!(again.base_skills[1].name, before.name);
    assert_eq!(again.base_skills[1].sgd_data, before.sgd_data);
    assert_eq!(again.base_skills[0].points_value, 1);
    assert_eq!(again.legend_skills[0].points_value, 250);

    let changed: Vec<usize> =
        (0..buffer.len()).filter(|&k| buffer[k] != edited.file_content[k]).collect();
    assert_eq!(changed, vec![before.index + before.size]);
}

#[test]
fn editing_a_legend_skill_leaves_the_base_skills() {
    let buffer = skill_buffer(&[("Dash_skill", 1), ("LP_Health_skill", 250)]);
    let skills = load_skills(&buffer).unwrap();
    let legend = skills.legend_skills[0].clone();
    let save = SaveFile::new(
        "a.sav".to_string(),
        buffer,
        skills,
        Vec::new(),
        Vec::new(),
        vec!["kept".to_string()],
        true,
    );
    let edited = edit_skill(legend.clone(), 0, false, 0x0102, save);
    assert_eq!(edited.skills.legend_skills[0].points_value, 0x0102);
    assert_eq!(edited.skills.base_skills[0].points_value, 1);
    assert_eq!(
        &edited.file_content[legend.index + legend.size..legend.index + legend.size + 2],
        &[0x02, 0x01]
    );
    assert_eq!(edited.path, "a.sav");
    assert_eq!(edited.log_history, vec!["kept".to_string()]);
    assert!(edited.is_compressed);
}
