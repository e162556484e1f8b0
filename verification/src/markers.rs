//! The literals of the save format: section markers, name prefixes, search
//! patterns and the fixed distances between records.
//!
//! None of them can be derived: they were read off save files of one version
//! of the game's serializer.

use vstd::prelude::*;
use vstd::string::*;

verus! {

/// Width of the points behind a skill name.
pub const POINTS_WIDTH: usize = 2;

/// Width of the level field of an inventory chunk.
pub const LEVEL_WIDTH: usize = 2;

/// Width of the seed field of an inventory chunk.
pub const SEED_WIDTH: usize = 2;

/// Width of the amount field of an inventory chunk.
pub const AMOUNT_WIDTH: usize = 4;

/// Width of the durability field of an inventory chunk.
pub const DURABILITY_WIDTH: usize = 4;

/// Width of the opaque tail of an inventory chunk.
pub const SPACE_WIDTH: usize = 25;

/// Distance from the start of a chunk to its seed field.
pub const SEED_OFFSET: usize = LEVEL_WIDTH;

/// Distance from the start of a chunk to its amount field.
pub const AMOUNT_OFFSET: usize = SEED_OFFSET + SEED_WIDTH;

/// Distance from the start of a chunk to its durability field.
pub const DURABILITY_OFFSET: usize = AMOUNT_OFFSET + AMOUNT_WIDTH;

/// Distance from the start of a chunk to its opaque tail.
pub const SPACE_OFFSET: usize = DURABILITY_OFFSET + DURABILITY_WIDTH;

/// Width of a whole inventory chunk: the five fields together.
pub const CHUNK_WIDTH: usize = SPACE_OFFSET + SPACE_WIDTH;

/// Length of the text "SGDs" that closes a chunk and every name token.
pub const SGDS_WIDTH: usize = 4;

/// Distance from the start of a chunk to the NUL in front of its "SGDs": the
/// last byte of the chunk.
pub const MARKER_TO_CHUNK: usize = CHUNK_WIDTH - 1;

/// Jump from the end of the last unlockable item to the first chunk where no
/// chunk marker can be found.
pub const UNLOCKABLES_TO_INVENTORY: usize = 76;

/// Jump from the last name of one inventory row to the chunks of the next.
pub const ROW_TO_ROW: usize = 75;

/// Number of payload bytes kept for an attached mod.
pub const MOD_PAYLOAD_WIDTH: usize = 30;

/// Largest gap between two outfit names that still makes the second a
/// cosmetic override of the first.
pub const TRANSMOG_GAP: usize = 30;

/// Number of bytes in front of an item name that belong to its record.
pub const NAME_HEADER_WIDTH: usize = 6;

/// Number of mod slots after which a bare "SGDs" is one more slot and not the
/// end of the run.
pub const MOD_SLOTS: usize = 4;

/// Opens the skill section.
pub open spec fn skills_start_marker() -> Seq<u8> {
    "Skills::SkillInstance".spec_bytes()
}

/// Closes the skill section.
pub open spec fn skills_end_marker() -> Seq<u8> {
    "ProgressionState::EElementVersion".spec_bytes()
}

/// Stands in front of the unlockable items: "Main", a small header, "Other".
pub open spec fn inventory_root_marker() -> Seq<u8> {
    seq![
        0x4Du8, 0x61u8, 0x69u8, 0x6Eu8, 0x01u8, 0x00u8, 0x00u8, 0x00u8, 0x05u8, 0x00u8, 0x4Fu8,
        0x74u8, 0x68u8, 0x65u8, 0x72u8,
    ]
}

/// A NUL and "SGDs": what closes an inventory chunk.
pub open spec fn chunk_marker() -> Seq<u8> {
    seq![0u8, 83u8, 71u8, 68u8, 115u8]
}

/// The text that closes a chunk and every name token.
pub open spec fn sgds() -> Seq<u8> {
    "SGDs".spec_bytes()
}

/// Opens a section that no longer belongs to the inventory.
pub open spec fn savegame_marker() -> Seq<u8> {
    "Savegame".spec_bytes()
}

/// Prefix of the names of collectables.
pub open spec fn collectable_prefix() -> Seq<u8> {
    "Collectable_".spec_bytes()
}

/// Prefix of the names of craft plans.
pub open spec fn craftplan_prefix() -> Seq<u8> {
    "Craftplan_".spec_bytes()
}

/// Prefix of the names of tool skins.
pub open spec fn tool_skin_prefix() -> Seq<u8> {
    "ToolSkin_".spec_bytes()
}

/// Marks a skill name as a legend skill.
pub open spec fn legend_prefix() -> Seq<u8> {
    "LP_".spec_bytes()
}

/// Pattern of a skill name: word characters that end in "_skill".
pub open spec fn base_skill_pattern() -> Seq<char> {
    "([A-Za-z0-9_]+_skill)"@
}

/// Pattern of a legend skill name.
pub open spec fn legend_skill_pattern() -> Seq<char> {
    "(LP_[A-Za-z0-9_]+_skill)"@
}

/// Pattern of what closes a chunk: "SGDs", with the word characters that may
/// stand directly in front of it.
pub open spec fn chunk_pattern() -> Seq<char> {
    "[A-Za-z0-9_]*SGDs"@
}

/// Pattern of a name token: segments of at least four word characters, each
/// of which NUL bytes may follow, and "SGDs" at the end.
pub open spec fn token_pattern() -> Seq<char> {
    "(?:[a-zA-Z0-9_]{4,}(?:\\x00*))*SGDs"@
}

/// Opens the skill section.
pub fn skills_start() -> (marker: &'static [u8])
    ensures
        marker@ == skills_start_marker(),
{
    "Skills::SkillInstance".as_bytes()
}

/// Closes the skill section.
pub fn skills_end() -> (marker: &'static [u8])
    ensures
        marker@ == skills_end_marker(),
{
    "ProgressionState::EElementVersion".as_bytes()
}

/// Stands in front of the unlockable items.
pub fn inventory_root() -> (marker: Vec<u8>)
    ensures
        marker@ == inventory_root_marker(),
{
    let marker: Vec<u8> = vec![
        0x4Du8, 0x61u8, 0x69u8, 0x6Eu8, 0x01u8, 0x00u8, 0x00u8, 0x00u8, 0x05u8, 0x00u8, 0x4Fu8,
        0x74u8, 0x68u8, 0x65u8, 0x72u8,
    ];
    assert(marker@ =~= inventory_root_marker());
    marker
}

/// A NUL and "SGDs".
pub fn chunk_end() -> (marker: Vec<u8>)
    ensures
        marker@ == chunk_marker(),
{
    let marker: Vec<u8> = vec![0u8, 83u8, 71u8, 68u8, 115u8];
    assert(marker@ =~= chunk_marker());
    marker
}

/// The text "SGDs".
pub fn sgds_text() -> (marker: &'static [u8])
    ensures
        marker@ == sgds(),
{
    "SGDs".as_bytes()
}

/// The text "Savegame".
pub fn savegame() -> (marker: &'static [u8])
    ensures
        marker@ == savegame_marker(),
{
    "Savegame".as_bytes()
}

/// The pattern of a skill name.
pub fn base_skill_pattern_text() -> (pattern: &'static str)
    ensures
        pattern@ == base_skill_pattern(),
{
    "([A-Za-z0-9_]+_skill)"
}

/// The pattern of a legend skill name.
pub fn legend_skill_pattern_text() -> (pattern: &'static str)
    ensures
        pattern@ == legend_skill_pattern(),
{
    "(LP_[A-Za-z0-9_]+_skill)"
}

/// The pattern of what closes a chunk.
pub fn chunk_pattern_text() -> (pattern: &'static str)
    ensures
        pattern@ == chunk_pattern(),
{
    "[A-Za-z0-9_]*SGDs"
}

/// The pattern of a name token.
pub fn token_pattern_text() -> (pattern: &'static str)
    ensures
        pattern@ == token_pattern(),
{
    "(?:[a-zA-Z0-9_]{4,}(?:\\x00*))*SGDs"
}

/// "SGDs" is four bytes long.
pub proof fn lemma_sgds_width()
    ensures
        sgds().len() == SGDS_WIDTH,
{
    reveal_strlit("SGDs");
    assert(is_ascii("SGDs"));
    is_ascii_spec_bytes("SGDs");
}

} // verus!
