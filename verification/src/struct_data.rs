//! The records that the analysis produces, each with its mathematical view.
//!
//! Every record is a read-only picture of some bytes of one buffer. Offsets
//! (`index`) count from the start of that buffer and are what the editing
//! functions take as their arguments.

use crate::bytes::{read_u16_le, read_u32_le, u16_from_le, u32_from_le};
use crate::formatting::{format_bytes_to_string, hex_text};
use crate::markers::{AMOUNT_WIDTH, DURABILITY_WIDTH, LEVEL_WIDTH, POINTS_WIDTH, SEED_WIDTH};
use vstd::prelude::*;
use vstd::slice::slice_to_vec;

verus! {

/// The three kinds of unlockable item.
#[derive(Clone, Copy, Debug, PartialEq, Eq, Structural)]
pub enum ItemTypeEnum {
    Craftplan,
    ToolSkin,
    Collectable,
}

/// One list of known item names: the stem of the file it came from and the
/// names, one for each line of the file.
#[derive(Debug, Clone)]
pub struct IdData {
    pub filename: String,
    pub ids: Vec<String>,
}

/// A list of known names as a mathematical value.
pub struct IdDataView {
    pub filename: Seq<char>,
    pub ids: Seq<Seq<char>>,
}

impl View for IdData {
    type V = IdDataView;

    open spec fn view(&self) -> IdDataView {
        IdDataView { filename: self.filename@, ids: self.ids.deep_view() }
    }
}

impl DeepView for IdData {
    type V = IdDataView;

    open spec fn deep_view(&self) -> IdDataView {
        self.view()
    }
}

impl IdData {
    /// Makes a list of the stem of its file and its names.
    pub fn new(filename: String, ids: Vec<String>) -> (data: Self)
        ensures
            data@ == (IdDataView { filename: filename@, ids: ids.deep_view() }),
    {
        IdData { filename, ids }
    }
}

/// The names of the items that the game no longer lets a player drop or share.
#[derive(Debug, Clone)]
pub struct PatchedItems {
    pub not_dropable: Vec<String>,
    pub not_shareable: Vec<String>,
}

/// The patched items as a mathematical value.
pub struct PatchedItemsView {
    pub not_dropable: Seq<Seq<char>>,
    pub not_shareable: Seq<Seq<char>>,
}

impl View for PatchedItems {
    type V = PatchedItemsView;

    open spec fn view(&self) -> PatchedItemsView {
        PatchedItemsView {
            not_dropable: self.not_dropable.deep_view(),
            not_shareable: self.not_shareable.deep_view(),
        }
    }
}

impl PatchedItems {
    /// Makes the two lists of patched items.
    pub fn new(not_dropable: Vec<String>, not_shareable: Vec<String>) -> (items: Self)
        ensures
            items@ == (PatchedItemsView {
                not_dropable: not_dropable.deep_view(),
                not_shareable: not_shareable.deep_view(),
            }),
    {
        PatchedItems { not_dropable, not_shareable }
    }
}

/// The fixed record in front of an item's "SGDs": level, seed, amount,
/// durability and an opaque tail, with the numbers that the first four hold.
/// `index` is the offset of the level field. The durability is kept as the
/// bit pattern of a 32-bit IEEE-754 number.
#[derive(Debug, Clone)]
pub struct InventoryChunk {
    pub level: Vec<u8>,
    pub seed: Vec<u8>,
    pub amount: Vec<u8>,
    pub durability: Vec<u8>,
    pub space: Vec<u8>,
    pub index: usize,
    pub level_value: u16,
    pub seed_value: u16,
    pub amount_value: u32,
    pub durability_bits: u32,
}

/// An inventory chunk as a mathematical value.
pub struct InventoryChunkView {
    pub level: Seq<u8>,
    pub seed: Seq<u8>,
    pub amount: Seq<u8>,
    pub durability: Seq<u8>,
    pub space: Seq<u8>,
    pub index: int,
    pub level_value: u16,
    pub seed_value: u16,
    pub amount_value: u32,
    pub durability_bits: u32,
}

impl InventoryChunkView {
    /// The chunk that the five byte fields make.
    pub open spec fn of_fields(
        level: Seq<u8>,
        seed: Seq<u8>,
        amount: Seq<u8>,
        durability: Seq<u8>,
        space: Seq<u8>,
        index: int,
    ) -> InventoryChunkView {
        InventoryChunkView {
            level,
            seed,
            amount,
            durability,
            space,
            index,
            level_value: u16_from_le(level),
            seed_value: u16_from_le(seed),
            amount_value: u32_from_le(amount),
            durability_bits: u32_from_le(durability),
        }
    }

    /// The numeric fields have their widths, and each number is what its
    /// bytes hold.
    pub open spec fn wf(self) -> bool {
        &&& self.level.len() == LEVEL_WIDTH
        &&& self.seed.len() == SEED_WIDTH
        &&& self.amount.len() == AMOUNT_WIDTH
        &&& self.durability.len() == DURABILITY_WIDTH
        &&& self.level_value == u16_from_le(self.level)
        &&& self.seed_value == u16_from_le(self.seed)
        &&& self.amount_value == u32_from_le(self.amount)
        &&& self.durability_bits == u32_from_le(self.durability)
    }
}

impl View for InventoryChunk {
    type V = InventoryChunkView;

    open spec fn view(&self) -> InventoryChunkView {
        InventoryChunkView {
            level: self.level@,
            seed: self.seed@,
            amount: self.amount@,
            durability: self.durability@,
            space: self.space@,
            index: self.index as int,
            level_value: self.level_value,
            seed_value: self.seed_value,
            amount_value: self.amount_value,
            durability_bits: self.durability_bits,
        }
    }
}

impl DeepView for InventoryChunk {
    type V = InventoryChunkView;

    open spec fn deep_view(&self) -> InventoryChunkView {
        self.view()
    }
}

impl InventoryChunk {
    /// Makes a chunk of its five byte fields and decodes the four numbers.
    pub fn new(
        level: Vec<u8>,
        seed: Vec<u8>,
        amount: Vec<u8>,
        durability: Vec<u8>,
        space: Vec<u8>,
        index: usize,
    ) -> (chunk: Self)
        requires
            level@.len() == LEVEL_WIDTH,
            seed@.len() == SEED_WIDTH,
            amount@.len() == AMOUNT_WIDTH,
            durability@.len() == DURABILITY_WIDTH,
        ensures
            chunk@ == InventoryChunkView::of_fields(
                level@,
                seed@,
                amount@,
                durability@,
                space@,
                index as int,
            ),
            chunk@.wf(),
    {
        let level_value: u16 = read_u16_le(level.as_slice());
        let seed_value: u16 = read_u16_le(seed.as_slice());
        let amount_value: u32 = read_u32_le(amount.as_slice());
        let durability_bits: u32 = read_u32_le(durability.as_slice());
        InventoryChunk {
            level,
            seed,
            amount,
            durability,
            space,
            index,
            level_value,
            seed_value,
            amount_value,
            durability_bits,
        }
    }

    /// A second chunk with the same contents.
    pub fn duplicate(&self) -> (chunk: Self)
        ensures
            chunk@ == self@,
    {
        InventoryChunk {
            level: slice_to_vec(self.level.as_slice()),
            seed: slice_to_vec(self.seed.as_slice()),
            amount: slice_to_vec(self.amount.as_slice()),
            durability: slice_to_vec(self.durability.as_slice()),
            space: slice_to_vec(self.space.as_slice()),
            index: self.index,
            level_value: self.level_value,
            seed_value: self.seed_value,
            amount_value: self.amount_value,
            durability_bits: self.durability_bits,
        }
    }
}

/// An attachment of an inventory item: a weapon mod or a cosmetic override.
/// `data_content` holds the bytes from the start of its name on, and
/// `data_string` their hexadecimal dump.
#[derive(Debug, Clone)]
pub struct Mod {
    pub name: String,
    pub index: usize,
    pub data_content: Vec<u8>,
    pub data_string: String,
}

/// An attachment as a mathematical value.
pub struct ModView {
    pub name: Seq<char>,
    pub index: int,
    pub data_content: Seq<u8>,
    pub data_string: Seq<char>,
}

impl View for Mod {
    type V = ModView;

    open spec fn view(&self) -> ModView {
        ModView {
            name: self.name@,
            index: self.index as int,
            data_content: self.data_content@,
            data_string: self.data_string@,
        }
    }
}

impl DeepView for Mod {
    type V = ModView;

    open spec fn deep_view(&self) -> ModView {
        self.view()
    }
}

impl Mod {
    /// Makes an attachment and dumps its payload.
    pub fn new(name: String, index: usize, data_content: Vec<u8>) -> (attachment: Self)
        ensures
            attachment@ == (ModView {
                name: name@,
                index: index as int,
                data_content: data_content@,
                data_string: hex_text(data_content@),
            }),
    {
        let data_string: String = format_bytes_to_string(slice_to_vec(data_content.as_slice()));
        Mod { name, index, data_content, data_string }
    }
}

/// One item of the inventory: its name, where the name token stands and how
/// long it is, the bytes of the token, the chunk that belongs to the item and
/// the attachments that follow it.
#[derive(Debug, Clone)]
pub struct InventoryItem {
    pub name: String,
    pub index: usize,
    pub size: usize,
    pub sgd_data: Vec<u8>,
    pub chunk_data: InventoryChunk,
    pub mod_data: Vec<Mod>,
}

/// An inventory item as a mathematical value.
pub struct InventoryItemView {
    pub name: Seq<char>,
    pub index: int,
    pub size: int,
    pub sgd_data: Seq<u8>,
    pub chunk_data: InventoryChunkView,
    pub mod_data: Seq<ModView>,
}

impl View for InventoryItem {
    type V = InventoryItemView;

    open spec fn view(&self) -> InventoryItemView {
        InventoryItemView {
            name: self.name@,
            index: self.index as int,
            size: self.size as int,
            sgd_data: self.sgd_data@,
            chunk_data: self.chunk_data@,
            mod_data: self.mod_data.deep_view(),
        }
    }
}

impl DeepView for InventoryItem {
    type V = InventoryItemView;

    open spec fn deep_view(&self) -> InventoryItemView {
        self.view()
    }
}

impl InventoryItem {
    /// Makes an item of its parts.
    pub fn new(
        name: String,
        index: usize,
        size: usize,
        sgd_data: Vec<u8>,
        chunk_data: InventoryChunk,
        mod_data: Vec<Mod>,
    ) -> (item: Self)
        ensures
            item@ == (InventoryItemView {
                name: name@,
                index: index as int,
                size: size as int,
                sgd_data: sgd_data@,
                chunk_data: chunk_data@,
                mod_data: mod_data.deep_view(),
            }),
    {
        InventoryItem { name, index, size, sgd_data, chunk_data, mod_data }
    }
}

/// One tab of the inventory: its name and its items.
#[derive(Debug, Clone)]
pub struct InventoryItemRow {
    pub name: String,
    pub inventory_items: Vec<InventoryItem>,
}

/// A row of the inventory as a mathematical value.
pub struct InventoryItemRowView {
    pub name: Seq<char>,
    pub inventory_items: Seq<InventoryItemView>,
}

impl View for InventoryItemRow {
    type V = InventoryItemRowView;

    open spec fn view(&self) -> InventoryItemRowView {
        InventoryItemRowView {
            name: self.name@,
            inventory_items: self.inventory_items.deep_view(),
        }
    }
}

impl DeepView for InventoryItemRow {
    type V = InventoryItemRowView;

    open spec fn deep_view(&self) -> InventoryItemRowView {
        self.view()
    }
}

impl InventoryItemRow {
    /// Makes a row of its name and its items.
    pub fn new(name: String, inventory_items: Vec<InventoryItem>) -> (row: Self)
        ensures
            row@ == (InventoryItemRowView {
                name: name@,
                inventory_items: inventory_items.deep_view(),
            }),
    {
        InventoryItemRow { name, inventory_items }
    }
}

/// One skill: its name, where the name stands and how long it is, the bytes
/// of the name, the two bytes behind it and the number of points they hold.
#[derive(Debug, Clone)]
pub struct SkillItem {
    pub name: String,
    pub index: usize,
    pub size: usize,
    pub sgd_data: Vec<u8>,
    pub points_data: Vec<u8>,
    pub points_value: u16,
}

/// A skill as a mathematical value.
pub struct SkillItemView {
    pub name: Seq<char>,
    pub index: int,
    pub size: int,
    pub sgd_data: Seq<u8>,
    pub points_data: Seq<u8>,
    pub points_value: u16,
}

impl View for SkillItem {
    type V = SkillItemView;

    open spec fn view(&self) -> SkillItemView {
        SkillItemView {
            name: self.name@,
            index: self.index as int,
            size: self.size as int,
            sgd_data: self.sgd_data@,
            points_data: self.points_data@,
            points_value: self.points_value,
        }
    }
}

impl DeepView for SkillItem {
    type V = SkillItemView;

    open spec fn deep_view(&self) -> SkillItemView {
        self.view()
    }
}

impl SkillItem {
    /// Makes a skill and decodes its points.
    pub fn new(
        name: String,
        index: usize,
        size: usize,
        sgd_data: Vec<u8>,
        points_data: Vec<u8>,
    ) -> (skill: Self)
        requires
            points_data@.len() == POINTS_WIDTH,
        ensures
            skill@ == (SkillItemView {
                name: name@,
                index: index as int,
                size: size as int,
                sgd_data: sgd_data@,
                points_data: points_data@,
                points_value: u16_from_le(points_data@),
            }),
    {
        let points_value: u16 = read_u16_le(points_data.as_slice());
        SkillItem { name, index, size, sgd_data, points_data, points_value }
    }
}

/// The skills of a character, in the order in which the buffer holds them.
#[derive(Debug, Clone)]
pub struct Skills {
    pub base_skills: Vec<SkillItem>,
    pub legend_skills: Vec<SkillItem>,
}

/// The skills of a character as a mathematical value.
pub struct SkillsView {
    pub base_skills: Seq<SkillItemView>,
    pub legend_skills: Seq<SkillItemView>,
}

impl View for Skills {
    type V = SkillsView;

    open spec fn view(&self) -> SkillsView {
        SkillsView {
            base_skills: self.base_skills.deep_view(),
            legend_skills: self.legend_skills.deep_view(),
        }
    }
}

impl Skills {
    /// Makes the skills of the two lists.
    pub fn new(base_skills: Vec<SkillItem>, legend_skills: Vec<SkillItem>) -> (skills: Self)
        ensures
            skills@ == (SkillsView {
                base_skills: base_skills.deep_view(),
                legend_skills: legend_skills.deep_view(),
            }),
    {
        Skills { base_skills, legend_skills }
    }
}

/// One unlockable item: its name, where it stands, how many bytes its name
/// has and those bytes.
#[derive(Debug, Clone)]
pub struct UnlockableItem {
    pub name: String,
    pub index: usize,
    pub size: usize,
    pub sgd_data: Vec<u8>,
}

/// An unlockable item as a mathematical value.
pub struct UnlockableItemView {
    pub name: Seq<char>,
    pub index: int,
    pub size: int,
    pub sgd_data: Seq<u8>,
}

impl View for UnlockableItem {
    type V = UnlockableItemView;

    open spec fn view(&self) -> UnlockableItemView {
        UnlockableItemView {
            name: self.name@,
            index: self.index as int,
            size: self.size as int,
            sgd_data: self.sgd_data@,
        }
    }
}

impl DeepView for UnlockableItem {
    type V = UnlockableItemView;

    open spec fn deep_view(&self) -> UnlockableItemView {
        self.view()
    }
}

impl UnlockableItem {
    /// Makes an unlockable item of its parts.
    pub fn new(name: String, index: usize, size: usize, sgd_data: Vec<u8>) -> (item: Self)
        ensures
            item@ == (UnlockableItemView {
                name: name@,
                index: index as int,
                size: size as int,
                sgd_data: sgd_data@,
            }),
    {
        UnlockableItem { name, index, size, sgd_data }
    }
}

/// Everything that one analysis of a buffer yields, with the buffer itself.
#[derive(Debug, Clone)]
pub struct SaveFile {
    pub path: String,
    pub file_content: Vec<u8>,
    pub skills: Skills,
    pub unlockable_items: Vec<UnlockableItem>,
    pub items: Vec<InventoryItemRow>,
    pub log_history: Vec<String>,
    pub is_compressed: bool,
}

/// An analysed save as a mathematical value.
pub struct SaveFileView {
    pub path: Seq<char>,
    pub file_content: Seq<u8>,
    pub skills: SkillsView,
    pub unlockable_items: Seq<UnlockableItemView>,
    pub items: Seq<InventoryItemRowView>,
    pub log_history: Seq<Seq<char>>,
    pub is_compressed: bool,
}

impl View for SaveFile {
    type V = SaveFileView;

    open spec fn view(&self) -> SaveFileView {
        SaveFileView {
            path: self.path@,
            file_content: self.file_content@,
            skills: self.skills@,
            unlockable_items: self.unlockable_items.deep_view(),
            items: self.items.deep_view(),
            log_history: self.log_history.deep_view(),
            is_compressed: self.is_compressed,
        }
    }
}

impl SaveFile {
    /// Makes a save of its buffer and of what an analysis found in it.
    pub fn new(
        path: String,
        file_content: Vec<u8>,
        skills: Skills,
        unlockable_items: Vec<UnlockableItem>,
        items: Vec<InventoryItemRow>,
        log_history: Vec<String>,
        is_compressed: bool,
    ) -> (save: Self)
        ensures
            save@ == (SaveFileView {
                path: path@,
                file_content: file_content@,
                skills: skills@,
                unlockable_items: unlockable_items.deep_view(),
                items: items.deep_view(),
                log_history: log_history.deep_view(),
                is_compressed,
            }),
    {
        SaveFile { path, file_content, skills, unlockable_items, items, log_history, is_compressed }
    }
}

/// A save that players share: what its owner says about it, and its analysis.
#[derive(Debug, Clone)]
pub struct OutpostSave {
    pub name: String,
    pub owner: String,
    pub description: String,
    pub features: Vec<String>,
    pub version: String,
    pub save_file: SaveFile,
}

/// A shared save as a mathematical value.
pub struct OutpostSaveView {
    pub name: Seq<char>,
    pub owner: Seq<char>,
    pub description: Seq<char>,
    pub features: Seq<Seq<char>>,
    pub version: Seq<char>,
    pub save_file: SaveFileView,
}

impl View for OutpostSave {
    type V = OutpostSaveView;

    open spec fn view(&self) -> OutpostSaveView {
        OutpostSaveView {
            name: self.name@,
            owner: self.owner@,
            description: self.description@,
            features: self.features.deep_view(),
            version: self.version@,
            save_file: self.save_file@,
        }
    }
}

impl OutpostSave {
    /// Makes a shared save of its description and its analysis.
    pub fn new(
        name: String,
        owner: String,
        description: String,
        features: Vec<String>,
        version: String,
        save_file: SaveFile,
    ) -> (outpost: Self)
        ensures
            outpost@ == (OutpostSaveView {
                name: name@,
                owner: owner@,
                description: description@,
                features: features.deep_view(),
                version: version@,
                save_file: save_file@,
            }),
    {
        OutpostSave { name, owner, description, features, version, save_file }
    }
}

} // verus!
