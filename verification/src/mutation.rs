//! The mutation engine: edits of a save buffer.
//!
//! Every edit overwrites a fixed number of bytes at an offset that an earlier
//! analysis of the same buffer has reported. No edit changes the length of
//! the buffer, and an edit that would reach beyond its end changes nothing.

use crate::bytes::{
    lemma_u16_le_round_trip, lemma_u32_le_round_trip, u16_le_bytes, u16_to_le, u32_le_bytes,
    u32_to_le, zero_bytes,
};
use crate::chunks::{chunk_at, chunk_lies_in};
use crate::scanner::matches_at;
use crate::skills::{skill_at, skill_lies_in};
use crate::markers::{
    AMOUNT_OFFSET, AMOUNT_WIDTH, CHUNK_WIDTH, DURABILITY_OFFSET, DURABILITY_WIDTH, LEVEL_WIDTH,
    NAME_HEADER_WIDTH, POINTS_WIDTH, SEED_OFFSET, SEED_WIDTH, SGDS_WIDTH, SPACE_OFFSET,
};
use crate::struct_data::{
    InventoryChunk, InventoryChunkView, SaveFile, SaveFileView, SkillItem, SkillItemView, Skills,
    SkillsView, UnlockableItemView,
};
use crate::unlockables::unlockable_lies_in;
use vstd::prelude::*;
use vstd::slice::slice_to_vec;
use vstd::string::*;
use vstd::utf8::encode_utf8;

verus! {

/// The buffer with `value` written over the bytes at `index`; the buffer as
/// it is where the value would reach beyond its end.
pub open spec fn overwritten(content: Seq<u8>, index: int, value: Seq<u8>) -> Seq<u8> {
    if 0 <= index && index + value.len() <= content.len() {
        content.subrange(0, index) + value + content.subrange(
            index + value.len(),
            content.len() as int,
        )
    } else {
        content
    }
}

/// What a field holds that an edit can be aimed at.
#[derive(Clone, Copy, Debug, PartialEq, Eq, Structural)]
pub enum FieldKind {
    SkillPoints,
    ChunkLevel,
    ChunkSeed,
    ChunkAmount,
    ChunkDurability,
}

/// Where a field stands in the buffer that its record was read from: its
/// offset, its width and what it holds. An analysis hands out locations and
/// `overwrite_field` takes them back, so that no caller computes an offset.
#[derive(Clone, Copy, Debug, PartialEq, Eq, Structural)]
pub struct FieldLocation {
    pub offset: usize,
    pub width: usize,
    pub kind: FieldKind,
}

/// The location of the field that stands `distance` bytes behind `base`. An
/// offset that is no machine number is replaced by the largest one: no buffer
/// reaches that far, so that an edit aimed at either changes nothing.
pub open spec fn field_behind(base: int, distance: int, width: int, kind: FieldKind)
    -> FieldLocation {
    FieldLocation {
        offset: if base + distance <= usize::MAX {
            (base + distance) as usize
        } else {
            usize::MAX
        },
        width: width as usize,
        kind,
    }
}

/// The location of the points of a skill: behind its name.
pub open spec fn points_location(skill: SkillItemView) -> FieldLocation {
    field_behind(skill.index, skill.size, POINTS_WIDTH as int, FieldKind::SkillPoints)
}

/// The location of one of the four numbers of a chunk.
pub open spec fn chunk_location(chunk: InventoryChunkView, kind: FieldKind) -> FieldLocation {
    match kind {
        FieldKind::ChunkSeed => field_behind(
            chunk.index,
            SEED_OFFSET as int,
            SEED_WIDTH as int,
            kind,
        ),
        FieldKind::ChunkAmount => field_behind(
            chunk.index,
            AMOUNT_OFFSET as int,
            AMOUNT_WIDTH as int,
            kind,
        ),
        FieldKind::ChunkDurability => field_behind(
            chunk.index,
            DURABILITY_OFFSET as int,
            DURABILITY_WIDTH as int,
            kind,
        ),
        _ => field_behind(chunk.index, 0, LEVEL_WIDTH as int, FieldKind::ChunkLevel),
    }
}

/// What `overwrite_field` returns: the buffer with the value in the field, or
/// the buffer as it is where the value does not have the width of the field.
pub open spec fn field_overwritten(content: Seq<u8>, location: FieldLocation, value: Seq<u8>)
    -> Seq<u8> {
    if value.len() == location.width {
        overwritten(content, location.offset as int, value)
    } else {
        content
    }
}

/// `count` zero bytes.
pub open spec fn zeros(count: int) -> Seq<u8> {
    Seq::new(
        if count >= 0 {
            count as nat
        } else {
            0
        },
        |k: int| 0u8,
    )
}

/// A skill with new points: the name and its place stay.
pub open spec fn skill_with_points(skill: SkillItemView, points: u16) -> SkillItemView {
    SkillItemView { points_data: u16_to_le(points), points_value: points, ..skill }
}

/// What `edit_skill` returns: the buffer with the new points behind the name
/// of the skill, and the list of skills with the edited skill at its place.
pub open spec fn skill_edit(
    skill: SkillItemView,
    place: int,
    is_base_skill: bool,
    points: u16,
    save: SaveFileView,
) -> SaveFileView {
    SaveFileView {
        file_content: overwritten(save.file_content, skill.index + skill.size, u16_to_le(points)),
        skills: if is_base_skill {
            SkillsView {
                base_skills: save.skills.base_skills.update(
                    place,
                    skill_with_points(skill, points),
                ),
                ..save.skills
            }
        } else {
            SkillsView {
                legend_skills: save.skills.legend_skills.update(
                    place,
                    skill_with_points(skill, points),
                ),
                ..save.skills
            }
        },
        ..save
    }
}

/// What `edit_inventory_item_chunk` returns: the four fields of the chunk
/// overwritten, the old name zeroed up to its "SGDs", and the new name
/// written where the old one started.
pub open spec fn item_edit(
    item_index: int,
    new_id: Seq<u8>,
    chunk_index: int,
    item_size: int,
    level: u16,
    seed: u16,
    amount: u32,
    durability: u32,
    content: Seq<u8>,
) -> Seq<u8> {
    let with_level = overwritten(content, chunk_index, u16_to_le(level));
    let with_seed = overwritten(with_level, chunk_index + SEED_OFFSET, u16_to_le(seed));
    let with_amount = overwritten(with_seed, chunk_index + AMOUNT_OFFSET, u32_to_le(amount));
    let with_durability = overwritten(
        with_amount,
        chunk_index + DURABILITY_OFFSET,
        u32_to_le(durability),
    );
    let without_name = overwritten(with_durability, item_index, zeros(item_size - SGDS_WIDTH));
    overwritten(without_name, item_index, new_id)
}

/// A chunk with a new amount.
pub open spec fn chunk_with_amount(chunk: InventoryChunkView, amount: u32) -> InventoryChunkView {
    InventoryChunkView { amount: u32_to_le(amount), amount_value: amount, ..chunk }
}

/// A chunk with a new durability, given as the bit pattern of the number.
pub open spec fn chunk_with_durability(chunk: InventoryChunkView, durability: u32)
    -> InventoryChunkView {
    InventoryChunkView { durability: u32_to_le(durability), durability_bits: durability, ..chunk }
}

/// The buffer with `value` written into every one of the chunks, `offset`
/// bytes behind the start of each, one chunk after the other.
pub open spec fn written_to_all(
    content: Seq<u8>,
    chunks: Seq<InventoryChunkView>,
    offset: int,
    value: Seq<u8>,
) -> Seq<u8>
    decreases chunks.len(),
{
    if chunks.len() == 0 {
        content
    } else {
        overwritten(
            written_to_all(content, chunks.drop_last(), offset, value),
            chunks.last().index + offset,
            value,
        )
    }
}

/// What `remove_inventory_item` returns: zeros over the name of the item and
/// the six bytes in front of it, and zeros over its chunk.
pub open spec fn item_removal(start: int, end: int, chunk_index: int, content: Seq<u8>) -> Seq<u8> {
    overwritten(
        overwritten(content, start - NAME_HEADER_WIDTH, zeros(end - (start - NAME_HEADER_WIDTH))),
        chunk_index,
        zeros(CHUNK_WIDTH as int),
    )
}

/// An edit keeps the length of the buffer and every byte outside the bytes
/// that it is aimed at; inside them the buffer holds the new value.
pub proof fn lemma_overwrite_touches_only_its_bytes(content: Seq<u8>, index: int, value: Seq<u8>)
    ensures
        overwritten(content, index, value).len() == content.len(),
        forall|k: int|
            0 <= k < content.len() && !(index <= k < index + value.len()) ==> overwritten(
                content,
                index,
                value,
            )[k] == content[k],
        0 <= index && index + value.len() <= content.len() ==> overwritten(
            content,
            index,
            value,
        ).subrange(index, index + value.len()) == value,
{
    if 0 <= index && index + value.len() <= content.len() {
        assert(overwritten(content, index, value).subrange(index, index + value.len())
            =~= value);
    }
}

/// An edit that is aimed at the location of a field is the edit at the
/// field's place, also where that place is no machine number.
pub proof fn lemma_field_is_at_its_place(
    content: Seq<u8>,
    base: int,
    distance: int,
    kind: FieldKind,
    value: Seq<u8>,
)
    requires
        0 <= base,
        0 <= distance,
        0 < value.len() <= usize::MAX,
        content.len() <= usize::MAX,
    ensures
        field_overwritten(content, field_behind(base, distance, value.len() as int, kind), value)
            == overwritten(content, base + distance, value),
{
}

/// Writing the same value twice is writing it once.
pub proof fn lemma_overwrite_twice(content: Seq<u8>, index: int, value: Seq<u8>)
    ensures
        overwritten(overwritten(content, index, value), index, value) == overwritten(
            content,
            index,
            value,
        ),
{
    assert(overwritten(overwritten(content, index, value), index, value) =~= overwritten(
        content,
        index,
        value,
    ));
}

/// The skill that is read from the buffer after its points were edited is
/// the skill from before with the new points: its name still stands at its
/// offset, and nothing but the points has changed.
pub proof fn lemma_edited_skill_is_read_back(data: Seq<u8>, name: Seq<u8>, at: int, points: u16)
    requires
        matches_at(data, at, name),
        at + name.len() + POINTS_WIDTH <= data.len(),
    ensures
        matches_at(overwritten(data, at + name.len(), u16_to_le(points)), at, name),
        skill_at(overwritten(data, at + name.len(), u16_to_le(points)), name, at)
            == skill_with_points(skill_at(data, name, at), points),
{
    let value = u16_to_le(points);
    let edited = overwritten(data, at + name.len(), value);
    lemma_u16_le_round_trip(points);
    lemma_overwrite_touches_only_its_bytes(data, at + name.len(), value);
    assert(edited.subrange(at, at + name.len()) =~= data.subrange(at, at + name.len()));
    assert(edited.subrange(at + name.len(), at + name.len() + POINTS_WIDTH) =~= value);
}

/// A skill that describes a buffer, given new points, describes the buffer
/// with those points written behind its name.
pub proof fn lemma_edited_skill_lies_in_edited_buffer(
    skill: SkillItemView,
    content: Seq<u8>,
    points: u16,
)
    requires
        skill_lies_in(skill, content),
    ensures
        skill_lies_in(
            skill_with_points(skill, points),
            overwritten(content, skill.index + skill.size, u16_to_le(points)),
        ),
{
    lemma_edited_skill_is_read_back(content, skill.sgd_data, skill.index, points);
    lemma_u16_le_round_trip(points);
    lemma_overwrite_touches_only_its_bytes(content, skill.index + skill.size, u16_to_le(points));
}

/// A chunk that describes a buffer, given a new amount, describes the buffer
/// with that amount written into its amount field.
pub proof fn lemma_edited_chunk_lies_in_edited_buffer(
    chunk: InventoryChunkView,
    content: Seq<u8>,
    amount: u32,
)
    requires
        chunk_lies_in(chunk, content),
    ensures
        chunk_lies_in(
            chunk_with_amount(chunk, amount),
            overwritten(content, chunk.index + AMOUNT_OFFSET, u32_to_le(amount)),
        ),
{
    lemma_edited_amount_is_read_back(content, chunk.index, amount);
    lemma_u32_le_round_trip(amount);
    lemma_overwrite_touches_only_its_bytes(content, chunk.index + AMOUNT_OFFSET, u32_to_le(amount));
}

/// An edit leaves every stretch of the buffer that it is not aimed at as it
/// was.
pub proof fn lemma_overwrite_keeps_other_stretches(
    content: Seq<u8>,
    index: int,
    value: Seq<u8>,
    from: int,
    to: int,
)
    requires
        0 <= from <= to <= content.len(),
        to <= index || index + value.len() <= from,
    ensures
        overwritten(content, index, value).subrange(from, to) == content.subrange(from, to),
{
    lemma_overwrite_touches_only_its_bytes(content, index, value);
    assert(overwritten(content, index, value).subrange(from, to) =~= content.subrange(from, to));
}

/// A skill that describes a buffer still describes it after an edit that is
/// aimed at other bytes than its name and its points.
pub proof fn lemma_edit_keeps_other_skills(
    skill: SkillItemView,
    content: Seq<u8>,
    index: int,
    value: Seq<u8>,
)
    requires
        skill_lies_in(skill, content),
        skill.index + skill.size + POINTS_WIDTH <= index || index + value.len() <= skill.index,
    ensures
        skill_lies_in(skill, overwritten(content, index, value)),
{
    lemma_overwrite_touches_only_its_bytes(content, index, value);
    lemma_overwrite_keeps_other_stretches(
        content,
        index,
        value,
        skill.index,
        skill.index + skill.size,
    );
    lemma_overwrite_keeps_other_stretches(
        content,
        index,
        value,
        skill.index + skill.size,
        skill.index + skill.size + POINTS_WIDTH,
    );
}

/// A chunk that describes a buffer still describes it after an edit that is
/// aimed at other bytes than its own.
pub proof fn lemma_edit_keeps_other_chunks(
    chunk: InventoryChunkView,
    content: Seq<u8>,
    index: int,
    value: Seq<u8>,
)
    requires
        chunk_lies_in(chunk, content),
        chunk.index + CHUNK_WIDTH <= index || index + value.len() <= chunk.index,
    ensures
        chunk_lies_in(chunk, overwritten(content, index, value)),
{
    let edited = overwritten(content, index, value);
    let at = chunk.index;
    lemma_overwrite_touches_only_its_bytes(content, index, value);
    lemma_overwrite_keeps_other_stretches(content, index, value, at, at + LEVEL_WIDTH);
    lemma_overwrite_keeps_other_stretches(
        content,
        index,
        value,
        at + SEED_OFFSET,
        at + SEED_OFFSET + SEED_WIDTH,
    );
    lemma_overwrite_keeps_other_stretches(
        content,
        index,
        value,
        at + AMOUNT_OFFSET,
        at + AMOUNT_OFFSET + AMOUNT_WIDTH,
    );
    lemma_overwrite_keeps_other_stretches(
        content,
        index,
        value,
        at + DURABILITY_OFFSET,
        at + DURABILITY_OFFSET + DURABILITY_WIDTH,
    );
    lemma_overwrite_keeps_other_stretches(
        content,
        index,
        value,
        at + SPACE_OFFSET,
        at + CHUNK_WIDTH,
    );
}

/// An unlockable item that describes a buffer still describes it after an
/// edit that is aimed at other bytes than its name.
pub proof fn lemma_edit_keeps_unlockables(
    item: UnlockableItemView,
    content: Seq<u8>,
    index: int,
    value: Seq<u8>,
)
    requires
        unlockable_lies_in(item, content),
        item.index + item.size <= index || index + value.len() <= item.index,
    ensures
        unlockable_lies_in(item, overwritten(content, index, value)),
{
    lemma_overwrite_touches_only_its_bytes(content, index, value);
    lemma_overwrite_keeps_other_stretches(
        content,
        index,
        value,
        item.index,
        item.index + item.size,
    );
}

/// The chunk that is read from the buffer after its amount was edited is the
/// chunk from before with the new amount, and nothing else has changed.
pub proof fn lemma_edited_amount_is_read_back(content: Seq<u8>, index: int, amount: u32)
    requires
        0 <= index,
        index + CHUNK_WIDTH <= content.len(),
    ensures
        chunk_at(overwritten(content, index + AMOUNT_OFFSET, u32_to_le(amount)), index)
            == chunk_with_amount(chunk_at(content, index), amount),
{
    let value = u32_to_le(amount);
    let edited = overwritten(content, index + AMOUNT_OFFSET, value);
    lemma_u32_le_round_trip(amount);
    lemma_overwrite_touches_only_its_bytes(content, index + AMOUNT_OFFSET, value);
    assert(edited.subrange(index, index + 2) =~= content.subrange(index, index + 2));
    assert(edited.subrange(index + 2, index + 4) =~= content.subrange(index + 2, index + 4));
    assert(edited.subrange(index + 4, index + 8) =~= value);
    assert(edited.subrange(index + 8, index + 12) =~= content.subrange(index + 8, index + 12));
    assert(edited.subrange(index + 12, index + 37) =~= content.subrange(index + 12, index + 37));
}

/// The chunk that is read from the buffer after its durability was edited is
/// the chunk from before with the new durability.
pub proof fn lemma_edited_durability_is_read_back(content: Seq<u8>, index: int, durability: u32)
    requires
        0 <= index,
        index + CHUNK_WIDTH <= content.len(),
    ensures
        chunk_at(overwritten(content, index + DURABILITY_OFFSET, u32_to_le(durability)), index)
            == chunk_with_durability(chunk_at(content, index), durability),
{
    let value = u32_to_le(durability);
    let edited = overwritten(content, index + DURABILITY_OFFSET, value);
    lemma_u32_le_round_trip(durability);
    lemma_overwrite_touches_only_its_bytes(content, index + DURABILITY_OFFSET, value);
    assert(edited.subrange(index, index + 2) =~= content.subrange(index, index + 2));
    assert(edited.subrange(index + 2, index + 4) =~= content.subrange(index + 2, index + 4));
    assert(edited.subrange(index + 4, index + 8) =~= content.subrange(index + 4, index + 8));
    assert(edited.subrange(index + 8, index + 12) =~= value);
    assert(edited.subrange(index + 12, index + 37) =~= content.subrange(index + 12, index + 37));
}

/// Writing into every chunk keeps the length of the buffer.
pub proof fn lemma_written_to_all_keeps_length(
    content: Seq<u8>,
    chunks: Seq<InventoryChunkView>,
    offset: int,
    value: Seq<u8>,
)
    ensures
        written_to_all(content, chunks, offset, value).len() == content.len(),
    decreases chunks.len(),
{
    if chunks.len() > 0 {
        lemma_written_to_all_keeps_length(content, chunks.drop_last(), offset, value);
    }
}

/// Overwrites the bytes of `content` at `replace_index` with `replace_value`.
/// Changes nothing if the value would reach beyond the end of the buffer.
pub fn replace_content_of_file(
    replace_index: usize,
    replace_value: Vec<u8>,
    content: Vec<u8>,
) -> (edited: Vec<u8>)
    ensures
        edited@ == overwritten(content@, replace_index as int, replace_value@),
        edited@.len() == content@.len(),
        forall|k: int|
            0 <= k < content@.len() && !(replace_index <= k < replace_index + replace_value@.len())
                ==> edited@[k] == content@[k],
{
    let mut content = content;
    let ghost untouched = content@;
    if replace_index <= content.len() && replace_value.len() <= content.len() - replace_index {
        let mut i: usize = 0;
        while i < replace_value.len()
            invariant
                i <= replace_value.len(),
                replace_index + replace_value.len() <= content.len(),
                content@.len() == untouched.len(),
                forall|k: int| 0 <= k < i ==> content@[replace_index + k] == replace_value@[k],
                forall|k: int|
                    0 <= k < content@.len() && !(replace_index <= k < replace_index + i)
                        ==> content@[k] == untouched[k],
            decreases replace_value.len() - i,
        {
            content.set(replace_index + i, replace_value[i]);
            i += 1;
        }
        assert(content@ =~= overwritten(untouched, replace_index as int, replace_value@));
    }
    content
}

/// Overwrites a field with a value of its width. A value of another width
/// changes nothing, and so does a field that reaches beyond the buffer.
pub fn overwrite_field(location: FieldLocation, value: Vec<u8>, content: Vec<u8>) -> (edited: Vec<
    u8,
>)
    ensures
        edited@ == field_overwritten(content@, location, value@),
        edited@.len() == content@.len(),
{
    if value.len() == location.width {
        replace_content_of_file(location.offset, value, content)
    } else {
        content
    }
}

/// The location of the field that stands `distance` bytes behind `base`.
pub fn locate_field(base: usize, distance: usize, width: usize, kind: FieldKind) -> (location:
    FieldLocation)
    ensures
        location == field_behind(base as int, distance as int, width as int, kind),
{
    let offset: usize = match base.checked_add(distance) {
        Some(offset) => offset,
        None => usize::MAX,
    };
    FieldLocation { offset, width, kind }
}

/// The location of the points of a skill.
pub fn points_field(skill: &SkillItem) -> (location: FieldLocation)
    ensures
        location == points_location(skill@),
{
    locate_field(skill.index, skill.size, POINTS_WIDTH, FieldKind::SkillPoints)
}

/// The location of one of the four numbers of a chunk. Asked for the points
/// of a skill, which a chunk does not have, it gives the level.
pub fn chunk_field(chunk: &InventoryChunk, kind: FieldKind) -> (location: FieldLocation)
    ensures
        location == chunk_location(chunk@, kind),
{
    match kind {
        FieldKind::ChunkSeed => locate_field(chunk.index, SEED_OFFSET, SEED_WIDTH, kind),
        FieldKind::ChunkAmount => locate_field(chunk.index, AMOUNT_OFFSET, AMOUNT_WIDTH, kind),
        FieldKind::ChunkDurability => locate_field(
            chunk.index,
            DURABILITY_OFFSET,
            DURABILITY_WIDTH,
            kind,
        ),
        _ => locate_field(chunk.index, 0, LEVEL_WIDTH, FieldKind::ChunkLevel),
    }
}

/// Overwrites the bytes of `content` that lie `offset` bytes behind `base`.
/// Changes nothing if the value would reach beyond the end of the buffer.
pub fn replace_behind(base: usize, offset: usize, value: Vec<u8>, content: Vec<u8>) -> (edited: Vec<
    u8,
>)
    ensures
        edited@ == overwritten(content@, base + offset, value@),
{
    assert(content@.len() <= usize::MAX) by {
        assert(content@.len() == content.len());
    }
    match base.checked_add(offset) {
        Some(index) => replace_content_of_file(index, value, content),
        None => content,
    }
}

/// Gives a skill new points: writes them into the buffer, two bytes behind
/// the name of the skill, and puts the edited skill at its place in the list
/// of base skills or of legend skills.
pub fn edit_skill(
    current_skill: SkillItem,
    current_skill_index: usize,
    is_base_skill: bool,
    new_value: u16,
    save_file: SaveFile,
) -> (edited: SaveFile)
    requires
        is_base_skill ==> current_skill_index < save_file.skills.base_skills@.len(),
        !is_base_skill ==> current_skill_index < save_file.skills.legend_skills@.len(),
    ensures
        edited@ == skill_edit(
            current_skill@,
            current_skill_index as int,
            is_base_skill,
            new_value,
            save_file@,
        ),
        edited@.file_content.len() == save_file@.file_content.len(),
        skill_lies_in(current_skill@, save_file@.file_content) ==> skill_lies_in(
            skill_with_points(current_skill@, new_value),
            edited@.file_content,
        ),
{
    proof {
        if skill_lies_in(current_skill@, save_file@.file_content) {
            lemma_edited_skill_lies_in_edited_buffer(
                current_skill@,
                save_file@.file_content,
                new_value,
            );
        }
    }
    let new_skill: SkillItem = SkillItem::new(
        current_skill.name,
        current_skill.index,
        current_skill.size,
        current_skill.sgd_data,
        u16_le_bytes(new_value),
    );
    proof {
        lemma_u16_le_round_trip(new_value);
    }
    let SaveFile {
        path,
        file_content,
        skills,
        unlockable_items,
        items,
        log_history,
        is_compressed,
    } = save_file;
    let Skills { base_skills, legend_skills } = skills;
    let mut base_skills = base_skills;
    let mut legend_skills = legend_skills;
    proof {
        assert(file_content@.len() == file_content.len());
        lemma_field_is_at_its_place(
            file_content@,
            new_skill.index as int,
            new_skill.size as int,
            FieldKind::SkillPoints,
            new_skill.points_data@,
        );
    }
    let new_content: Vec<u8> = overwrite_field(
        points_field(&new_skill),
        slice_to_vec(new_skill.points_data.as_slice()),
        file_content,
    );
    let ghost base_before = base_skills.deep_view();
    let ghost legend_before = legend_skills.deep_view();
    if is_base_skill {
        base_skills.set(current_skill_index, new_skill);
        assert(base_skills.deep_view() =~= base_before.update(
            current_skill_index as int,
            skill_with_points(current_skill@, new_value),
        ));
    } else {
        legend_skills.set(current_skill_index, new_skill);
        assert(legend_skills.deep_view() =~= legend_before.update(
            current_skill_index as int,
            skill_with_points(current_skill@, new_value),
        ));
    }
    SaveFile::new(
        path,
        new_content,
        Skills::new(base_skills, legend_skills),
        unlockable_items,
        items,
        log_history,
        is_compressed,
    )
}

/// Edits an inventory item: writes the level, the seed, the amount and the
/// durability into its chunk, blanks the old name up to its "SGDs" and writes
/// the new name where the old one started. The durability is given as the
/// bit pattern of the number.
pub fn edit_inventory_item_chunk(
    current_item_index: usize,
    new_id: String,
    current_item_chunk_index: usize,
    current_item_size: usize,
    new_level: u16,
    new_seed: u16,
    new_amount: u32,
    new_durability: u32,
    save_file_content: Vec<u8>,
) -> (edited: Vec<u8>)
    requires
        current_item_size >= SGDS_WIDTH,
    ensures
        edited@ == item_edit(
            current_item_index as int,
            encode_utf8(new_id@),
            current_item_chunk_index as int,
            current_item_size as int,
            new_level,
            new_seed,
            new_amount,
            new_durability,
            save_file_content@,
        ),
        edited@.len() == save_file_content@.len(),
{
    let blank: Vec<u8> = zero_bytes(current_item_size - SGDS_WIDTH);
    assert(blank@ =~= zeros(current_item_size - SGDS_WIDTH));
    let new_id_bytes: Vec<u8> = slice_to_vec(new_id.as_str().as_bytes());
    let mut content: Vec<u8> = save_file_content;
    content = replace_content_of_file(current_item_chunk_index, u16_le_bytes(new_level), content);
    content = replace_behind(
        current_item_chunk_index,
        SEED_OFFSET,
        u16_le_bytes(new_seed),
        content,
    );
    content = replace_behind(
        current_item_chunk_index,
        AMOUNT_OFFSET,
        u32_le_bytes(new_amount),
        content,
    );
    content = replace_behind(
        current_item_chunk_index,
        DURABILITY_OFFSET,
        u32_le_bytes(new_durability),
        content,
    );
    content = replace_content_of_file(current_item_index, blank, content);
    content = replace_content_of_file(current_item_index, new_id_bytes, content);
    content
}

/// Writes `value` into every one of the chunks, `offset` bytes behind the
/// start of each.
pub fn write_to_all(
    item_chunks: &Vec<InventoryChunk>,
    offset: usize,
    value: &Vec<u8>,
    save_file_content: Vec<u8>,
) -> (edited: Vec<u8>)
    ensures
        edited@ == written_to_all(
            save_file_content@,
            item_chunks.deep_view(),
            offset as int,
            value@,
        ),
        edited@.len() == save_file_content@.len(),
{
    let ghost untouched = save_file_content@;
    let ghost chunks = item_chunks.deep_view();
    let mut content: Vec<u8> = save_file_content;
    let mut i: usize = 0;
    assert(chunks.take(0) =~= Seq::<InventoryChunkView>::empty());
    while i < item_chunks.len()
        invariant
            i <= item_chunks.len(),
            chunks == item_chunks.deep_view(),
            content@ == written_to_all(untouched, chunks.take(i as int), offset as int, value@),
        decreases item_chunks.len() - i,
    {
        proof {
            let next = chunks.take(i + 1);
            assert(next.drop_last() =~= chunks.take(i as int));
            assert(next.last() == item_chunks@[i as int]@);
        }
        content = replace_behind(
            item_chunks[i].index,
            offset,
            slice_to_vec(value.as_slice()),
            content,
        );
        i += 1;
    }
    proof {
        assert(chunks.take(item_chunks.len() as int) =~= chunks);
        lemma_written_to_all_keeps_length(untouched, chunks, offset as int, value@);
    }
    content
}

/// Gives every one of the chunks the durability `value`, in the records and
/// in the buffer. The durability is given as the bit pattern of the number.
pub fn change_items_durability(
    item_chunks: Vec<InventoryChunk>,
    value: u32,
    save_file_content: Vec<u8>,
) -> (edited: (Vec<InventoryChunk>, Vec<u8>))
    ensures
        edited.0.deep_view() == item_chunks.deep_view().map_values(
            |chunk: InventoryChunkView| chunk_with_durability(chunk, value),
        ),
        edited.1@ == written_to_all(
            save_file_content@,
            item_chunks.deep_view(),
            DURABILITY_OFFSET as int,
            u32_to_le(value),
        ),
        edited.1@.len() == save_file_content@.len(),
        forall|k: int|
            0 <= k < item_chunks@.len() && (#[trigger] item_chunks@[k])@.wf()
                ==> edited.0@[k]@.wf(),
{
    proof {
        lemma_u32_le_round_trip(value);
    }
    let bytes: Vec<u8> = u32_le_bytes(value);
    let content: Vec<u8> = write_to_all(&item_chunks, DURABILITY_OFFSET, &bytes, save_file_content);
    let ghost before = item_chunks.deep_view();
    let mut new_item_chunks: Vec<InventoryChunk> = Vec::new();
    let mut i: usize = 0;
    while i < item_chunks.len()
        invariant
            i <= item_chunks.len(),
            before == item_chunks.deep_view(),
            bytes@ == u32_to_le(value),
            new_item_chunks@.len() == i,
            forall|k: int|
                0 <= k < i ==> (#[trigger] new_item_chunks@[k])@ == chunk_with_durability(
                    before[k],
                    value,
                ),
        decreases item_chunks.len() - i,
    {
        let chunk: &InventoryChunk = &item_chunks[i];
        assert(before[i as int] == chunk@);
        new_item_chunks.push(
            InventoryChunk {
                level: slice_to_vec(chunk.level.as_slice()),
                seed: slice_to_vec(chunk.seed.as_slice()),
                amount: slice_to_vec(chunk.amount.as_slice()),
                durability: slice_to_vec(bytes.as_slice()),
                space: slice_to_vec(chunk.space.as_slice()),
                index: chunk.index,
                level_value: chunk.level_value,
                seed_value: chunk.seed_value,
                amount_value: chunk.amount_value,
                durability_bits: value,
            },
        );
        i += 1;
    }
    assert(new_item_chunks.deep_view() =~= before.map_values(
        |chunk: InventoryChunkView| chunk_with_durability(chunk, value),
    ));
    (new_item_chunks, content)
}

/// Gives every one of the chunks the amount `value`, in the records and in
/// the buffer.
pub fn change_items_amount(
    item_chunks: Vec<InventoryChunk>,
    value: u32,
    save_file_content: Vec<u8>,
) -> (edited: (Vec<InventoryChunk>, Vec<u8>))
    ensures
        edited.0.deep_view() == item_chunks.deep_view().map_values(
            |chunk: InventoryChunkView| chunk_with_amount(chunk, value),
        ),
        edited.1@ == written_to_all(
            save_file_content@,
            item_chunks.deep_view(),
            AMOUNT_OFFSET as int,
            u32_to_le(value),
        ),
        edited.1@.len() == save_file_content@.len(),
        forall|k: int|
            0 <= k < item_chunks@.len() && (#[trigger] item_chunks@[k])@.wf()
                ==> edited.0@[k]@.wf(),
{
    proof {
        lemma_u32_le_round_trip(value);
    }
    let bytes: Vec<u8> = u32_le_bytes(value);
    let content: Vec<u8> = write_to_all(&item_chunks, AMOUNT_OFFSET, &bytes, save_file_content);
    let ghost before = item_chunks.deep_view();
    let mut new_item_chunks: Vec<InventoryChunk> = Vec::new();
    let mut i: usize = 0;
    while i < item_chunks.len()
        invariant
            i <= item_chunks.len(),
            before == item_chunks.deep_view(),
            bytes@ == u32_to_le(value),
            new_item_chunks@.len() == i,
            forall|k: int|
                0 <= k < i ==> (#[trigger] new_item_chunks@[k])@ == chunk_with_amount(
                    before[k],
                    value,
                ),
        decreases item_chunks.len() - i,
    {
        let chunk: &InventoryChunk = &item_chunks[i];
        assert(before[i as int] == chunk@);
        new_item_chunks.push(
            InventoryChunk {
                level: slice_to_vec(chunk.level.as_slice()),
                seed: slice_to_vec(chunk.seed.as_slice()),
                amount: slice_to_vec(bytes.as_slice()),
                durability: slice_to_vec(chunk.durability.as_slice()),
                space: slice_to_vec(chunk.space.as_slice()),
                index: chunk.index,
                level_value: chunk.level_value,
                seed_value: chunk.seed_value,
                amount_value: value,
                durability_bits: chunk.durability_bits,
            },
        );
        i += 1;
    }
    assert(new_item_chunks.deep_view() =~= before.map_values(
        |chunk: InventoryChunkView| chunk_with_amount(chunk, value),
    ));
    (new_item_chunks, content)
}

/// Removes an item from the inventory: blanks its name, from six bytes in
/// front of `start_index` up to `end_index`, and blanks the 37 bytes of its
/// chunk.
pub fn remove_inventory_item(
    start_index: usize,
    end_index: usize,
    chunk_index: usize,
    save_file_content: Vec<u8>,
) -> (edited: Vec<u8>)
    requires
        NAME_HEADER_WIDTH <= start_index,
        start_index - NAME_HEADER_WIDTH <= end_index,
    ensures
        edited@ == item_removal(
            start_index as int,
            end_index as int,
            chunk_index as int,
            save_file_content@,
        ),
        edited@.len() == save_file_content@.len(),
{
    let start: usize = start_index - NAME_HEADER_WIDTH;
    let size: usize = end_index - start;
    let blank: Vec<u8> = zero_bytes(size);
    let blank_chunk: Vec<u8> = zero_bytes(CHUNK_WIDTH);
    assert(blank@ =~= zeros(end_index - (start_index - NAME_HEADER_WIDTH)));
    assert(blank_chunk@ =~= zeros(CHUNK_WIDTH as int));
    let content: Vec<u8> = replace_content_of_file(start, blank, save_file_content);
    replace_content_of_file(chunk_index, blank_chunk, content)
}

} // verus!
