//! The analysis of a whole save: skills, unlockable items and the rows of
//! the inventory, in that order, and the trace of the stages that were passed.
//!
//! A stage that fails ends the analysis: there is no partial result.

use crate::chunks::{
    get_index_for_inventory_items, inventory_start, lemma_inventory_start_is_offset,
};
use crate::codec::{gzip_decode, gzip_decoded, gzip_encode, gzip_encoded};
use crate::error::SaveError;
use crate::formatting::{decimal_string, decimal_text};
use crate::inventory::{
    get_all_items, lemma_rows_lie_in, rows_from, rows_lie_in, rows_result_view, RowsOutcome,
};
use crate::logger::ConsoleLogger;
use crate::skills::{lemma_skills_of_has_base_skill, load_skills, skills_lie_in, skills_of};
use crate::struct_data::{
    IdData, IdDataView, InventoryItemRow, InventoryItemRowView, SaveFile, SaveFileView, Skills,
    SkillsView, UnlockableItem, UnlockableItemView,
};
use crate::unlockables::{
    analize_unlockable_items_data, lemma_unlockables_ascend, unlockable_lies_in, unlockables_of,
};
use vstd::prelude::*;
use vstd::string::*;

verus! {

/// The message that is recorded for the skills.
pub open spec fn skills_line(count: nat) -> Seq<char> {
    decimal_text(count) + " Skills got validated"@
}

/// The message that is recorded for the unlockable items.
pub open spec fn unlockables_line(count: nat) -> Seq<char> {
    decimal_text(count) + " Unlockables got validated."@
}

/// The message that is recorded for the rows of the inventory.
pub open spec fn tabs_line(count: nat) -> Seq<char> {
    decimal_text(count) + " Tabs from inventory got validated."@
}

/// What an analysis finds.
pub struct Findings {
    pub skills: SkillsView,
    pub unlockable_items: Seq<UnlockableItemView>,
    pub items: Seq<InventoryItemRowView>,
}

/// How an analysis ends: with its findings or with an error, and with the
/// messages of the stages that were passed.
pub struct Analysis {
    pub trace: Seq<Seq<char>>,
    pub findings: Result<Findings, SaveError>,
}

/// The part of the analysis behind the unlockable items: the start of the
/// inventory and its rows, with a message for the rows at the end.
pub open spec fn inventory_outcome(
    content: Seq<u8>,
    lists: Seq<IdDataView>,
    unlockable_items: Seq<UnlockableItemView>,
) -> RowsOutcome {
    match inventory_start(unlockable_items, content) {
        Err(error) => RowsOutcome { trace: Seq::empty(), rows: Err(error) },
        Ok(start) => {
            let rows = rows_from(content, start, lists);
            match rows.rows {
                Err(error) => rows,
                Ok(items) => RowsOutcome {
                    trace: rows.trace.push(tabs_line(items.len())),
                    rows: Ok(items),
                },
            }
        },
    }
}

/// The analysis behind the unlockable items, with what was found before.
pub open spec fn inventory_analysis(
    content: Seq<u8>,
    lists: Seq<IdDataView>,
    skills: SkillsView,
    unlockable_items: Seq<UnlockableItemView>,
) -> Analysis {
    let outcome = inventory_outcome(content, lists, unlockable_items);
    Analysis {
        trace: outcome.trace,
        findings: match outcome.rows {
            Ok(items) => Ok(Findings { skills, unlockable_items, items }),
            Err(error) => Err(error),
        },
    }
}

/// The analysis of a buffer: the skills, then the unlockable items, then the
/// inventory. Each stage that is passed leaves its message; the first stage
/// that fails ends the analysis with its error.
pub open spec fn analysis(content: Seq<u8>, lists: Seq<IdDataView>) -> Analysis {
    match skills_of(content) {
        Err(error) => Analysis { trace: Seq::empty(), findings: Err(error) },
        Ok(skills) => {
            let first = skills_line(skills.base_skills.len() + skills.legend_skills.len());
            match unlockables_of(content) {
                Err(error) => Analysis { trace: seq![first], findings: Err(error) },
                Ok(unlockable_items) => {
                    let second = unlockables_line(unlockable_items.len());
                    let rest = inventory_analysis(content, lists, skills, unlockable_items);
                    Analysis { trace: seq![first, second] + rest.trace, findings: rest.findings }
                },
            }
        },
    }
}

/// What `load_save_file` returns: the save that the findings make, with the
/// messages that the logger holds at the end.
pub open spec fn loaded(
    path: Seq<char>,
    content: Seq<u8>,
    lists: Seq<IdDataView>,
    logged: Seq<Seq<char>>,
    is_compressed: bool,
) -> Result<SaveFileView, SaveError> {
    match analysis(content, lists).findings {
        Ok(found) => Ok(
            SaveFileView {
                path,
                file_content: content,
                skills: found.skills,
                unlockable_items: found.unlockable_items,
                items: found.items,
                log_history: logged + analysis(content, lists).trace,
                is_compressed,
            },
        ),
        Err(error) => Err(error),
    }
}

/// What `decompress_save` returns.
pub open spec fn decompressed(compressed: Seq<u8>) -> Result<Seq<u8>, SaveError> {
    match gzip_decoded(compressed) {
        Some(content) => Ok(content),
        None => Err(SaveError::NotCompressed),
    }
}

/// What `load_save_file_pc` returns.
pub open spec fn loaded_pc(
    path: Seq<char>,
    compressed: Seq<u8>,
    lists: Seq<IdDataView>,
    logged: Seq<Seq<char>>,
) -> Result<SaveFileView, SaveError> {
    match gzip_decoded(compressed) {
        Some(content) => loaded(path, content, lists, logged, true),
        None => Err(SaveError::NotCompressed),
    }
}

/// What the logger holds behind `load_save_file_pc`.
pub open spec fn trace_pc(compressed: Seq<u8>, lists: Seq<IdDataView>) -> Seq<Seq<char>> {
    match gzip_decoded(compressed) {
        Some(content) => analysis(content, lists).trace,
        None => Seq::empty(),
    }
}

/// The bytes start like a gzip stream.
pub open spec fn has_gzip_magic(content: Seq<u8>) -> bool {
    content.len() >= 2 && content[0] == 0x1F && content[1] == 0x8B
}

/// A result that holds a save, as a mathematical value.
pub open spec fn save_result_view(result: Result<SaveFile, SaveError>) -> Result<
    SaveFileView,
    SaveError,
> {
    match result {
        Ok(save) => Ok(save@),
        Err(error) => Err(error),
    }
}

/// A result that holds bytes, as a mathematical value.
pub open spec fn bytes_result_view(result: Result<Vec<u8>, SaveError>) -> Result<
    Seq<u8>,
    SaveError,
> {
    match result {
        Ok(bytes) => Ok(bytes@),
        Err(error) => Err(error),
    }
}

/// What `export_save_for_pc` returns.
pub open spec fn exported(data: Seq<u8>) -> Result<Seq<u8>, SaveError> {
    match gzip_encoded(data) {
        Some(bytes) => Ok(bytes),
        None => Err(SaveError::CompressionFailed),
    }
}

/// The findings describe the buffer: every record stands in the buffer where
/// its offset says, so that every offset of the findings is one that an edit
/// may be aimed at.
pub open spec fn findings_lie_in(found: Findings, content: Seq<u8>) -> bool {
    &&& skills_lie_in(found.skills.base_skills, content)
    &&& skills_lie_in(found.skills.legend_skills, content)
    &&& forall|k: int|
        0 <= k < found.unlockable_items.len() ==> unlockable_lies_in(
            #[trigger] found.unlockable_items[k],
            content,
        )
    &&& rows_lie_in(found.items, content)
}

/// The records of a save describe its own buffer.
pub open spec fn save_is_consistent(save: SaveFileView) -> bool {
    findings_lie_in(
        Findings {
            skills: save.skills,
            unlockable_items: save.unlockable_items,
            items: save.items,
        },
        save.file_content,
    )
}

/// An analysis never succeeds without a base skill.
pub proof fn lemma_success_has_base_skill(content: Seq<u8>, lists: Seq<IdDataView>)
    ensures
        analysis(content, lists).findings matches Ok(found) ==> found.skills.base_skills.len() > 0,
{
    lemma_skills_of_has_base_skill(content);
}

/// What an analysis finds describes the buffer that was analysed.
pub proof fn lemma_findings_lie_in_buffer(content: Seq<u8>, lists: Seq<IdDataView>)
    ensures
        analysis(content, lists).findings matches Ok(found) ==> findings_lie_in(found, content),
{
    match skills_of(content) {
        Ok(skills) => {
            lemma_skills_of_has_base_skill(content);
            lemma_unlockables_ascend(content);
            match unlockables_of(content) {
                Ok(unlockable_items) => match inventory_start(unlockable_items, content) {
                    Ok(start) => {
                        lemma_inventory_start_is_offset(unlockable_items, content);
                        lemma_rows_lie_in(content, start, lists);
                    },
                    Err(_) => {},
                },
                Err(_) => {},
            }
        },
        Err(_) => {},
    }
}

/// Writes a message that starts with a number.
pub fn counted_message(count: u128, text: &str) -> (line: String)
    ensures
        line@ == decimal_text(count as nat) + text@,
{
    let mut line: String = decimal_string(count);
    line.append(text);
    line
}

/// Runs the part of the analysis behind the unlockable items.
pub fn load_inventory(
    content: &[u8],
    ids: &Vec<IdData>,
    unlockable_items: &Vec<UnlockableItem>,
    logger: &mut ConsoleLogger,
) -> (result: Result<Vec<InventoryItemRow>, SaveError>)
    ensures
        rows_result_view(result) == inventory_outcome(
            content@,
            ids.deep_view(),
            unlockable_items.deep_view(),
        ).rows,
        final(logger)@ == old(logger)@ + inventory_outcome(
            content@,
            ids.deep_view(),
            unlockable_items.deep_view(),
        ).trace,
{
    let ghost seen = logger@;
    assert(unlockable_items.deep_view() =~= unlockable_items@.map_values(
        |item: UnlockableItem| item@,
    ));
    let index_inventory_items: usize = match get_index_for_inventory_items(
        unlockable_items.as_slice(),
        content,
    ) {
        Ok(index) => index,
        Err(error) => {
            assert(seen + Seq::<Seq<char>>::empty() =~= seen);
            return Err(error);
        },
    };
    let ghost rows = rows_from(content@, index_inventory_items as int, ids.deep_view());
    match get_all_items(content, index_inventory_items, ids, logger) {
        Err(error) => Err(error),
        Ok(items) => {
            let line: String = counted_message(
                items.len() as u128,
                " Tabs from inventory got validated.",
            );
            logger.log_message(line.as_str());
            assert(logger@ =~= seen + rows.trace.push(tabs_line(items@.len())));
            Ok(items)
        },
    }
}

/// Analyses a save buffer: finds its skills, its unlockable items and the
/// rows of its inventory, and records a message for each stage that it
/// passes. Success always comes with at least one base skill.
pub fn load_save_file(
    file_path: &str,
    file_content: Vec<u8>,
    ids: Vec<IdData>,
    logger: &mut ConsoleLogger,
    is_compressed: bool,
) -> (result: Result<SaveFile, SaveError>)
    ensures
        save_result_view(result) == loaded(
            file_path@,
            file_content@,
            ids.deep_view(),
            old(logger)@,
            is_compressed,
        ),
        final(logger)@ == old(logger)@ + analysis(file_content@, ids.deep_view()).trace,
        result matches Ok(save) ==> save.skills.base_skills@.len() > 0 && save_is_consistent(
            save@,
        ),
{
    proof {
        lemma_success_has_base_skill(file_content@, ids.deep_view());
        lemma_findings_lie_in_buffer(file_content@, ids.deep_view());
    }
    let ghost seen = logger@;
    let ghost lists = ids.deep_view();
    let skills: Skills = match load_skills(file_content.as_slice()) {
        Ok(skills) => skills,
        Err(error) => {
            assert(seen + Seq::<Seq<char>>::empty() =~= seen);
            return Err(error);
        },
    };
    let first: String = counted_message(
        skills.base_skills.len() as u128 + skills.legend_skills.len() as u128,
        " Skills got validated",
    );
    logger.log_message(first.as_str());
    let unlockable_items: Vec<UnlockableItem> = match analize_unlockable_items_data(
        file_content.as_slice(),
    ) {
        Ok(items) => items,
        Err(error) => {
            assert(logger@ =~= seen + seq![first@]);
            return Err(error);
        },
    };
    let second: String = counted_message(
        unlockable_items.len() as u128,
        " Unlockables got validated.",
    );
    logger.log_message(second.as_str());
    let ghost rest = inventory_analysis(
        file_content@,
        lists,
        skills@,
        unlockable_items.deep_view(),
    );
    assert(logger@ =~= seen + seq![first@, second@]);
    let items: Vec<InventoryItemRow> = match load_inventory(
        file_content.as_slice(),
        &ids,
        &unlockable_items,
        logger,
    ) {
        Ok(items) => items,
        Err(error) => {
            assert(logger@ =~= seen + (seq![first@, second@] + rest.trace));
            return Err(error);
        },
    };
    assert(logger@ =~= seen + (seq![first@, second@] + rest.trace));
    let log_history: Vec<String> = logger.history();
    Ok(
        SaveFile::new(
            file_path.to_owned(),
            file_content,
            skills,
            unlockable_items,
            items,
            log_history,
            is_compressed,
        ),
    )
}

/// Decompresses the gzip stream of the PC variant of a save.
pub fn decompress_save(compressed: &[u8]) -> (result: Result<Vec<u8>, SaveError>)
    ensures
        bytes_result_view(result) == decompressed(compressed@),
{
    match gzip_decode(compressed) {
        Some(content) => Ok(content),
        None => Err(SaveError::NotCompressed),
    }
}

/// Analyses the PC variant of a save: decompresses the gzip stream and
/// analyses what it held. Bytes that are no gzip stream are an error of
/// their own, apart from a buffer that does not have the layout of a save.
pub fn load_save_file_pc(
    file_path: &str,
    compressed: Vec<u8>,
    ids: Vec<IdData>,
    logger: &mut ConsoleLogger,
) -> (result: Result<SaveFile, SaveError>)
    ensures
        save_result_view(result) == loaded_pc(
            file_path@,
            compressed@,
            ids.deep_view(),
            old(logger)@,
        ),
        final(logger)@ == old(logger)@ + trace_pc(compressed@, ids.deep_view()),
        result matches Ok(save) ==> save.skills.base_skills@.len() > 0 && save_is_consistent(
            save@,
        ),
{
    let ghost seen = logger@;
    match decompress_save(compressed.as_slice()) {
        Ok(file_content) => load_save_file(file_path, file_content, ids, logger, true),
        Err(error) => {
            assert(seen + Seq::<Seq<char>>::empty() =~= seen);
            Err(error)
        },
    }
}

/// Tells whether the bytes start like a gzip stream: with 0x1F 0x8B.
pub fn is_gzip(content: &[u8]) -> (is_compressed: bool)
    ensures
        is_compressed == has_gzip_magic(content@),
{
    content.len() >= 2 && content[0] == 0x1F && content[1] == 0x8B
}

/// Analyses a save in either variant: one that starts like a gzip stream is
/// decompressed first.
pub fn load_save(
    file_path: &str,
    file_content: Vec<u8>,
    ids: Vec<IdData>,
    logger: &mut ConsoleLogger,
) -> (result: Result<SaveFile, SaveError>)
    ensures
        save_result_view(result) == if has_gzip_magic(file_content@) {
            loaded_pc(file_path@, file_content@, ids.deep_view(), old(logger)@)
        } else {
            loaded(file_path@, file_content@, ids.deep_view(), old(logger)@, false)
        },
        final(logger)@ == old(logger)@ + if has_gzip_magic(file_content@) {
            trace_pc(file_content@, ids.deep_view())
        } else {
            analysis(file_content@, ids.deep_view()).trace
        },
        result matches Ok(save) ==> save.skills.base_skills@.len() > 0 && save_is_consistent(
            save@,
        ),
{
    if is_gzip(file_content.as_slice()) {
        load_save_file_pc(file_path, file_content, ids, logger)
    } else {
        load_save_file(file_path, file_content, ids, logger, false)
    }
}

/// Compresses a save buffer for the PC variant.
pub fn export_save_for_pc(data: &Vec<u8>) -> (result: Result<Vec<u8>, SaveError>)
    ensures
        bytes_result_view(result) == exported(data@),
{
    match gzip_encode(data.as_slice()) {
        Some(compressed) => Ok(compressed),
        None => Err(SaveError::CompressionFailed),
    }
}

} // verus!
