//! Where the inventory starts, and the runs of fixed-width chunks in it.
//!
//! An inventory chunk is 37 bytes wide and is closed by the text "SGDs". A
//! run of chunks is found through the "SGDs" that close its members.

use crate::bytes::{copy_range, same_bytes};
use crate::error::SaveError;
use crate::markers::{
    chunk_end, chunk_marker, chunk_pattern, chunk_pattern_text, lemma_sgds_width, savegame,
    savegame_marker, sgds, sgds_text, AMOUNT_OFFSET, AMOUNT_WIDTH, CHUNK_WIDTH, DURABILITY_OFFSET,
    DURABILITY_WIDTH, LEVEL_WIDTH, MARKER_TO_CHUNK, SEED_OFFSET, SEED_WIDTH, SGDS_WIDTH,
    SPACE_OFFSET, UNLOCKABLES_TO_INVENTORY,
};
use crate::scanner::{
    as_index, find_first, first_match, lemma_first_match_is_lowest, matches_at,
};
use crate::struct_data::{
    InventoryChunk, InventoryChunkView, UnlockableItem, UnlockableItemView,
};
use crate::text::{find_pattern_matches, pattern_matches};
use vstd::prelude::*;
use vstd::slice::slice_subrange;

verus! {

/// The bytes of `content` from `start` up to `end`, both cut down to the
/// buffer.
pub open spec fn bounded_region(content: Seq<u8>, start: int, end: int) -> Seq<u8> {
    let stop = if end < content.len() {
        end
    } else {
        content.len() as int
    };
    let from = if start < stop {
        start
    } else {
        stop
    };
    content.subrange(from, stop)
}

/// The text "Savegame" stands wholly between `start` and `end`: what lies
/// behind `start` then belongs to another section. A region that ends before
/// it starts counts as crossing the boundary.
pub open spec fn savegame_between(content: Seq<u8>, start: int, end: int) -> bool {
    start > end || first_match(bounded_region(content, start, end), 0, savegame_marker())
        is Some
}

/// A chunk marker (a NUL and "SGDs") at `at` that closes a chunk: there is
/// room for the chunk in front of it, and the two bytes in front of it are
/// not both zero.
pub open spec fn valid_chunk_marker(content: Seq<u8>, at: int) -> bool {
    &&& matches_at(content, at, chunk_marker())
    &&& at >= MARKER_TO_CHUNK
    &&& !(content[at - 2] == 0 && content[at - 1] == 0)
}

/// The lowest offset at or after `start` that holds a valid chunk marker.
pub open spec fn first_valid_marker(content: Seq<u8>, start: int) -> Option<int>
    decreases content.len() - start,
{
    if start < 0 || start >= content.len() {
        None
    } else if valid_chunk_marker(content, start) {
        Some(start)
    } else {
        first_valid_marker(content, start + 1)
    }
}

/// The first valid chunk marker at or after `start`, unless "Savegame" stands
/// between `start` and it.
pub open spec fn first_sgd_index(content: Seq<u8>, start: int) -> Option<int> {
    match first_valid_marker(content, start) {
        Some(at) => if savegame_between(content, start, at) {
            None
        } else {
            Some(at)
        },
        None => None,
    }
}

/// Where the chunks of the first inventory row start: 36 bytes in front of
/// the first valid chunk marker behind the last unlockable item, or, where
/// there is no such marker, 76 bytes behind that item.
pub open spec fn inventory_start(unlockables: Seq<UnlockableItemView>, content: Seq<u8>) -> Result<
    int,
    SaveError,
> {
    if unlockables.len() == 0 {
        Err(SaveError::InventoryStartMissing)
    } else {
        let from = unlockables.last().index + unlockables.last().size;
        if from + UNLOCKABLES_TO_INVENTORY > usize::MAX {
            Err(SaveError::InventoryStartMissing)
        } else {
            match first_sgd_index(content, from) {
                Some(at) => Ok(at - MARKER_TO_CHUNK),
                None => Ok(from + UNLOCKABLES_TO_INVENTORY),
            }
        }
    }
}

/// The chunk whose level field starts at `index`.
pub open spec fn chunk_at(content: Seq<u8>, index: int) -> InventoryChunkView {
    InventoryChunkView::of_fields(
        content.subrange(index, index + LEVEL_WIDTH),
        content.subrange(index + SEED_OFFSET, index + SEED_OFFSET + SEED_WIDTH),
        content.subrange(index + AMOUNT_OFFSET, index + AMOUNT_OFFSET + AMOUNT_WIDTH),
        content.subrange(index + DURABILITY_OFFSET, index + DURABILITY_OFFSET + DURABILITY_WIDTH),
        content.subrange(index + SPACE_OFFSET, index + CHUNK_WIDTH),
        index,
    )
}

/// The chunk describes the buffer: it is what the 37 bytes at its offset
/// hold.
pub open spec fn chunk_lies_in(chunk: InventoryChunkView, content: Seq<u8>) -> bool {
    &&& 0 <= chunk.index
    &&& chunk.index + CHUNK_WIDTH <= content.len()
    &&& chunk == chunk_at(content, chunk.index)
    &&& chunk.wf()
}

/// Every one of the chunks describes the buffer.
pub open spec fn chunks_lie_in(chunks: Seq<InventoryChunkView>, content: Seq<u8>) -> bool {
    forall|k: int| 0 <= k < chunks.len() ==> chunk_lies_in(#[trigger] chunks[k], content)
}

/// The chunks that the matches `texts` close, looked up one after the other
/// from `cursor` on. The run ends at the first match that is not exactly
/// "SGDs", that cannot be found from the cursor on, or that has no room for a
/// chunk in front of it.
pub open spec fn chunk_run(content: Seq<u8>, cursor: int, texts: Seq<Seq<u8>>) -> Seq<
    InventoryChunkView,
>
    decreases texts.len(),
{
    if texts.len() == 0 || texts[0] != sgds() {
        Seq::empty()
    } else {
        match first_match(content, cursor, sgds()) {
            Some(at) => if at < CHUNK_WIDTH {
                Seq::empty()
            } else {
                seq![chunk_at(content, at - CHUNK_WIDTH)] + chunk_run(
                    content,
                    at + SGDS_WIDTH,
                    texts.drop_first(),
                )
            },
            None => Seq::empty(),
        }
    }
}

/// The run of chunks that starts at `start`, or nothing if "Savegame" stands
/// between `start` and the "SGDs" of the first chunk.
pub open spec fn chunks_from(content: Seq<u8>, start: int, texts: Seq<Seq<u8>>) -> Seq<
    InventoryChunkView,
> {
    let run = chunk_run(content, start, texts);
    if run.len() > 0 && savegame_between(content, start, run[0].index + CHUNK_WIDTH) {
        Seq::empty()
    } else {
        run
    }
}

/// What `find_all_inventory_chunks` makes of the matches of the chunk
/// pattern: the run, and the offset just behind the "SGDs" of its last chunk.
pub open spec fn chunks_and_end(content: Seq<u8>, start: int, texts: Seq<Seq<u8>>) -> Result<
    (Seq<InventoryChunkView>, int),
    SaveError,
> {
    let run = chunks_from(content, start, texts);
    if run.len() == 0 {
        Err(SaveError::NoChunksFound)
    } else {
        Ok((run, run.last().index + CHUNK_WIDTH + SGDS_WIDTH))
    }
}

/// What `find_all_inventory_chunks` returns.
pub open spec fn inventory_chunks(content: Seq<u8>, start: int) -> Result<
    (Seq<InventoryChunkView>, int),
    SaveError,
> {
    if start > content.len() {
        Err(SaveError::StartIndexOutOfRange)
    } else {
        match pattern_matches(chunk_pattern(), content.skip(start)) {
            Ok(texts) => chunks_and_end(content, start, texts),
            Err(error) => Err(error),
        }
    }
}

/// A result of chunks and an offset, as mathematical values.
pub open spec fn chunks_result_view(result: Result<(Vec<InventoryChunk>, usize), SaveError>)
    -> Result<(Seq<InventoryChunkView>, int), SaveError> {
    match result {
        Ok((chunks, end)) => Ok((chunks.deep_view(), end as int)),
        Err(error) => Err(error),
    }
}

/// A result that holds an offset, as a mathematical value.
pub open spec fn index_result_view(result: Result<usize, SaveError>) -> Result<int, SaveError> {
    match result {
        Ok(index) => Ok(index as int),
        Err(error) => Err(error),
    }
}

/// The first valid marker, where there is one, lies at or behind the start
/// of the search.
pub proof fn lemma_first_valid_marker_is_behind(content: Seq<u8>, start: int)
    requires
        0 <= start,
    ensures
        first_valid_marker(content, start) matches Some(at) ==> start <= at
            && valid_chunk_marker(content, at),
    decreases content.len() - start,
{
    if start < content.len() && !valid_chunk_marker(content, start) {
        lemma_first_valid_marker_is_behind(content, start + 1);
    }
}

/// The inventory starts at an offset that is not negative.
pub proof fn lemma_inventory_start_is_offset(
    unlockables: Seq<UnlockableItemView>,
    content: Seq<u8>,
)
    requires
        unlockables.len() > 0 ==> 0 <= unlockables.last().index && 0 <= unlockables.last().size,
    ensures
        inventory_start(unlockables, content) matches Ok(start) ==> 0 <= start,
{
    if unlockables.len() > 0 {
        lemma_first_valid_marker_is_behind(
            content,
            unlockables.last().index + unlockables.last().size,
        );
    }
}

/// A stretch without valid markers does not change what the search finds.
pub proof fn lemma_first_valid_marker_skips(content: Seq<u8>, start: int, later: int)
    requires
        0 <= start <= later,
        forall|at: int| start <= at < later ==> !valid_chunk_marker(content, at),
    ensures
        first_valid_marker(content, start) == first_valid_marker(content, later),
    decreases later - start,
{
    if start < later {
        assert(!valid_chunk_marker(content, start));
        if start < content.len() {
            lemma_first_valid_marker_skips(content, start + 1, later);
        }
    }
}

/// No chunk marker starts within the four bytes behind the NUL of another:
/// those bytes are the letters of "SGDs".
pub proof fn lemma_markers_do_not_overlap(content: Seq<u8>, at: int, inside: int)
    requires
        matches_at(content, at, chunk_marker()),
        at < inside <= at + SGDS_WIDTH,
    ensures
        !matches_at(content, inside, chunk_marker()),
{
    let here = content.subrange(at, at + 5);
    assert(here[inside - at] == content[inside]);
    if matches_at(content, inside, chunk_marker()) {
        let there = content.subrange(inside, inside + 5);
        assert(there[0] == content[inside]);
    }
}

/// Every chunk of a run lies inside the buffer behind `cursor`, is
/// well-formed, and the run ends behind `cursor`.
pub proof fn lemma_chunk_run_bounds(content: Seq<u8>, cursor: int, texts: Seq<Seq<u8>>)
    requires
        0 <= cursor,
    ensures
        forall|k: int|
            0 <= k < chunk_run(content, cursor, texts).len() ==> {
                &&& 0 <= (#[trigger] chunk_run(content, cursor, texts)[k]).index
                &&& cursor <= chunk_run(content, cursor, texts)[k].index + CHUNK_WIDTH
                &&& chunk_run(content, cursor, texts)[k].index + CHUNK_WIDTH + SGDS_WIDTH
                    <= content.len()
                &&& chunk_run(content, cursor, texts)[k].wf()
                &&& chunk_run(content, cursor, texts)[k] == chunk_at(
                    content,
                    chunk_run(content, cursor, texts)[k].index,
                )
            },
    decreases texts.len(),
{
    let run = chunk_run(content, cursor, texts);
    if texts.len() == 0 || texts[0] != sgds() {
    } else {
        lemma_first_match_is_lowest(content, cursor, sgds());
        lemma_sgds_width();
        match first_match(content, cursor, sgds()) {
            Some(at) => {
                if at >= CHUNK_WIDTH {
                    let rest = chunk_run(content, at + SGDS_WIDTH, texts.drop_first());
                    lemma_chunk_run_bounds(content, at + SGDS_WIDTH, texts.drop_first());
                    assert(run =~= seq![chunk_at(content, at - CHUNK_WIDTH)] + rest);
                    assert forall|k: int| 0 <= k < run.len() implies {
                        &&& 0 <= (#[trigger] run[k]).index
                        &&& cursor <= run[k].index + CHUNK_WIDTH
                        &&& run[k].index + CHUNK_WIDTH + SGDS_WIDTH <= content.len()
                        &&& run[k].wf()
                        &&& run[k] == chunk_at(content, run[k].index)
                    } by {
                        if k > 0 {
                            assert(run[k] == rest[k - 1]);
                        }
                    }
                }
            },
            None => {},
        }
    }
}

/// The chunks of a run describe the buffer, and the run ends inside the
/// buffer behind the offset at which it started.
pub proof fn lemma_chunks_lie_in(content: Seq<u8>, start: int, texts: Seq<Seq<u8>>)
    requires
        0 <= start,
    ensures
        chunks_lie_in(chunks_from(content, start, texts), content),
        chunks_and_end(content, start, texts) matches Ok((chunks, end)) ==> {
            &&& chunks.len() > 0
            &&& chunks_lie_in(chunks, content)
            &&& start < end <= content.len()
        },
{
    let run = chunk_run(content, start, texts);
    lemma_chunk_run_bounds(content, start, texts);
    assert forall|k: int| 0 <= k < run.len() implies chunk_lies_in(#[trigger] run[k], content) by {
        assert(run[k].index + CHUNK_WIDTH + SGDS_WIDTH <= content.len());
    }
    if run.len() > 0 {
        assert(start <= run[run.len() - 1].index + CHUNK_WIDTH);
    }
}

/// Tells whether the text "Savegame" stands between two offsets.
pub fn is_savegame_between(content: &[u8], start_index: usize, end_index: usize) -> (between: bool)
    ensures
        between == savegame_between(content@, start_index as int, end_index as int),
{
    if start_index > end_index {
        return true;
    }
    let stop: usize = if end_index < content.len() {
        end_index
    } else {
        content.len()
    };
    let from: usize = if start_index < stop {
        start_index
    } else {
        stop
    };
    let region: &[u8] = slice_subrange(content, from, stop);
    find_first(region, 0, savegame(), true).is_some()
}

/// Finds the first valid chunk marker at or after `start_index`. A marker
/// whose two preceding bytes are both zero lies inside other data and is
/// passed over. A marker that lies behind the text "Savegame" belongs to
/// another section: the search then finds nothing.
pub fn find_first_sgd_index(content: &[u8], start_index: usize) -> (found: Option<usize>)
    ensures
        as_index(found) == first_sgd_index(content@, start_index as int),
        found matches Some(at) ==> start_index <= at && valid_chunk_marker(content@, at as int),
{
    let marker: Vec<u8> = chunk_end();
    let mut cursor: usize = start_index;
    loop
        invariant
            start_index <= cursor,
            marker@ == chunk_marker(),
            first_valid_marker(content@, cursor as int) == first_valid_marker(
                content@,
                start_index as int,
            ),
        decreases content.len() - cursor,
    {
        proof {
            lemma_first_match_is_lowest(content@, cursor as int, chunk_marker());
        }
        match find_first(content, cursor, marker.as_slice(), true) {
            None => {
                proof {
                    if cursor < content@.len() {
                        lemma_first_valid_marker_skips(
                            content@,
                            cursor as int,
                            content@.len() as int,
                        );
                    }
                }
                return None;
            },
            Some(at) => {
                proof {
                    lemma_first_valid_marker_skips(content@, cursor as int, at as int);
                }
                if at >= MARKER_TO_CHUNK && !(content[at - 2] == 0 && content[at - 1] == 0) {
                    if is_savegame_between(content, start_index, at) {
                        return None;
                    }
                    return Some(at);
                }
                proof {
                    assert forall|inside: int|
                        at <= inside < at + SGDS_WIDTH implies !valid_chunk_marker(
                        content@,
                        inside,
                    ) by {
                        if inside > at {
                            lemma_markers_do_not_overlap(content@, at as int, inside);
                        }
                    }
                    lemma_first_valid_marker_skips(content@, at as int, at + SGDS_WIDTH);
                }
                cursor = at + SGDS_WIDTH;
            },
        }
    }
}

/// Finds where the chunks of the first inventory row start, from the end of
/// the last unlockable item. There must be an unlockable item, and the
/// offsets must be machine numbers; every other input has an answer.
pub fn get_index_for_inventory_items(
    unlockable_items: &[UnlockableItem],
    file_content: &[u8],
) -> (index: Result<usize, SaveError>)
    ensures
        index_result_view(index) == inventory_start(
            unlockable_items@.map_values(|item: UnlockableItem| item@),
            file_content@,
        ),
{
    let ghost items = unlockable_items@.map_values(|item: UnlockableItem| item@);
    if unlockable_items.len() == 0 {
        return Err(SaveError::InventoryStartMissing);
    }
    let last: &UnlockableItem = &unlockable_items[unlockable_items.len() - 1];
    assert(items.last() == last@);
    if last.index > usize::MAX - UNLOCKABLES_TO_INVENTORY || last.size > usize::MAX
        - UNLOCKABLES_TO_INVENTORY - last.index {
        return Err(SaveError::InventoryStartMissing);
    }
    let from: usize = last.index + last.size;
    match find_first_sgd_index(file_content, from) {
        Some(at) => Ok(at - MARKER_TO_CHUNK),
        None => Ok(from + UNLOCKABLES_TO_INVENTORY),
    }
}

/// Reads the chunk whose level field starts at `index`.
pub fn read_chunk(content: &[u8], index: usize) -> (chunk: InventoryChunk)
    requires
        index + CHUNK_WIDTH <= content.len(),
    ensures
        chunk@ == chunk_at(content@, index as int),
        chunk@.wf(),
{
    InventoryChunk::new(
        copy_range(content, index, index + LEVEL_WIDTH),
        copy_range(content, index + SEED_OFFSET, index + SEED_OFFSET + SEED_WIDTH),
        copy_range(content, index + AMOUNT_OFFSET, index + AMOUNT_OFFSET + AMOUNT_WIDTH),
        copy_range(
            content,
            index + DURABILITY_OFFSET,
            index + DURABILITY_OFFSET + DURABILITY_WIDTH,
        ),
        copy_range(content, index + SPACE_OFFSET, index + CHUNK_WIDTH),
        index,
    )
}

/// Reads the run of chunks that the matches `match_values` of the chunk
/// pattern close, from `start_index` on. The run ends, without failing, at
/// the first match that is not exactly "SGDs"; it is empty if "Savegame"
/// stands between `start_index` and its first "SGDs".
pub fn get_sgd_matches(content: &[u8], start_index: usize, match_values: &Vec<Vec<u8>>) -> (chunks:
    Vec<InventoryChunk>)
    ensures
        chunks.deep_view() == chunks_from(
            content@,
            start_index as int,
            match_values.deep_view(),
        ),
{
    let ghost texts = match_values.deep_view();
    let mut chunks: Vec<InventoryChunk> = Vec::new();
    let mut cursor: usize = start_index;
    let mut i: usize = 0;
    proof {
        assert(texts.skip(0) =~= texts);
        assert(chunks.deep_view() =~= Seq::<InventoryChunkView>::empty());
    }
    while i < match_values.len()
        invariant
            i <= match_values.len(),
            texts == match_values.deep_view(),
            chunk_run(content@, start_index as int, texts) == chunks.deep_view() + chunk_run(
                content@,
                cursor as int,
                texts.skip(i as int),
            ),
        ensures
            chunk_run(content@, start_index as int, texts) == chunks.deep_view(),
        decreases match_values.len() - i,
    {
        let ghost rest = texts.skip(i as int);
        proof {
            assert(rest[0] == match_values@[i as int]@);
            assert(rest.drop_first() =~= texts.skip(i + 1));
            lemma_first_match_is_lowest(content@, cursor as int, sgds());
            lemma_sgds_width();
        }
        let value: &Vec<u8> = &match_values[i];
        if !same_bytes(value.as_slice(), sgds_text()) {
            break ;
        }
        let found: Option<usize> = find_first(content, cursor, sgds_text(), true);
        match found {
            None => {
                break ;
            },
            Some(at) => {
                if at < CHUNK_WIDTH {
                    break ;
                }
                assert(at + SGDS_WIDTH <= content.len());
                let chunk: InventoryChunk = read_chunk(content, at - CHUNK_WIDTH);
                proof {
                    let before = chunks.deep_view();
                    let tail = chunk_run(content@, at + SGDS_WIDTH, texts.skip(i + 1));
                    assert(before + (seq![chunk@] + tail) =~= before.push(chunk@) + tail);
                }
                let ghost before = chunks.deep_view();
                chunks.push(chunk);
                assert(chunks.deep_view() =~= before.push(chunk@));
                cursor = at + SGDS_WIDTH;
            },
        }
        i += 1;
    }
    proof {
        lemma_chunk_run_bounds(content@, start_index as int, texts);
        assert(content@.len() == content.len());
        if chunks.len() > 0 {
            assert(chunks.deep_view()[0] == chunks@[0]@);
        }
    }
    if chunks.len() > 0 && is_savegame_between(
        content,
        start_index,
        chunks[0].index + CHUNK_WIDTH,
    ) {
        let none: Vec<InventoryChunk> = Vec::new();
        assert(none.deep_view() =~= Seq::<InventoryChunkView>::empty());
        return none;
    }
    chunks
}

/// What follows the search for "SGDs" tokens: reads the chunks that the
/// matches close and reports the offset behind the last of them. A run
/// without chunks is an error.
pub fn chunks_of_matches(
    content: &[u8],
    start_index: usize,
    match_values: &Vec<Vec<u8>>,
) -> (result: Result<(Vec<InventoryChunk>, usize), SaveError>)
    ensures
        chunks_result_view(result) == chunks_and_end(
            content@,
            start_index as int,
            match_values.deep_view(),
        ),
        result matches Ok((chunks, end)) ==> {
            &&& chunks@.len() > 0
            &&& chunks_lie_in(chunks.deep_view(), content@)
            &&& start_index < end <= content@.len()
        },
{
    proof {
        lemma_chunks_lie_in(content@, start_index as int, match_values.deep_view());
    }
    let chunks: Vec<InventoryChunk> = get_sgd_matches(content, start_index, match_values);
    if chunks.len() == 0 {
        return Err(SaveError::NoChunksFound);
    }
    proof {
        let run = chunk_run(content@, start_index as int, match_values.deep_view());
        lemma_chunk_run_bounds(content@, start_index as int, match_values.deep_view());
        assert(content@.len() == content.len());
        assert(chunks.deep_view() == run);
        assert(run[chunks.len() - 1] == chunks@[chunks.len() - 1]@);
    }
    let last_index: usize = chunks[chunks.len() - 1].index + CHUNK_WIDTH + SGDS_WIDTH;
    Ok((chunks, last_index))
}

/// Finds the run of inventory chunks that starts at `start_index`: searches
/// the rest of the buffer for "SGDs" tokens and reads a chunk in front of
/// each, up to the first token that carries a name. Returns the chunks and
/// the offset behind the last "SGDs" of the run.
pub fn find_all_inventory_chunks(content: &[u8], start_index: usize) -> (result: Result<
    (Vec<InventoryChunk>, usize),
    SaveError,
>)
    ensures
        chunks_result_view(result) == inventory_chunks(content@, start_index as int),
        result matches Ok((chunks, end)) ==> {
            &&& chunks@.len() > 0
            &&& chunks_lie_in(chunks.deep_view(), content@)
            &&& start_index < end <= content@.len()
        },
{
    if start_index > content.len() {
        return Err(SaveError::StartIndexOutOfRange);
    }
    let rest: &[u8] = slice_subrange(content, start_index, content.len());
    assert(rest@ =~= content@.skip(start_index as int));
    match find_pattern_matches(chunk_pattern_text(), rest) {
        Ok(match_values) => chunks_of_matches(content, start_index, &match_values),
        Err(error) => Err(error),
    }
}

} // verus!
