//! The rows of the inventory: for each run of chunks the items that its name
//! tokens make, each with its chunk and its attachments.
//!
//! Items and chunks of a run mirror each other: the first item of the run
//! owns its last chunk, the second item the chunk before that.

use crate::bytes::{copy_range, strip_controls, trim_suffix, without_controls, without_suffix};
use crate::chunks::{
    chunk_lies_in, chunks_and_end, chunks_lie_in, find_all_inventory_chunks, inventory_chunks,
    lemma_chunks_lie_in,
};
use crate::classifier::{
    amount_of_matches, count_items, find_amount_of_matches, lemma_count_items_prepend,
    lemma_run_tokens_bounds, run_tokens, token_lies_in, tokens_in_bounds, NameToken,
    NameTokenView, RunStateView, TokenKind,
};
use crate::error::SaveError;
use crate::formatting::{decimal_string, decimal_text, hex_text};
use crate::logger::ConsoleLogger;
use crate::markers::{
    chunk_pattern, sgds, sgds_text, token_pattern, MOD_PAYLOAD_WIDTH, ROW_TO_ROW,
};
use crate::rows::{create_item_row, item_row};
use crate::struct_data::{
    IdData, IdDataView, InventoryChunk, InventoryChunkView, InventoryItem, InventoryItemRow,
    InventoryItemRowView, InventoryItemView, Mod, ModView,
};
use crate::text::{pattern_matches, string_from_utf8_lossy, utf8_lossy};
use vstd::prelude::*;
use vstd::slice::slice_to_vec;
use vstd::string::*;
use vstd::utf8::encode_utf8;

verus! {

/// The name of the item that a token starts: the text of the token without
/// the "SGDs" at its end and without NUL and control bytes, decoded.
pub open spec fn item_name(text: Seq<u8>) -> Seq<char> {
    utf8_lossy(without_controls(without_suffix(text, sgds())))
}

/// The item that a token starts, with its chunk and its attachments.
pub open spec fn item_of(token: NameTokenView, chunk: InventoryChunkView, mods: Seq<ModView>)
    -> InventoryItemView {
    InventoryItemView {
        name: item_name(token.text),
        index: token.index,
        size: token.text.len() as int,
        sgd_data: token.text,
        chunk_data: chunk,
        mod_data: mods,
    }
}

/// The bytes kept for an attachment: 30 bytes from the start of its name, or
/// as many as the buffer still holds.
pub open spec fn mod_payload(content: Seq<u8>, index: int) -> Seq<u8> {
    if 0 <= index <= content.len() {
        content.subrange(
            index,
            if index + MOD_PAYLOAD_WIDTH <= content.len() {
                index + MOD_PAYLOAD_WIDTH
            } else {
                content.len() as int
            },
        )
    } else {
        Seq::empty()
    }
}

/// The attachment that a token is.
pub open spec fn mod_of(content: Seq<u8>, token: NameTokenView) -> ModView {
    ModView {
        name: utf8_lossy(token.text),
        index: token.index,
        data_content: mod_payload(content, token.index),
        data_string: hex_text(mod_payload(content, token.index)),
    }
}

/// The attachment describes the buffer: it stands inside the buffer, and it
/// holds the bytes that follow its offset.
pub open spec fn mod_lies_in(attachment: ModView, content: Seq<u8>) -> bool {
    &&& 0 <= attachment.index <= content.len()
    &&& attachment.data_content == mod_payload(content, attachment.index)
    &&& attachment.data_string == hex_text(attachment.data_content)
}

/// The item describes the buffer: its token stands in the buffer at its
/// offset, and its chunk and its attachments describe the buffer.
pub open spec fn item_lies_in(item: InventoryItemView, content: Seq<u8>) -> bool {
    &&& 0 <= item.index
    &&& item.size == item.sgd_data.len()
    &&& item.index + item.size <= content.len()
    &&& content.subrange(item.index, item.index + item.size) =~= item.sgd_data
    &&& chunk_lies_in(item.chunk_data, content)
    &&& forall|m: int|
        0 <= m < item.mod_data.len() ==> mod_lies_in(#[trigger] item.mod_data[m], content)
}

/// Every one of the items describes the buffer.
pub open spec fn items_lie_in(items: Seq<InventoryItemView>, content: Seq<u8>) -> bool {
    forall|k: int| 0 <= k < items.len() ==> item_lies_in(#[trigger] items[k], content)
}

/// Every item of every row describes the buffer.
pub open spec fn rows_lie_in(rows: Seq<InventoryItemRowView>, content: Seq<u8>) -> bool {
    forall|k: int|
        0 <= k < rows.len() ==> items_lie_in((#[trigger] rows[k]).inventory_items, content)
}

/// The chunk of the item that was started as number `place` of its run,
/// counting from 0: the chunks are taken from the last one backwards. Items
/// beyond the number of chunks share the first chunk.
pub open spec fn paired_chunk(chunks: Seq<InventoryChunkView>, place: int) -> InventoryChunkView {
    if 0 <= place < chunks.len() {
        chunks[chunks.len() - 1 - place]
    } else {
        chunks[0]
    }
}

/// The item that is finished when the next one starts or the run ends: the
/// pending token with the attachments gathered since it started.
pub open spec fn finished(
    chunks: Seq<InventoryChunkView>,
    started: int,
    pending: Option<NameTokenView>,
    mods: Seq<ModView>,
) -> Seq<InventoryItemView> {
    match pending {
        Some(token) => seq![item_of(token, paired_chunk(chunks, started - 1), mods)],
        None => Seq::empty(),
    }
}

/// The items that the tokens make, given that `started` items were started
/// before, that `pending` is the last of them and that `mods` followed it.
/// A token that starts an item finishes the pending one. Every other token
/// is an attachment of the pending item; in front of the first item there is
/// nothing it could be attached to, and it is left out.
pub open spec fn assemble(
    content: Seq<u8>,
    chunks: Seq<InventoryChunkView>,
    tokens: Seq<NameTokenView>,
    started: int,
    pending: Option<NameTokenView>,
    mods: Seq<ModView>,
) -> Seq<InventoryItemView>
    decreases tokens.len(),
{
    if tokens.len() == 0 {
        finished(chunks, started, pending, mods)
    } else if tokens[0].kind == TokenKind::NewItem {
        finished(chunks, started, pending, mods) + assemble(
            content,
            chunks,
            tokens.drop_first(),
            started + 1,
            Some(tokens[0]),
            Seq::empty(),
        )
    } else if pending is Some {
        assemble(
            content,
            chunks,
            tokens.drop_first(),
            started,
            pending,
            mods.push(mod_of(content, tokens[0])),
        )
    } else {
        assemble(content, chunks, tokens.drop_first(), started, pending, mods)
    }
}

/// The items of a run.
pub open spec fn items_of_run(
    content: Seq<u8>,
    chunks: Seq<InventoryChunkView>,
    tokens: Seq<NameTokenView>,
) -> Seq<InventoryItemView> {
    assemble(content, chunks, tokens, 0, None, Seq::empty())
}

/// Where the search for the next row starts: 75 bytes behind the last name
/// of the row. That is the end of the last attachment of the last item, or,
/// if that item has none, the start of the item's own name.
pub open spec fn next_cursor(items: Seq<InventoryItemView>) -> int
    recommends
        items.len() > 0,
{
    let last = items.last();
    if last.mod_data.len() > 0 {
        last.mod_data.last().index + encode_utf8(last.mod_data.last().name).len() + ROW_TO_ROW
    } else {
        last.index + ROW_TO_ROW
    }
}

/// The message that is recorded for a run of chunks.
pub open spec fn chunks_line(count: nat, end: nat) -> Seq<char> {
    "["@ + decimal_text(count) + "] inventory chunks found. The new index is: ["@ + decimal_text(
        end,
    ) + "]"@
}

/// How one round of the scan for rows ends.
pub enum RowScan {
    /// A search pattern was rejected.
    Failed(SaveError),
    /// There is no further row.
    Ended,
    /// The round found the last row.
    Last(InventoryItemRowView),
    /// The round found a row, and the next round starts at the offset.
    More(InventoryItemRowView, int),
}

/// How a round ends that has found the items `items`: without a row if
/// there is no item; with the last row if the next round would not start
/// further on inside the buffer; else with a row and the start of the next
/// round.
pub open spec fn items_scan(
    content: Seq<u8>,
    cursor: int,
    items: Seq<InventoryItemView>,
    lists: Seq<IdDataView>,
) -> RowScan {
    if items.len() == 0 {
        RowScan::Ended
    } else if cursor < next_cursor(items) <= content.len() {
        RowScan::More(item_row(items, lists), next_cursor(items))
    } else {
        RowScan::Last(item_row(items, lists))
    }
}

/// How a round ends that has read the run `chunks`, which ends at `end`:
/// with what the items make that the tokens behind the run yield.
pub open spec fn run_scan(
    content: Seq<u8>,
    cursor: int,
    chunks: Seq<InventoryChunkView>,
    end: int,
    lists: Seq<IdDataView>,
) -> RowScan {
    match amount_of_matches(content, end, chunks.len() as int) {
        Err(error) => RowScan::Failed(error),
        Ok(tokens) => items_scan(content, cursor, items_of_run(content, chunks, tokens), lists),
    }
}

/// One round of the scan for rows from `cursor` on: reads a run of chunks,
/// the tokens behind it and the items they make. There is no further row
/// where no run of chunks is found.
pub open spec fn row_scan(content: Seq<u8>, cursor: int, lists: Seq<IdDataView>) -> RowScan {
    match inventory_chunks(content, cursor) {
        Err(SaveError::PatternRejected) => RowScan::Failed(SaveError::PatternRejected),
        Err(_) => RowScan::Ended,
        Ok((chunks, end)) => run_scan(content, cursor, chunks, end, lists),
    }
}

/// The messages that one round of the scan records: one for the run of
/// chunks, if there is one.
pub open spec fn row_trace(content: Seq<u8>, cursor: int) -> Seq<Seq<char>> {
    match inventory_chunks(content, cursor) {
        Ok((chunks, end)) => seq![chunks_line(chunks.len(), end as nat)],
        Err(_) => Seq::empty(),
    }
}

/// The rows of an inventory and the messages recorded on the way to them.
pub struct RowsOutcome {
    pub trace: Seq<Seq<char>>,
    pub rows: Result<Seq<InventoryItemRowView>, SaveError>,
}

/// Rows found so far, in front of what the rest of the scan yields.
pub open spec fn rows_then(
    found: Seq<InventoryItemRowView>,
    rest: Result<Seq<InventoryItemRowView>, SaveError>,
) -> Result<Seq<InventoryItemRowView>, SaveError> {
    match rest {
        Ok(more) => Ok(found + more),
        Err(error) => Err(error),
    }
}

/// The rows from `cursor` on: round after round, until one ends the scan.
/// Only a rejected search pattern is an error.
pub open spec fn rows_from(content: Seq<u8>, cursor: int, lists: Seq<IdDataView>) -> RowsOutcome
    decreases content.len() - cursor,
{
    match row_scan(content, cursor, lists) {
        RowScan::Failed(error) => RowsOutcome {
            trace: row_trace(content, cursor),
            rows: Err(error),
        },
        RowScan::Ended => RowsOutcome { trace: row_trace(content, cursor), rows: Ok(Seq::empty()) },
        RowScan::Last(row) => RowsOutcome {
            trace: row_trace(content, cursor),
            rows: Ok(seq![row]),
        },
        RowScan::More(row, next) => if cursor < next <= content.len() {
            RowsOutcome {
                trace: row_trace(content, cursor) + rows_from(content, next, lists).trace,
                rows: rows_then(seq![row], rows_from(content, next, lists).rows),
            }
        } else {
            RowsOutcome { trace: row_trace(content, cursor), rows: Ok(seq![row]) }
        },
    }
}

/// A result of rows as mathematical values.
pub open spec fn rows_result_view(result: Result<Vec<InventoryItemRow>, SaveError>) -> Result<
    Seq<InventoryItemRowView>,
    SaveError,
> {
    match result {
        Ok(rows) => Ok(rows.deep_view()),
        Err(error) => Err(error),
    }
}

/// How one round of the scan for rows ended.
pub enum RowStep {
    /// A search pattern was rejected.
    Failed(SaveError),
    /// There is no further row.
    Ended,
    /// The round found the last row.
    Last(InventoryItemRow),
    /// The round found a row, and the next round starts at the offset.
    More(InventoryItemRow, usize),
}

impl View for RowStep {
    type V = RowScan;

    open spec fn view(&self) -> RowScan {
        match self {
            RowStep::Failed(error) => RowScan::Failed(*error),
            RowStep::Ended => RowScan::Ended,
            RowStep::Last(row) => RowScan::Last(row@),
            RowStep::More(row, next) => RowScan::More(row@, *next as int),
        }
    }
}

/// One item for each token that starts one, and none for any other token:
/// the items are as many as the item tokens, and one more if an item is
/// pending.
pub proof fn lemma_one_item_per_item_token(
    content: Seq<u8>,
    chunks: Seq<InventoryChunkView>,
    tokens: Seq<NameTokenView>,
    started: int,
    pending: Option<NameTokenView>,
    mods: Seq<ModView>,
)
    ensures
        assemble(content, chunks, tokens, started, pending, mods).len() == count_items(tokens)
            + if pending is Some {
            1int
        } else {
            0int
        },
    decreases tokens.len(),
{
    if tokens.len() > 0 {
        let rest = tokens.drop_first();
        assert(tokens =~= seq![tokens[0]] + rest);
        lemma_count_items_prepend(tokens[0], rest);
        if tokens[0].kind == TokenKind::NewItem {
            lemma_one_item_per_item_token(
                content,
                chunks,
                rest,
                started + 1,
                Some(tokens[0]),
                Seq::empty(),
            );
        } else if pending is Some {
            lemma_one_item_per_item_token(
                content,
                chunks,
                rest,
                started,
                pending,
                mods.push(mod_of(content, tokens[0])),
            );
        } else {
            lemma_one_item_per_item_token(content, chunks, rest, started, pending, mods);
        }
    }
}

/// Each item has the chunk of its place: the first item of a run the last
/// chunk, the second item the chunk before that.
pub proof fn lemma_items_have_their_chunks(
    content: Seq<u8>,
    chunks: Seq<InventoryChunkView>,
    tokens: Seq<NameTokenView>,
    started: int,
    pending: Option<NameTokenView>,
    mods: Seq<ModView>,
)
    ensures
        forall|k: int|
            0 <= k < assemble(content, chunks, tokens, started, pending, mods).len() ==> (
            #[trigger] assemble(content, chunks, tokens, started, pending, mods)[k]).chunk_data
                == paired_chunk(
                chunks,
                started + k - if pending is Some {
                    1int
                } else {
                    0int
                },
            ),
    decreases tokens.len(),
{
    let items = assemble(content, chunks, tokens, started, pending, mods);
    let done = finished(chunks, started, pending, mods);
    let offset = if pending is Some {
        1int
    } else {
        0int
    };
    if tokens.len() == 0 {
        assert(items == done);
        assert forall|k: int| 0 <= k < items.len() implies (#[trigger] items[k]).chunk_data
            == paired_chunk(chunks, started + k - offset) by {
            assert(items[k] == done[0]);
        }
    } else {
        let rest = tokens.drop_first();
        if tokens[0].kind == TokenKind::NewItem {
            let behind = assemble(
                content,
                chunks,
                rest,
                started + 1,
                Some(tokens[0]),
                Seq::empty(),
            );
            lemma_items_have_their_chunks(
                content,
                chunks,
                rest,
                started + 1,
                Some(tokens[0]),
                Seq::empty(),
            );
            assert(items =~= done + behind);
            assert forall|k: int| 0 <= k < items.len() implies (#[trigger] items[k]).chunk_data
                == paired_chunk(chunks, started + k - offset) by {
                if k < done.len() {
                    assert(items[k] == done[k]);
                } else {
                    assert(items[k] == behind[k - done.len()]);
                }
            }
        } else if pending is Some {
            lemma_items_have_their_chunks(
                content,
                chunks,
                rest,
                started,
                pending,
                mods.push(mod_of(content, tokens[0])),
            );
            assert(items == assemble(
                content,
                chunks,
                rest,
                started,
                pending,
                mods.push(mod_of(content, tokens[0])),
            ));
        } else {
            lemma_items_have_their_chunks(content, chunks, rest, started, pending, mods);
            assert(items == assemble(content, chunks, rest, started, pending, mods));
        }
    }
}

/// Items that are made of tokens and chunks that describe the buffer describe
/// the buffer.
pub proof fn lemma_items_lie_in(
    content: Seq<u8>,
    chunks: Seq<InventoryChunkView>,
    tokens: Seq<NameTokenView>,
    started: int,
    pending: Option<NameTokenView>,
    mods: Seq<ModView>,
)
    requires
        chunks.len() > 0,
        chunks_lie_in(chunks, content),
        forall|k: int| 0 <= k < tokens.len() ==> token_lies_in(#[trigger] tokens[k], content),
        forall|m: int| 0 <= m < mods.len() ==> mod_lies_in(#[trigger] mods[m], content),
        pending matches Some(token) ==> token_lies_in(token, content),
    ensures
        items_lie_in(assemble(content, chunks, tokens, started, pending, mods), content),
    decreases tokens.len(),
{
    let items = assemble(content, chunks, tokens, started, pending, mods);
    let done = finished(chunks, started, pending, mods);
    assert forall|k: int| 0 <= k < done.len() implies item_lies_in(#[trigger] done[k], content) by {
        assert(chunk_lies_in(paired_chunk(chunks, started - 1), content));
    }
    if tokens.len() > 0 {
        let rest = tokens.drop_first();
        assert forall|k: int| 0 <= k < rest.len() implies token_lies_in(
            #[trigger] rest[k],
            content,
        ) by {
            assert(rest[k] == tokens[k + 1]);
        }
        if tokens[0].kind == TokenKind::NewItem {
            let behind = assemble(
                content,
                chunks,
                rest,
                started + 1,
                Some(tokens[0]),
                Seq::empty(),
            );
            lemma_items_lie_in(content, chunks, rest, started + 1, Some(tokens[0]), Seq::empty());
            assert(items =~= done + behind);
            assert forall|k: int| 0 <= k < items.len() implies item_lies_in(
                #[trigger] items[k],
                content,
            ) by {
                if k < done.len() {
                    assert(items[k] == done[k]);
                } else {
                    assert(items[k] == behind[k - done.len()]);
                }
            }
        } else if pending is Some {
            let more = mods.push(mod_of(content, tokens[0]));
            assert forall|m: int| 0 <= m < more.len() implies mod_lies_in(
                #[trigger] more[m],
                content,
            ) by {
                if m < mods.len() {
                    assert(more[m] == mods[m]);
                }
            }
            lemma_items_lie_in(content, chunks, rest, started, pending, more);
        } else {
            lemma_items_lie_in(content, chunks, rest, started, pending, mods);
        }
    }
}

/// The rows of an inventory describe the buffer that they were read from:
/// every item, its chunk and its attachments stand where their offsets say.
pub proof fn lemma_rows_lie_in(content: Seq<u8>, cursor: int, lists: Seq<IdDataView>)
    requires
        0 <= cursor,
    ensures
        rows_from(content, cursor, lists).rows matches Ok(rows) ==> rows_lie_in(rows, content),
    decreases content.len() - cursor,
{
    match inventory_chunks(content, cursor) {
        Ok((chunks, end)) => {
            match pattern_matches(chunk_pattern(), content.skip(cursor)) {
                Ok(texts) => {
                    lemma_chunks_lie_in(content, cursor, texts);
                },
                Err(_) => {},
            }
            match amount_of_matches(content, end, chunks.len() as int) {
                Ok(tokens) => {
                    match pattern_matches(token_pattern(), content.skip(end)) {
                        Ok(texts) => {
                            lemma_run_tokens_bounds(
                                content,
                                end,
                                chunks.len() as int,
                                RunStateView::initial(end),
                                texts,
                            );
                        },
                        Err(_) => {},
                    }
                    let items = items_of_run(content, chunks, tokens);
                    lemma_items_lie_in(content, chunks, tokens, 0, None, Seq::empty());
                    match row_scan(content, cursor, lists) {
                        RowScan::More(row, next) => {
                            lemma_rows_lie_in(content, next, lists);
                            match rows_from(content, next, lists).rows {
                                Ok(more) => {
                                    let rows = seq![row] + more;
                                    assert forall|k: int| 0 <= k < rows.len() implies items_lie_in(
                                        (#[trigger] rows[k]).inventory_items,
                                        content,
                                    ) by {
                                        if k > 0 {
                                            assert(rows[k] == more[k - 1]);
                                        }
                                    }
                                },
                                Err(_) => {},
                            }
                        },
                        RowScan::Last(row) => {
                            let rows = seq![row];
                            assert forall|k: int| 0 <= k < rows.len() implies items_lie_in(
                                (#[trigger] rows[k]).inventory_items,
                                content,
                            ) by {}
                        },
                        _ => {},
                    }
                },
                Err(_) => {},
            }
        },
        Err(_) => {},
    }
}

/// A run of N chunks whose tokens start N items yields exactly N items.
pub proof fn lemma_one_item_per_chunk(
    content: Seq<u8>,
    chunks: Seq<InventoryChunkView>,
    tokens: Seq<NameTokenView>,
)
    requires
        count_items(tokens) == chunks.len(),
    ensures
        items_of_run(content, chunks, tokens).len() == chunks.len(),
{
    lemma_one_item_per_item_token(content, chunks, tokens, 0, None, Seq::empty());
}

/// Tokens that start no item and follow a pending item are all attached to
/// it, in their order.
pub proof fn lemma_attachments_stay_with_item(
    content: Seq<u8>,
    chunks: Seq<InventoryChunkView>,
    attached: Seq<NameTokenView>,
    rest: Seq<NameTokenView>,
    started: int,
    pending: NameTokenView,
    mods: Seq<ModView>,
)
    requires
        forall|k: int| 0 <= k < attached.len() ==> (#[trigger] attached[k]).kind
            != TokenKind::NewItem,
    ensures
        assemble(content, chunks, attached + rest, started, Some(pending), mods) == assemble(
            content,
            chunks,
            rest,
            started,
            Some(pending),
            mods + attached.map_values(|token: NameTokenView| mod_of(content, token)),
        ),
    decreases attached.len(),
{
    let as_mods = attached.map_values(|token: NameTokenView| mod_of(content, token));
    if attached.len() == 0 {
        assert(attached + rest =~= rest);
        assert(mods + as_mods =~= mods);
    } else {
        let all = attached + rest;
        let tail = attached.drop_first();
        assert(all[0] == attached[0]);
        assert(all.drop_first() =~= tail + rest);
        assert forall|k: int| 0 <= k < tail.len() implies (#[trigger] tail[k]).kind
            != TokenKind::NewItem by {
            assert(tail[k] == attached[k + 1]);
        }
        lemma_attachments_stay_with_item(
            content,
            chunks,
            tail,
            rest,
            started,
            pending,
            mods.push(mod_of(content, attached[0])),
        );
        assert(mods.push(mod_of(content, attached[0])) + tail.map_values(
            |token: NameTokenView| mod_of(content, token),
        ) =~= mods + as_mods);
    }
}

/// A token that follows an item and starts none is attached to that item
/// and makes no item of its own: an item token, the tokens that follow it up
/// to the next item token, and whatever comes then, yield first of all that
/// item with exactly those tokens as its attachments.
pub proof fn lemma_mod_is_attached_to_item_before(
    content: Seq<u8>,
    chunks: Seq<InventoryChunkView>,
    item: NameTokenView,
    attached: Seq<NameTokenView>,
    rest: Seq<NameTokenView>,
)
    requires
        item.kind == TokenKind::NewItem,
        forall|k: int| 0 <= k < attached.len() ==> (#[trigger] attached[k]).kind
            != TokenKind::NewItem,
        rest.len() == 0 || rest[0].kind == TokenKind::NewItem,
    ensures
        items_of_run(content, chunks, seq![item] + attached + rest).len() == 1 + count_items(rest),
        items_of_run(content, chunks, seq![item] + attached + rest)[0] == item_of(
            item,
            paired_chunk(chunks, 0),
            attached.map_values(|token: NameTokenView| mod_of(content, token)),
        ),
{
    let all = seq![item] + attached + rest;
    let as_mods = attached.map_values(|token: NameTokenView| mod_of(content, token));
    assert(all[0] == item);
    assert(all.drop_first() =~= attached + rest);
    lemma_attachments_stay_with_item(
        content,
        chunks,
        attached,
        rest,
        1,
        item,
        Seq::empty(),
    );
    assert(Seq::<ModView>::empty() + as_mods =~= as_mods);
    assert(finished(chunks, 0, None, Seq::empty()) =~= Seq::<InventoryItemView>::empty());
    let behind = assemble(content, chunks, rest, 1, Some(item), as_mods);
    assert(items_of_run(content, chunks, all) =~= behind);
    lemma_one_item_per_item_token(content, chunks, rest, 1, Some(item), as_mods);
    assert(behind[0] == item_of(item, paired_chunk(chunks, 0), as_mods));
}

/// Makes the attachment that a token is.
pub fn make_mod(content: &[u8], token: &NameToken) -> (attachment: Mod)
    ensures
        attachment@ == mod_of(content@, token@),
{
    let name: String = string_from_utf8_lossy(token.text.as_slice());
    let payload: Vec<u8> = if token.index <= content.len() {
        let end: usize = if MOD_PAYLOAD_WIDTH <= content.len() - token.index {
            token.index + MOD_PAYLOAD_WIDTH
        } else {
            content.len()
        };
        copy_range(content, token.index, end)
    } else {
        Vec::new()
    };
    Mod::new(name, token.index, payload)
}

/// Makes the item that a token starts.
pub fn make_item(token: &NameToken, chunk: &InventoryChunk, mods: Vec<Mod>) -> (item:
    InventoryItem)
    ensures
        item@ == item_of(token@, chunk@, mods.deep_view()),
{
    let trimmed: Vec<u8> = trim_suffix(token.text.as_slice(), sgds_text());
    let clean: Vec<u8> = strip_controls(trimmed.as_slice());
    let name: String = string_from_utf8_lossy(clean.as_slice());
    InventoryItem::new(
        name,
        token.index,
        token.text.len(),
        slice_to_vec(token.text.as_slice()),
        chunk.duplicate(),
        mods,
    )
}

/// The chunk of the item that was started as number `place` of its run.
pub fn chunk_for(chunks: &Vec<InventoryChunk>, place: usize) -> (chunk: &InventoryChunk)
    requires
        chunks@.len() > 0,
    ensures
        chunk@ == paired_chunk(chunks.deep_view(), place as int),
{
    if place < chunks.len() {
        &chunks[chunks.len() - 1 - place]
    } else {
        &chunks[0]
    }
}

/// What follows the classification of the tokens of a run: makes an item of
/// every token that starts one, gives it its chunk from the mirrored run and
/// attaches the tokens that follow it.
pub fn collect_items(
    content: &[u8],
    chunks: &Vec<InventoryChunk>,
    tokens: &Vec<NameToken>,
) -> (items: Vec<InventoryItem>)
    requires
        chunks@.len() > 0,
    ensures
        items.deep_view() == items_of_run(content@, chunks.deep_view(), tokens.deep_view()),
        items@.len() == count_items(tokens.deep_view()),
        chunks_lie_in(chunks.deep_view(), content@) && tokens_in_bounds(
            tokens.deep_view(),
            0,
            content@,
        ) ==> items_lie_in(items.deep_view(), content@),
        forall|k: int|
            0 <= k < items@.len() ==> (#[trigger] items.deep_view()[k]).chunk_data
                == paired_chunk(chunks.deep_view(), k),
{
    let ghost all = tokens.deep_view();
    let ghost run = chunks.deep_view();
    let mut items: Vec<InventoryItem> = Vec::new();
    let mut mods: Vec<Mod> = Vec::new();
    let mut pending: Option<usize> = None;
    let mut started: usize = 0;
    let mut i: usize = 0;
    proof {
        assert(all.skip(0) =~= all);
        assert(items.deep_view() =~= Seq::<InventoryItemView>::empty());
        assert(mods.deep_view() =~= Seq::<ModView>::empty());
        lemma_one_item_per_item_token(content@, run, all, 0, None, Seq::empty());
        lemma_items_have_their_chunks(content@, run, all, 0, None, Seq::empty());
        if chunks_lie_in(run, content@) && tokens_in_bounds(all, 0, content@) {
            lemma_items_lie_in(content@, run, all, 0, None, Seq::empty());
        }
    }
    while i < tokens.len()
        invariant
            i <= tokens.len(),
            started <= i,
            chunks@.len() > 0,
            all == tokens.deep_view(),
            run == chunks.deep_view(),
            pending matches Some(place) ==> place < i && started >= 1,
            items_of_run(content@, run, all) == items.deep_view() + assemble(
                content@,
                run,
                all.skip(i as int),
                started as int,
                match pending {
                    Some(place) => Some(all[place as int]),
                    None => None,
                },
                mods.deep_view(),
            ),
        decreases tokens.len() - i,
    {
        let ghost rest = all.skip(i as int);
        let ghost waiting = match pending {
            Some(place) => Some(all[place as int]),
            None => None,
        };
        proof {
            assert(rest[0] == tokens@[i as int]@);
            assert(rest.drop_first() =~= all.skip(i + 1));
        }
        let token: &NameToken = &tokens[i];
        match token.kind {
            TokenKind::NewItem => {
                let ghost before = items.deep_view();
                let ghost done = finished(run, started as int, waiting, mods.deep_view());
                match pending {
                    Some(place) => {
                        assert(all[place as int] == tokens@[place as int]@);
                        let item: InventoryItem = make_item(
                            &tokens[place],
                            chunk_for(chunks, started - 1),
                            mods,
                        );
                        items.push(item);
                        assert(items.deep_view() =~= before + done);
                    },
                    None => {
                        assert(items.deep_view() =~= before + done);
                    },
                }
                proof {
                    let tail = assemble(
                        content@,
                        run,
                        all.skip(i + 1),
                        started + 1,
                        Some(rest[0]),
                        Seq::empty(),
                    );
                    assert(before + (done + tail) =~= (before + done) + tail);
                }
                mods = Vec::new();
                assert(mods.deep_view() =~= Seq::<ModView>::empty());
                pending = Some(i);
                started = started + 1;
            },
            _ => {
                if pending.is_some() {
                    let ghost before = mods.deep_view();
                    let attachment: Mod = make_mod(content, token);
                    mods.push(attachment);
                    assert(mods.deep_view() =~= before.push(mod_of(content@, rest[0])));
                }
            },
        }
        i += 1;
    }
    proof {
        assert(all.skip(tokens.len() as int) =~= Seq::<NameTokenView>::empty());
    }
    let ghost before = items.deep_view();
    match pending {
        Some(place) => {
            assert(all[place as int] == tokens@[place as int]@);
            let item: InventoryItem = make_item(
                &tokens[place],
                chunk_for(chunks, started - 1),
                mods,
            );
            items.push(item);
            assert(items.deep_view() =~= before + finished(
                run,
                started as int,
                Some(all[place as int]),
                mods.deep_view(),
            ));
        },
        None => {
            assert(before + Seq::<InventoryItemView>::empty() =~= before);
        },
    }
    items
}

/// The offset from which the next row is searched, or nothing where that
/// offset is no machine number.
pub fn next_row_index(items: &Vec<InventoryItem>) -> (next: Option<usize>)
    requires
        items@.len() > 0,
    ensures
        match next {
            Some(index) => index == next_cursor(items.deep_view()),
            None => next_cursor(items.deep_view()) > usize::MAX,
        },
{
    let last: &InventoryItem = &items[items.len() - 1];
    assert(items.deep_view().last() == last@);
    let base: Option<usize> = if last.mod_data.len() > 0 {
        let attachment: &Mod = &last.mod_data[last.mod_data.len() - 1];
        assert(last@.mod_data.last() == attachment@);
        attachment.index.checked_add(attachment.name.as_str().as_bytes().len())
    } else {
        Some(last.index)
    };
    match base {
        Some(index) => index.checked_add(ROW_TO_ROW),
        None => None,
    }
}

/// Writes the message that is recorded for a run of chunks.
pub fn chunks_message(count: usize, end: usize) -> (line: String)
    ensures
        line@ == chunks_line(count as nat, end as nat),
{
    let mut line: String = "[".to_owned();
    line.append(decimal_string(count as u128).as_str());
    line.append("] inventory chunks found. The new index is: [");
    line.append(decimal_string(end as u128).as_str());
    line.append("]");
    line
}

/// Ends a round that has found `items`: makes the row, if there is an item,
/// and tells where the next round starts.
pub fn finish_row(
    content: &[u8],
    index: usize,
    items: Vec<InventoryItem>,
    ids: &Vec<IdData>,
) -> (step: RowStep)
    ensures
        step@ == items_scan(content@, index as int, items.deep_view(), ids.deep_view()),
{
    if items.len() == 0 {
        return RowStep::Ended;
    }
    let next: Option<usize> = next_row_index(&items);
    let row: InventoryItemRow = create_item_row(items, ids);
    assert(content@.len() == content.len());
    match next {
        Some(ahead) => if index < ahead && ahead <= content.len() {
            RowStep::More(row, ahead)
        } else {
            RowStep::Last(row)
        },
        None => RowStep::Last(row),
    }
}

/// Ends a round that has read a run of chunks: finds the tokens behind the
/// run and makes the row of their items.
pub fn scan_run(
    content: &[u8],
    index: usize,
    chunks: &Vec<InventoryChunk>,
    new_index: usize,
    ids: &Vec<IdData>,
) -> (step: RowStep)
    requires
        chunks@.len() > 0,
    ensures
        step@ == run_scan(
            content@,
            index as int,
            chunks.deep_view(),
            new_index as int,
            ids.deep_view(),
        ),
{
    match find_amount_of_matches(content, new_index, chunks.len()) {
        Err(error) => RowStep::Failed(error),
        Ok(tokens) => {
            let items: Vec<InventoryItem> = collect_items(content, chunks, &tokens);
            finish_row(content, index, items, ids)
        },
    }
}

/// Runs one round of the scan for rows from `index` on, and records the
/// message for the run of chunks that it read.
pub fn scan_row(
    content: &[u8],
    index: usize,
    ids: &Vec<IdData>,
    logger: &mut ConsoleLogger,
) -> (step: RowStep)
    ensures
        step@ == row_scan(content@, index as int, ids.deep_view()),
        final(logger)@ == old(logger)@ + row_trace(content@, index as int),
{
    let ghost seen = logger@;
    match find_all_inventory_chunks(content, index) {
        Err(SaveError::PatternRejected) => {
            assert(seen + Seq::<Seq<char>>::empty() =~= seen);
            RowStep::Failed(SaveError::PatternRejected)
        },
        Err(_) => {
            assert(seen + Seq::<Seq<char>>::empty() =~= seen);
            RowStep::Ended
        },
        Ok((chunks, new_index)) => {
            let line: String = chunks_message(chunks.len(), new_index);
            logger.log_message(line.as_str());
            assert(logger@ =~= seen + seq![line@]);
            scan_run(content, index, &chunks, new_index, ids)
        },
    }
}

/// Finds all rows of the inventory from `start_index` on and names each
/// after its tab. Records one message for every run of chunks.
pub fn get_all_items(
    content: &[u8],
    start_index: usize,
    ids: &Vec<IdData>,
    logger: &mut ConsoleLogger,
) -> (result: Result<Vec<InventoryItemRow>, SaveError>)
    ensures
        rows_result_view(result) == rows_from(content@, start_index as int, ids.deep_view()).rows,
        final(logger)@ == old(logger)@ + rows_from(
            content@,
            start_index as int,
            ids.deep_view(),
        ).trace,
        result matches Ok(rows) ==> rows_lie_in(rows.deep_view(), content@),
{
    proof {
        lemma_rows_lie_in(content@, start_index as int, ids.deep_view());
    }
    let ghost lists = ids.deep_view();
    let ghost whole = rows_from(content@, start_index as int, lists);
    let ghost logged = old(logger)@;
    let mut rows: Vec<InventoryItemRow> = Vec::new();
    let mut index: usize = start_index;
    proof {
        assert(rows.deep_view() =~= Seq::<InventoryItemRowView>::empty());
        lemma_rows_then_nothing(whole.rows);
    }
    loop
        invariant
            lists == ids.deep_view(),
            logged == old(logger)@,
            whole == rows_from(content@, start_index as int, lists),
            whole.rows matches Ok(all) ==> rows_lie_in(all, content@),
            whole.rows == rows_then(
                rows.deep_view(),
                rows_from(content@, index as int, lists).rows,
            ),
            logged + whole.trace == logger@ + rows_from(content@, index as int, lists).trace,
        decreases content.len() - index,
    {
        let ghost found = rows.deep_view();
        let ghost seen = logger@;
        let ghost line = row_trace(content@, index as int);
        let step: RowStep = scan_row(content, index, ids, logger);
        match step {
            RowStep::Failed(error) => {
                return Err(error);
            },
            RowStep::Ended => {
                assert(found + Seq::<InventoryItemRowView>::empty() =~= found);
                return Ok(rows);
            },
            RowStep::Last(row) => {
                rows.push(row);
                assert(rows.deep_view() =~= found + seq![row@]);
                return Ok(rows);
            },
            RowStep::More(row, ahead) => {
                proof {
                    let rest = rows_from(content@, ahead as int, lists);
                    assert(seen + (line + rest.trace) =~= (seen + line) + rest.trace);
                    lemma_rows_then_then(found, seq![row@], rest.rows);
                }
                rows.push(row);
                assert(rows.deep_view() =~= found + seq![row@]);
                index = ahead;
            },
        }
    }
}

/// Rows in front of rows in front of a rest.
pub proof fn lemma_rows_then_then(
    found: Seq<InventoryItemRowView>,
    next: Seq<InventoryItemRowView>,
    rest: Result<Seq<InventoryItemRowView>, SaveError>,
)
    ensures
        rows_then(found, rows_then(next, rest)) == rows_then(found + next, rest),
{
    match rest {
        Ok(more) => {
            assert(found + (next + more) =~= (found + next) + more);
        },
        Err(_) => {},
    }
}

/// No rows in front of a rest are the rest.
pub proof fn lemma_rows_then_nothing(rest: Result<Seq<InventoryItemRowView>, SaveError>)
    ensures
        rows_then(Seq::empty(), rest) == rest,
{
    match rest {
        Ok(more) => {
            assert(Seq::<InventoryItemRowView>::empty() + more =~= more);
        },
        Err(_) => {},
    }
}

} // verus!
